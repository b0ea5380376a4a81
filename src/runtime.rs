use vstd::prelude::*;
use crate::api::{
    fault_message, is_config_error, spec_fault, spec_valid, task_name, ModelAliasSpec, ModelTask,
    WarmupPolicy,
};
use crate::error::RuntimeError;
use crate::options_validation::{options_valid, validate_provider_options};
use crate::text::same_text;

verus! {

/// `id` is one of the registered provider ids.
pub open spec fn provider_known(ids: Seq<String>, id: Seq<char>) -> bool {
    exists|i: int| 0 <= i < ids.len() && (#[trigger] ids[i])@ == id
}

/// Whether `id` is one of `ids`.
pub fn is_registered(ids: &Vec<String>, id: &str) -> (r: bool)
    ensures
        r == provider_known(ids@, id@),
{
    let mut i: usize = 0;
    while i < ids.len()
        invariant
            i <= ids@.len(),
            forall|p: int| 0 <= p < i ==> (#[trigger] ids@[p])@ != id@,
        decreases ids@.len() - i,
    {
        if same_text(ids[i].as_str(), id) {
            return true;
        }
        i = i + 1;
    }
    false
}

/// A spec that a runtime with providers `ids` accepts: valid, of a registered
/// provider, with options that the provider accepts.
pub open spec fn spec_admissible(s: ModelAliasSpec, ids: Seq<String>) -> bool {
    spec_valid(s) && provider_known(ids, s.provider_id@) && options_valid(s.provider_id@, s.task, s.options)
}

/// Checks a spec against the runtime: its invariants, its provider, its
/// options, in that order.
pub fn check_spec(spec: &ModelAliasSpec, ids: &Vec<String>) -> (r: Result<(), RuntimeError>)
    ensures
        r is Ok <==> spec_admissible(*spec, ids@),
        r is Err ==> r->Err_0 is Config,
        !spec_valid(*spec) ==> r is Err && is_config_error(r->Err_0, fault_message(*spec, spec_fault(*spec)->0)),
{
    spec.validate()?;
    if !is_registered(ids, spec.provider_id.as_str()) {
        let mut m = String::from_str("Unknown provider '");
        m.append(spec.provider_id.as_str());
        m.append("' for alias '");
        m.append(spec.alias.as_str());
        m.append("'");
        return Err(RuntimeError::Config(m));
    }
    validate_provider_options(spec.provider_id.as_str(), spec.task, &spec.options)
}

/// The aliases of a list of specs are pairwise distinct.
pub open spec fn aliases_unique(s: Seq<ModelAliasSpec>) -> bool {
    forall|p: int, q: int| 0 <= p < q < s.len() ==> (#[trigger] s[p]).alias@ != (#[trigger] s[q]).alias@
}

/// The catalog of a runtime: its specs, each alias once.
#[derive(Debug)]
pub struct Catalog {
    specs: Vec<ModelAliasSpec>,
}

impl Catalog {
    pub closed spec fn spec_specs(&self) -> Seq<ModelAliasSpec> {
        self.specs@
    }

    /// Aliases are unique.
    pub open spec fn wf(&self) -> bool {
        aliases_unique(self.spec_specs())
    }

    /// The catalog holds a spec with this alias.
    pub open spec fn has_alias(&self, alias: Seq<char>) -> bool {
        exists|i: int| 0 <= i < self.spec_specs().len() && (#[trigger] self.spec_specs()[i]).alias@ == alias
    }

    /// The number of specs.
    pub fn len(&self) -> (r: usize)
        ensures
            r == self.spec_specs().len(),
    {
        self.specs.len()
    }

    /// The `i`-th spec.
    pub fn spec_at(&self, i: usize) -> (r: &ModelAliasSpec)
        requires
            i < self.spec_specs().len(),
        ensures
            *r == self.spec_specs()[i as int],
    {
        &self.specs[i]
    }

    fn find(&self, alias: &str) -> (r: Option<usize>)
        ensures
            r is None <==> !self.has_alias(alias@),
            r is Some ==> r->0 < self.spec_specs().len() && self.spec_specs()[r->0 as int].alias@ == alias@,
    {
        let mut i: usize = 0;
        while i < self.specs.len()
            invariant
                i <= self.specs@.len(),
                forall|p: int| 0 <= p < i ==> (#[trigger] self.specs@[p]).alias@ != alias@,
            decreases self.specs@.len() - i,
        {
            if same_text(self.specs[i].alias.as_str(), alias) {
                return Some(i);
            }
            i = i + 1;
        }
        None
    }

    /// Whether a spec with this alias is in the catalog.
    pub fn contains_alias(&self, alias: &str) -> (r: bool)
        ensures
            r == self.has_alias(alias@),
    {
        self.find(alias).is_some()
    }

    /// The spec of `alias`, or a configuration error when there is none.
    pub fn lookup_spec(&self, alias: &str) -> (r: Result<&ModelAliasSpec, RuntimeError>)
        ensures
            r is Ok <==> self.has_alias(alias@),
            r is Ok ==> r->Ok_0.alias@ == alias@ && self.spec_specs().contains(*r->Ok_0),
            r is Err ==> is_config_error(r->Err_0, "Alias '"@ + alias@ + "' not found"@),
    {
        match self.find(alias) {
            Some(i) => Ok(&self.specs[i]),
            None => {
                let mut m = String::from_str("Alias '");
                m.append(alias);
                m.append("' not found");
                Err(RuntimeError::Config(m))
            }
        }
    }

    /// Builds the catalog of a runtime with providers `ids`. Each spec is
    /// checked in turn; the first that fails, or that repeats an alias, is
    /// rejected with a configuration error.
    pub fn build(specs: Vec<ModelAliasSpec>, ids: &Vec<String>) -> (r: Result<Catalog, RuntimeError>)
        ensures
            r is Ok <==> (forall|i: int| 0 <= i < specs@.len() ==> spec_admissible(#[trigger] specs@[i], ids@))
                && aliases_unique(specs@),
            r is Ok ==> r->Ok_0.spec_specs() == specs@ && r->Ok_0.wf(),
            r is Err ==> r->Err_0 is Config,
    {
        let ghost all = specs@;
        assert(all.subrange(0, 0) =~= Seq::<ModelAliasSpec>::empty());
        assert(all.subrange(0, all.len() as int) =~= all);
        let mut catalog = Catalog { specs: Vec::new() };
        let mut rest = specs;
        let ghost mut n: int = 0;
        while rest.len() > 0
            invariant
                all == specs@,
                0 <= n,
                n + rest@.len() == all.len(),
                rest@ == all.subrange(n, all.len() as int),
                catalog.specs@ == all.subrange(0, n),
                forall|i: int| 0 <= i < n ==> spec_admissible(#[trigger] all[i], ids@),
                aliases_unique(catalog.specs@),
            decreases rest@.len(),
        {
            let spec = rest.remove(0);
            proof {
                assert(spec == all[n]);
                assert(rest@ =~= all.subrange(n + 1, all.len() as int));
            }
            match check_spec(&spec, ids) {
                Ok(()) => {}
                Err(e) => {
                    proof {
                        assert(!spec_admissible(all[n], ids@));
                    }
                    return Err(e);
                }
            }
            if catalog.contains_alias(spec.alias.as_str()) {
                proof {
                    let j = choose|j: int| 0 <= j < catalog.specs@.len() && (#[trigger] catalog.specs@[j]).alias@ == spec.alias@;
                    assert(all[j] == catalog.specs@[j]);
                    assert(all[j].alias@ == all[n].alias@);
                    assert(!aliases_unique(all));
                }
                return Err(RuntimeError::Config(String::from_str("Duplicate alias in catalog")));
            }
            let ghost before = catalog.specs@;
            catalog.specs.push(spec);
            proof {
                assert(catalog.specs@ =~= all.subrange(0, n + 1));
                assert forall|p: int, q: int| 0 <= p < q < catalog.specs@.len() implies (#[trigger] catalog.specs@[p]).alias@ != (#[trigger] catalog.specs@[q]).alias@ by {
                    if q == n {
                        assert(catalog.specs@[p] == before[p]);
                    } else {
                        assert(catalog.specs@[p] == before[p]);
                        assert(catalog.specs@[q] == before[q]);
                    }
                }
            }
            proof {
                n = n + 1;
            }
        }
        proof {
            assert(catalog.specs@ =~= all);
        }
        Ok(catalog)
    }

    /// Adds a spec at run time: it must pass the checks of `check_spec` and
    /// its alias must be new.
    pub fn register(&mut self, spec: ModelAliasSpec, ids: &Vec<String>) -> (r: Result<(), RuntimeError>)
        requires
            old(self).wf(),
        ensures
            final(self).wf(),
            r is Ok <==> spec_admissible(spec, ids@) && !old(self).has_alias(spec.alias@),
            r is Ok ==> final(self).spec_specs() == old(self).spec_specs().push(spec),
            r is Err ==> final(self).spec_specs() == old(self).spec_specs() && r->Err_0 is Config,
    {
        check_spec(&spec, ids)?;
        if self.contains_alias(spec.alias.as_str()) {
            let mut m = String::from_str("Alias '");
            m.append(spec.alias.as_str());
            m.append("' already exists");
            return Err(RuntimeError::Config(m));
        }
        let ghost before = self.specs@;
        self.specs.push(spec);
        proof {
            assert forall|p: int, q: int| 0 <= p < q < self.specs@.len() implies (#[trigger] self.specs@[p]).alias@ != (#[trigger] self.specs@[q]).alias@ by {
                assert(self.specs@[p] == before[p]);
                if q < before.len() {
                    assert(self.specs@[q] == before[q]);
                }
            }
        }
        Ok(())
    }
}

/// What the provider-warmup phase of construction does for every provider.
#[derive(Debug, Clone, Copy, PartialEq, Eq, Structural)]
pub enum ProviderWarmup {
    /// Await its warmup; a failure aborts construction.
    AwaitEach,
    /// Start its warmup in a detached task; failures are only logged.
    SpawnEach,
    /// Nothing.
    Skip,
}

/// What the model-warmup phase does for one spec.
#[derive(Debug, Clone, Copy, PartialEq, Eq, Structural)]
pub enum ModelWarmup {
    /// Resolve and load it now, and wait.
    LoadNow,
    /// Resolve and load it in a detached task.
    LoadInBackground,
    /// Nothing: it loads on first use.
    OnFirstUse,
}

/// The provider-warmup phase under the runtime's global policy.
pub fn provider_warmup_plan(policy: WarmupPolicy) -> (r: ProviderWarmup)
    ensures
        policy == WarmupPolicy::Eager ==> r == ProviderWarmup::AwaitEach,
        policy == WarmupPolicy::Background ==> r == ProviderWarmup::SpawnEach,
        policy == WarmupPolicy::Lazy ==> r == ProviderWarmup::Skip,
{
    match policy {
        WarmupPolicy::Eager => ProviderWarmup::AwaitEach,
        WarmupPolicy::Background => ProviderWarmup::SpawnEach,
        WarmupPolicy::Lazy => ProviderWarmup::Skip,
    }
}

/// The model-warmup step of one spec, by its own policy.
pub fn model_warmup_plan(spec: &ModelAliasSpec) -> (r: ModelWarmup)
    ensures
        spec.warmup == WarmupPolicy::Eager ==> r == ModelWarmup::LoadNow,
        spec.warmup == WarmupPolicy::Background ==> r == ModelWarmup::LoadInBackground,
        spec.warmup == WarmupPolicy::Lazy ==> r == ModelWarmup::OnFirstUse,
{
    match spec.warmup {
        WarmupPolicy::Eager => ModelWarmup::LoadNow,
        WarmupPolicy::Background => ModelWarmup::LoadInBackground,
        WarmupPolicy::Lazy => ModelWarmup::OnFirstUse,
    }
}

/// What a failed model warmup means for construction of the runtime: only an
/// eager warmup of a required spec aborts it, with the load's error; every
/// other failure lets it finish (and is only logged).
pub open spec fn warmup_failure_effect(warmup: WarmupPolicy, required: bool, error: RuntimeError) -> Result<(), RuntimeError> {
    if warmup == WarmupPolicy::Eager && required {
        Err(error)
    } else {
        Ok(())
    }
}

/// The outcome for construction of a failed warmup of `spec`.
pub fn warmup_failure_outcome(spec: &ModelAliasSpec, error: RuntimeError) -> (r: Result<(), RuntimeError>)
    ensures
        r == warmup_failure_effect(spec.warmup, spec.required, error),
{
    if spec.warmup == WarmupPolicy::Eager && spec.required {
        Err(error)
    } else {
        Ok(())
    }
}

/// The warmup matrix: an eager required failure aborts construction; an eager
/// optional, a background or a lazy failure does not. A failed load caches
/// nothing, so the model's next access loads it again and meets the failure
/// then.
pub proof fn lemma_warmup_matrix(required: bool, error: RuntimeError)
    ensures
        warmup_failure_effect(WarmupPolicy::Eager, true, error) == Err::<(), RuntimeError>(error),
        warmup_failure_effect(WarmupPolicy::Eager, false, error) is Ok,
        warmup_failure_effect(WarmupPolicy::Background, required, error) is Ok,
        warmup_failure_effect(WarmupPolicy::Lazy, required, error) is Ok,
{
}

/// The error that aborts construction when the eager warmup of provider `id`
/// fails with `error`: a load error naming both.
pub fn provider_warmup_error(id: &str, error: &RuntimeError) -> (r: RuntimeError)
    ensures
        r is Load,
        r->Load_0@ == "Failed to warmup provider "@ + id@ + ": "@ + crate::error::error_text(*error),
{
    let mut m = String::from_str("Failed to warmup provider ");
    m.append(id);
    m.append(": ");
    let e = error.to_string();
    m.append(e.as_str());
    RuntimeError::Load(m)
}

/// The name of the interface of a task's handle.
pub open spec fn interface_name(t: ModelTask) -> Seq<char> {
    match t {
        ModelTask::Embed => "EmbeddingModel"@,
        ModelTask::Rerank => "RerankerModel"@,
        ModelTask::Generate => "GeneratorModel"@,
    }
}

/// Checks that a loaded handle of task `loaded` can serve a request for a
/// handle of task `wanted`; a mismatch is a capability error.
pub fn check_handle_task(alias: &str, wanted: ModelTask, loaded: ModelTask) -> (r: Result<(), RuntimeError>)
    ensures
        r is Ok <==> wanted == loaded,
        r is Err ==> r->Err_0 is CapabilityMismatch && r->Err_0->CapabilityMismatch_0@ == "Model for alias '"@
            + alias@ + "' does not implement "@ + interface_name(wanted),
{
    if wanted == loaded {
        Ok(())
    } else {
        let mut m = String::from_str("Model for alias '");
        m.append(alias);
        m.append("' does not implement ");
        let name = match wanted {
            ModelTask::Embed => "EmbeddingModel",
            ModelTask::Rerank => "RerankerModel",
            ModelTask::Generate => "GeneratorModel",
        };
        m.append(name);
        Err(RuntimeError::CapabilityMismatch(m))
    }
}

/// Checks that a provider supports the task of the spec it is asked to load;
/// when it does not, a capability error names the provider and the task.
pub fn check_provider_task(provider_name: &str, supported: &crate::traits::ProviderCapabilities, task: ModelTask) -> (r: Result<(), RuntimeError>)
    ensures
        r is Ok <==> supported.supported_tasks@.contains(task),
        r is Err ==> r->Err_0 is CapabilityMismatch && r->Err_0->CapabilityMismatch_0@ == provider_name@
            + " provider does not support task "@ + task_name(task),
{
    if supported.supports(task) {
        Ok(())
    } else {
        let mut m = String::from_str(provider_name);
        m.append(" provider does not support task ");
        let t = task.to_string();
        m.append(t.as_str());
        Err(RuntimeError::CapabilityMismatch(m))
    }
}

} // verus!
