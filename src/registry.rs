use vstd::prelude::*;
use crate::api::{KeyView, ModelRuntimeKey};
use crate::error::RuntimeError;

verus! {

/// The loaded-instance cache and the table of in-flight loads, keyed by the
/// deduplication key. `H` is the handle of a loaded model, `G` the load gate
/// that resolvers of one key share while its load is in flight.
#[derive(Debug)]
pub struct ModelRegistry<H, G> {
    instances: Vec<(ModelRuntimeKey, H)>,
    loader_locks: Vec<(ModelRuntimeKey, G)>,
}

/// The handle stored first under key `k`.
pub open spec fn cached_in<H>(s: Seq<(ModelRuntimeKey, H)>, k: KeyView) -> Option<H>
    decreases s.len(),
{
    if s.len() == 0 {
        None
    } else if s[0].0@ == k {
        Some(s[0].1)
    } else {
        cached_in(s.drop_first(), k)
    }
}

impl<H, G> ModelRegistry<H, G> {
    pub closed spec fn spec_instances(&self) -> Seq<(ModelRuntimeKey, H)> {
        self.instances@
    }

    pub closed spec fn spec_locks(&self) -> Seq<(ModelRuntimeKey, G)> {
        self.loader_locks@
    }

    /// The handle cached for key `k`.
    pub open spec fn cached(&self, k: KeyView) -> Option<H> {
        cached_in(self.spec_instances(), k)
    }

    /// A load of key `k` is in flight: its gate is in the table.
    pub open spec fn gated(&self, k: KeyView) -> bool {
        exists|i: int| 0 <= i < self.spec_locks().len() && (#[trigger] self.spec_locks()[i]).0@ == k
    }

    /// Nothing cached and no load in flight.
    pub fn new() -> (r: ModelRegistry<H, G>)
        ensures
            forall|k: KeyView| r.cached(k) is None && !r.gated(k),
            r.gate_count() == 0,
    {
        ModelRegistry { instances: Vec::new(), loader_locks: Vec::new() }
    }

    /// The number of gates in the table, one per key whose load is in flight.
    pub open spec fn gate_count(&self) -> nat {
        self.spec_locks().len()
    }

    /// The number of gates in the table.
    pub fn loader_lock_count(&self) -> (r: usize)
        ensures
            r == self.gate_count(),
    {
        self.loader_locks.len()
    }

    /// The cached handle of `key`, if its model is loaded.
    pub fn get(&self, key: &ModelRuntimeKey) -> (r: Option<&H>)
        ensures
            r is None <==> self.cached(key@) is None,
            r is Some ==> *r->0 == self.cached(key@)->0,
    {
        let mut i: usize = 0;
        proof {
            assert(self.instances@.skip(0) =~= self.instances@);
        }
        while i < self.instances.len()
            invariant
                i <= self.instances@.len(),
                cached_in(self.instances@, key@) == cached_in(self.instances@.skip(i as int), key@),
            decreases self.instances@.len() - i,
        {
            if self.instances[i].0.same(key) {
                proof {
                    assert(self.instances@.skip(i as int)[0] == self.instances@[i as int]);
                }
                return Some(&self.instances[i].1);
            }
            proof {
                assert(self.instances@.skip(i as int).drop_first() =~= self.instances@.skip(i + 1));
            }
            i = i + 1;
        }
        None
    }

    fn find_gate(&self, key: &ModelRuntimeKey) -> (r: Option<usize>)
        ensures
            r is None <==> !self.gated(key@),
            r is Some ==> r->0 < self.spec_locks().len() && self.spec_locks()[r->0 as int].0@ == key@,
    {
        let mut i: usize = 0;
        while i < self.loader_locks.len()
            invariant
                i <= self.loader_locks@.len(),
                forall|p: int| 0 <= p < i ==> (#[trigger] self.loader_locks@[p]).0@ != key@,
            decreases self.loader_locks@.len() - i,
        {
            if self.loader_locks[i].0.same(key) {
                return Some(i);
            }
            i = i + 1;
        }
        None
    }

    /// Takes part in the load of `key`: returns the load gate already held for
    /// it, or, when there is none, `fresh`, which becomes its load gate. Caches
    /// and other gates are left as they were.
    pub fn open_gate(&mut self, key: ModelRuntimeKey, fresh: G) -> (r: &G)
        ensures
            final(self).gated(key@),
            forall|k: KeyView| k != key@ ==> (final(self).gated(k) <==> old(self).gated(k)),
            final(self).spec_instances() == old(self).spec_instances(),
            !old(self).gated(key@) ==> *r == fresh,
            old(self).gated(key@) ==> final(self).spec_locks() == old(self).spec_locks() && exists|i: int|
                0 <= i < old(self).spec_locks().len() && (#[trigger] old(self).spec_locks()[i]).0@ == key@
                    && old(self).spec_locks()[i].1 == *r,
    {
        match self.find_gate(&key) {
            Some(i) => &self.loader_locks[i].1,
            None => {
                let ghost old_locks = self.loader_locks@;
                let ghost kv = key@;
                self.loader_locks.push((key, fresh));
                proof {
                    let s = self.loader_locks@;
                    assert(s.len() == old_locks.len() + 1);
                    assert(s[old_locks.len() as int].0@ == kv);
                    assert forall|k: KeyView| k != kv implies (self.gated(k) <==> old(self).gated(k)) by {
                        if self.gated(k) {
                            let i = choose|i: int| 0 <= i < s.len() && (#[trigger] s[i]).0@ == k;
                            if i == old_locks.len() {
                                assert(s[i].0@ == kv);
                            }
                            assert(old_locks[i] == s[i]);
                            assert(old(self).spec_locks()[i].0@ == k);
                        }
                        if old(self).gated(k) {
                            let i = choose|i: int| 0 <= i < old_locks.len() && (#[trigger] old_locks[i]).0@ == k;
                            assert(s[i] == old_locks[i]);
                        }
                    }
                }
                let n = self.loader_locks.len() - 1;
                &self.loader_locks[n].1
            }
        }
    }

    /// Removes the load gate of `key`, once its load is over.
    pub fn release_gate(&mut self, key: &ModelRuntimeKey)
        ensures
            !final(self).gated(key@),
            forall|k: KeyView| k != key@ ==> (final(self).gated(k) <==> old(self).gated(k)),
            final(self).spec_instances() == old(self).spec_instances(),
            final(self).gate_count() <= old(self).gate_count(),
    {
        let ghost old_locks = self.loader_locks@;
        let mut found = self.find_gate(key);
        while found.is_some()
            invariant
                found is None <==> !self.gated(key@),
                found is Some ==> found->0 < self.loader_locks@.len() && self.loader_locks@[found->0 as int].0@ == key@,
                forall|k: KeyView| k != key@ ==> (self.gated(k) <==> old(self).gated(k)),
                self.instances@ == old(self).instances@,
                self.loader_locks@.len() <= old_locks.len(),
            decreases self.loader_locks@.len(),
        {
            let idx = found.unwrap();
            let ghost before = self.loader_locks@;
            self.loader_locks.remove(idx);
            proof {
                let s = self.loader_locks@;
                assert forall|k: KeyView| k != key@ implies (self.gated(k) <==> old(self).gated(k)) by {
                    if self.gated(k) {
                        let i = choose|i: int| 0 <= i < s.len() && (#[trigger] s[i]).0@ == k;
                        let j = if i < idx { i } else { i + 1 };
                        assert(before[j] == s[i]);
                        assert(exists|p: int| 0 <= p < before.len() && (#[trigger] before[p]).0@ == k);
                    }
                    if exists|p: int| 0 <= p < before.len() && (#[trigger] before[p]).0@ == k {
                        let p = choose|p: int| 0 <= p < before.len() && (#[trigger] before[p]).0@ == k;
                        assert(p != idx);
                        let q = if p < idx { p } else { p - 1 };
                        assert(s[q] == before[p]);
                    }
                }
            }
            found = self.find_gate(key);
        }
    }

    /// Caches `handle` under `key`, replacing what was cached under it.
    pub fn store(&mut self, key: ModelRuntimeKey, handle: H)
        ensures
            final(self).cached(key@) == Some(handle),
            forall|k: KeyView| k != key@ ==> final(self).cached(k) == old(self).cached(k),
            final(self).spec_locks() == old(self).spec_locks(),
    {
        let ghost kv = key@;
        let ghost old_inst = self.instances@;
        self.instances.insert(0, (key, handle));
        proof {
            assert(self.instances@.drop_first() =~= old_inst);
        }
    }

    /// The second look, taken while holding its load gate: when another resolver loaded `key` in
    /// the meantime, its gate is removed and the cached handle is used.
    pub fn recheck(&mut self, key: &ModelRuntimeKey) -> (r: bool)
        ensures
            r == (old(self).cached(key@) is Some),
            r ==> !final(self).gated(key@),
            !r ==> final(self).spec_locks() == old(self).spec_locks(),
            final(self).spec_instances() == old(self).spec_instances(),
    {
        if self.get(key).is_some() {
            self.release_gate(key);
            true
        } else {
            false
        }
    }

    /// Ends the load of `key` with its outcome: a loaded handle is cached; in
    /// every case (success, provider error, timeout) its load gate is
    /// removed. The error, if any, is handed back.
    pub fn finish_load(&mut self, key: ModelRuntimeKey, outcome: Result<H, RuntimeError>) -> (r: Option<RuntimeError>)
        ensures
            !final(self).gated(key@),
            forall|k: KeyView| k != key@ ==> (final(self).gated(k) <==> old(self).gated(k)),
            outcome is Ok ==> r is None && final(self).cached(key@) == Some(outcome->Ok_0),
            outcome is Err ==> r == Some(outcome->Err_0) && final(self).spec_instances() == old(self).spec_instances(),
            forall|k: KeyView| k != key@ ==> final(self).cached(k) == old(self).cached(k),
    {
        self.release_gate(&key);
        match outcome {
            Ok(h) => {
                self.store(key, h);
                None
            }
            Err(e) => Some(e),
        }
    }
}

/// The number of `true` entries.
pub open spec fn count_true(s: Seq<bool>) -> nat
    decreases s.len(),
{
    if s.len() == 0 {
        0
    } else {
        count_true(s.drop_last()) + if s.last() { 1nat } else { 0nat }
    }
}

/// One resolver's turn with the load gate of key `k`, from registry `before`
/// to `after`: when `recheck` finds a handle it is served and nothing is
/// loaded; otherwise the resolver loads `fresh` and `finish_load` caches it.
pub open spec fn gate_turn<H, G>(before: ModelRegistry<H, G>, after: ModelRegistry<H, G>, k: KeyView, loaded: bool, fresh: H, served: H) -> bool {
    match before.cached(k) {
        Some(h) => !loaded && after.cached(k) == Some(h) && served == h,
        None => loaded && after.cached(k) == Some(fresh) && served == fresh,
    }
}

/// Resolvers of one key that hold its gate one after another, each load
/// succeeding: only the first loads, and every one of them is served the
/// handle that this load produced.
pub proof fn lemma_one_load_per_key<H, G>(regs: Seq<ModelRegistry<H, G>>, k: KeyView, loaded: Seq<bool>, fresh: Seq<H>, served: Seq<H>)
    requires
        loaded.len() >= 1,
        regs.len() == loaded.len() + 1,
        fresh.len() == loaded.len(),
        served.len() == loaded.len(),
        regs[0].cached(k) is None,
        forall|i: int| 0 <= i < loaded.len() ==> gate_turn(#[trigger] regs[i], regs[i + 1], k, loaded[i], fresh[i], served[i]),
    ensures
        count_true(loaded) == 1,
        forall|i: int| 0 <= i < served.len() ==> #[trigger] served[i] == fresh[0],
    decreases loaded.len(),
{
    let n = loaded.len() as int;
    if n == 1 {
        assert(gate_turn(regs[0], regs[1], k, loaded[0], fresh[0], served[0]));
        assert(count_true(loaded.drop_last()) == 0);
    } else {
        assert forall|i: int| 0 <= i < loaded.drop_last().len() implies gate_turn(#[trigger] regs.drop_last()[i], regs.drop_last()[i + 1], k, loaded.drop_last()[i], fresh.drop_last()[i], served.drop_last()[i]) by {
            assert(gate_turn(regs[i], regs[i + 1], k, loaded[i], fresh[i], served[i]));
        }
        lemma_one_load_per_key(regs.drop_last(), k, loaded.drop_last(), fresh.drop_last(), served.drop_last());
        assert(forall|i: int| 0 <= i < n - 1 ==> #[trigger] served[i] == served.drop_last()[i]);
        lemma_cached_from_first(regs, k, loaded, fresh, served, n - 1);
        assert(gate_turn(regs[n - 1], regs[n], k, loaded[n - 1], fresh[n - 1], served[n - 1]));
        assert(!loaded.last());
        assert(served[0] == served.drop_last()[0]);
    }
}

proof fn lemma_cached_from_first<H, G>(regs: Seq<ModelRegistry<H, G>>, k: KeyView, loaded: Seq<bool>, fresh: Seq<H>, served: Seq<H>, j: int)
    requires
        1 <= j < regs.len(),
        loaded.len() >= 1,
        regs.len() == loaded.len() + 1,
        fresh.len() == loaded.len(),
        served.len() == loaded.len(),
        regs[0].cached(k) is None,
        forall|i: int| 0 <= i < loaded.len() ==> gate_turn(#[trigger] regs[i], regs[i + 1], k, loaded[i], fresh[i], served[i]),
    ensures
        regs[j].cached(k) == Some(fresh[0]),
    decreases j,
{
    assert(gate_turn(regs[0], regs[1], k, loaded[0], fresh[0], served[0]));
    if j > 1 {
        lemma_cached_from_first(regs, k, loaded, fresh, served, j - 1);
        assert(gate_turn(regs[j - 1], regs[j], k, loaded[j - 1], fresh[j - 1], served[j - 1]));
    }
}

} // verus!
