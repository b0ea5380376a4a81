use vstd::prelude::*;

verus! {

/// The settings of an Azure OpenAI deployment that its URLs are made from.
pub struct AzureResolvedOptions {
    pub api_key: String,
    pub resource_name: String,
    pub api_version: String,
}

/// The endpoint of a deployment's operation `op` (such as `embeddings`).
pub open spec fn deployment_url(resource: Seq<char>, deployment: Seq<char>, op: Seq<char>, version: Seq<char>) -> Seq<char> {
    "https://"@ + resource + ".openai.azure.com/openai/deployments/"@ + deployment + "/"@ + op
        + "?api-version="@ + version
}

impl AzureResolvedOptions {
    fn url(&self, deployment: &str, op: &str) -> (r: String)
        ensures
            r@ == deployment_url(self.resource_name@, deployment@, op@, self.api_version@),
    {
        let mut r = String::from_str("https://");
        r.append(self.resource_name.as_str());
        r.append(".openai.azure.com/openai/deployments/");
        r.append(deployment);
        r.append("/");
        r.append(op);
        r.append("?api-version=");
        r.append(self.api_version.as_str());
        r
    }

    /// The embeddings endpoint of a deployment.
    pub fn embed_url(&self, deployment: &str) -> (r: String)
        ensures
            r@ == deployment_url(self.resource_name@, deployment@, "embeddings"@, self.api_version@),
    {
        self.url(deployment, "embeddings")
    }

    /// The chat-completions endpoint of a deployment.
    pub fn chat_url(&self, deployment: &str) -> (r: String)
        ensures
            r@ == deployment_url(self.resource_name@, deployment@, "chat/completions"@, self.api_version@),
    {
        self.url(deployment, "chat/completions")
    }
}

} // verus!
