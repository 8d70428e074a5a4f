//! Server settings: which hosted model to use, and where.

use vstd::prelude::*;

verus! {

/// Where the hosted model runs. An empty model identifier means that none
/// was configured.
#[derive(Debug)]
pub struct BedrockConfig {
    pub model_id: String,
    pub region: String,
    pub aws_profile: String,
}

#[derive(Debug)]
pub struct ModelConfig {
    pub bedrock: BedrockConfig,
}

#[derive(Debug)]
pub struct PolyglotConfig {
    pub model: ModelConfig,
}

impl Default for PolyglotConfig {
    fn default() -> (r: PolyglotConfig)
        ensures
            r.model.bedrock.model_id@.len() == 0,
            r.model.bedrock.region@ == "us-east-1"@,
            r.model.bedrock.aws_profile@ == "my-aws-bedrock"@,
    {
        PolyglotConfig {
            model: ModelConfig {
                bedrock: BedrockConfig {
                    model_id: String::new(),
                    region: "us-east-1".to_owned(),
                    aws_profile: "my-aws-bedrock".to_owned(),
                },
            },
        }
    }
}

} // verus!
