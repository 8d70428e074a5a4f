use polyglot_ls::configuration::PolyglotConfig;
use polyglot_ls::llm::{BedrockConverseError, LlmHandler, MockLLM, PromptHandler};

#[test]
fn mock_answers_every_prompt_alike() {
    let m = MockLLM::new("MOCK".to_string()).unwrap();
    assert_eq!(m.answer("anything"), Ok("MOCK".to_string()));
    assert_eq!(LlmHandler::answer(&m, "else"), Ok("MOCK".to_string()));
    assert_eq!(PromptHandler::answer(&m, "other"), Ok("MOCK".to_string()));
}

#[test]
fn converse_error_message() {
    let e = BedrockConverseError::new("Model took too long");
    assert_eq!(e.describe(), "Can't invoke model. Reason: Model took too long");
}

#[test]
fn default_settings() {
    let c = PolyglotConfig::default();
    assert_eq!(c.model.bedrock.region, "us-east-1");
    assert_eq!(c.model.bedrock.aws_profile, "my-aws-bedrock");
    assert!(c.model.bedrock.model_id.is_empty());
}
