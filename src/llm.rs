//! The text-generation collaborator: one fallible operation from a prompt
//! to an answer.

use vstd::prelude::*;
use crate::text::concat_str;

verus! {

/// A text-generation service.
pub trait LlmHandler {
    fn answer(&self, prompt: &str) -> Result<String, String>;
}

/// A text-generation service, as the built-in actions address it.
pub trait PromptHandler {
    fn answer(&self, prompt: &str) -> Result<String, String>;
}

/// A service that gives the same answer to every prompt.
#[derive(Debug)]
pub struct MockLLM {
    pub answer: String,
}

impl MockLLM {
    pub fn new(answer: String) -> (r: Result<MockLLM, String>)
        ensures
            r matches Ok(m) && m.answer@ == answer@,
    {
        Ok(MockLLM { answer })
    }

    /// The fixed answer, whatever the prompt.
    pub fn answer(&self, _prompt: &str) -> (r: Result<String, String>)
        ensures
            r matches Ok(a) && a@ == self.answer@,
    {
        Ok(self.answer.clone())
    }
}

impl LlmHandler for MockLLM {
    fn answer(&self, prompt: &str) -> Result<String, String> {
        MockLLM::answer(self, prompt)
    }
}

impl PromptHandler for MockLLM {
    fn answer(&self, prompt: &str) -> Result<String, String> {
        MockLLM::answer(self, prompt)
    }
}

/// Why the hosted model could not be invoked.
#[derive(Debug)]
pub struct BedrockConverseError(pub String);

impl BedrockConverseError {
    pub fn new(reason: &str) -> (r: BedrockConverseError)
        ensures
            r.0@ == reason@,
    {
        BedrockConverseError(reason.to_owned())
    }

    /// The message shown for the error.
    pub fn describe(&self) -> (r: String)
        ensures
            r@ == "Can't invoke model. Reason: "@ + self.0@,
    {
        proof {
            reveal_strlit("Can't invoke model. Reason: ");
        }
        concat_str("Can't invoke model. Reason: ", self.0.as_str())
    }
}

} // verus!
