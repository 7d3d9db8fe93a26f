//! Values exchanged with an AI provider.
use vstd::prelude::*;

verus! {

/// The provider an AI action is sent to.
#[derive(Debug, PartialEq, Eq)]
pub struct AISettings {
    pub endpoint: String,
    pub model: String,
    /// Whether an API key is stored.
    pub configured: bool,
}

impl Clone for AISettings {
    fn clone(&self) -> (r: Self)
        ensures
            r == *self,
    {
        AISettings { endpoint: self.endpoint.clone(), model: self.model.clone(), configured: self.configured }
    }
}

impl Default for AISettings {
    /// OpenAI's endpoint and a small model, with no key.
    fn default() -> (r: Self)
        ensures
            r.endpoint@ == "https://api.openai.com/v1"@,
            r.model@ == "gpt-4.1-mini"@,
            !r.configured,
    {
        AISettings {
            endpoint: "https://api.openai.com/v1".to_owned(),
            model: "gpt-4.1-mini".to_owned(),
            configured: false,
        }
    }
}

/// What the assistant is asked to do.
#[derive(Debug, Clone, Copy, PartialEq, Eq, Structural)]
pub enum AIAction {
    ExplainFile,
    ExplainSymbol,
    SuggestRefactoring,
    ReviewDeadCode,
}

/// An action on a file, or on one of its symbols.
#[derive(Debug, PartialEq, Eq)]
pub struct AIRequest {
    pub scan_id: String,
    pub path: String,
    pub action: AIAction,
    pub symbol_id: Option<String>,
}

/// The assistant's answer.
#[derive(Debug, PartialEq, Eq)]
pub struct AIResponse {
    pub content: String,
    pub model: String,
    pub provider: String,
}

} // verus!
