//! Chat messages exchanged with a language model.
use vstd::prelude::*;

verus! {

/// Who speaks a message.
#[derive(Debug, Clone, Copy, PartialEq, Eq, Structural)]
pub enum MessageRole {
    System,
    User,
    Assistant,
    Developer,
}

/// One chat message.
#[derive(Debug, Clone)]
pub struct Message {
    pub role: MessageRole,
    pub content: String,
}

impl Message {
    /// A system message.
    pub fn system(content: String) -> (r: Message)
        ensures
            r.role == MessageRole::System,
            r.content@ == content@,
    {
        Message { role: MessageRole::System, content }
    }

    /// A user message.
    pub fn user(content: String) -> (r: Message)
        ensures
            r.role == MessageRole::User,
            r.content@ == content@,
    {
        Message { role: MessageRole::User, content }
    }

    /// An assistant message.
    pub fn assistant(content: String) -> (r: Message)
        ensures
            r.role == MessageRole::Assistant,
            r.content@ == content@,
    {
        Message { role: MessageRole::Assistant, content }
    }
}

/// The model of a message: its role and text.
pub open spec fn message_model(m: Message) -> (MessageRole, Seq<char>) {
    (m.role, m.content@)
}

/// The models of a sequence of messages.
pub open spec fn message_models(ms: Seq<Message>) -> Seq<(MessageRole, Seq<char>)> {
    ms.map_values(|m: Message| message_model(m))
}

/// Token counts that a language model reports for one request.
#[derive(Debug, Clone, Copy)]
pub struct Usage {
    pub prompt_tokens: u32,
    pub completion_tokens: u32,
    pub total_tokens: u32,
}

} // verus!
