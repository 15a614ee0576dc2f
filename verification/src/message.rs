//! Vendor-neutral representation of a conversation turn and of the
//! per-request generation options.

use vstd::prelude::*;

verus! {

/// Who produced a turn of the conversation.
#[derive(Clone, Copy, Debug, PartialEq, Eq, Structural)]
pub enum MessageRole {
    System,
    User,
    Assistant,
}

impl MessageRole {
    /// The wire name of the role, as the transcript formats spell it.
    pub fn as_str(&self) -> (r: &'static str)
        ensures
            self is System ==> r@ == "system"@,
            self is User ==> r@ == "user"@,
            self is Assistant ==> r@ == "assistant"@,
    {
        match self {
            MessageRole::System => "system",
            MessageRole::User => "user",
            MessageRole::Assistant => "assistant",
        }
    }
}

/// One turn of a conversation. An ordered sequence of these forms the
/// history that is replayed verbatim to the vendor.
#[derive(Clone, Debug)]
pub struct ChatMessage {
    pub role: MessageRole,
    pub content: String,
}

impl ChatMessage {
    pub fn new(role: MessageRole, content: &str) -> (m: ChatMessage)
        ensures
            m.role == role,
            m.content@ == content@,
    {
        ChatMessage { role, content: content.to_owned() }
    }

    pub fn system(content: &str) -> (m: ChatMessage)
        ensures
            m.role == MessageRole::System,
            m.content@ == content@,
    {
        Self::new(MessageRole::System, content)
    }

    pub fn user(content: &str) -> (m: ChatMessage)
        ensures
            m.role == MessageRole::User,
            m.content@ == content@,
    {
        Self::new(MessageRole::User, content)
    }

    pub fn assistant(content: &str) -> (m: ChatMessage)
        ensures
            m.role == MessageRole::Assistant,
            m.content@ == content@,
    {
        Self::new(MessageRole::Assistant, content)
    }
}

/// Generation options carried by one request. The temperature is held in
/// thousandths (700 stands for 0.7) so that the option can be compared and
/// rendered exactly; unset options are left off the wire entirely.
#[derive(Clone, Debug)]
pub struct ChatRequestOptions {
    pub temperature: Option<u32>,
    pub max_output_tokens: Option<u32>,
}

impl Default for ChatRequestOptions {
    fn default() -> (r: ChatRequestOptions)
        ensures
            r.temperature is None,
            r.max_output_tokens is None,
    {
        ChatRequestOptions { temperature: None, max_output_tokens: None }
    }
}

} // verus!
