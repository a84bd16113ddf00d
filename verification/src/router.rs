//! The intents that a user message can have.

use vstd::prelude::*;

verus! {

/// One earlier message of the conversation.
#[derive(Debug, PartialEq, Eq)]
pub struct ConversationMessage {
    pub role: String,
    pub content: String,
}

impl Clone for ConversationMessage {
    fn clone(&self) -> (r: Self)
        ensures
            r == *self,
    {
        ConversationMessage { role: self.role.clone(), content: self.content.clone() }
    }
}

/// What a user message asks for.
#[derive(Debug, PartialEq, Eq)]
pub enum Intent {
    /// Conversation, with the reply to give.
    Chat(String),
    /// Work in the browser, with the task in a form that stands on its own.
    BrowserTask(String),
}

impl Clone for Intent {
    fn clone(&self) -> (r: Self)
        ensures
            r == *self,
    {
        match self {
            Intent::Chat(reply) => Intent::Chat(reply.clone()),
            Intent::BrowserTask(task) => Intent::BrowserTask(task.clone()),
        }
    }
}

} // verus!
