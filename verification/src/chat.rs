//! Messages that the user sends while a task runs.

use vstd::prelude::*;
use crate::clock;
use crate::text;

verus! {

/// How many messages may wait for the agent.
pub const BUS_CAPACITY: usize = 32;

/// One message with the second at which it was sent.
#[derive(Debug, PartialEq, Eq)]
pub struct UserMessage {
    pub text: String,
    pub timestamp_secs: u64,
}

impl Clone for UserMessage {
    fn clone(&self) -> (r: Self)
        ensures
            r == *self,
    {
        UserMessage { text: self.text.clone(), timestamp_secs: self.timestamp_secs }
    }
}

impl UserMessage {
    /// A message of the present second.
    pub fn now(text: &str) -> (r: Self)
        ensures
            r.text@ == text@,
    {
        UserMessage { text: text::owned(text), timestamp_secs: clock::now_secs() }
    }
}

} // verus!
