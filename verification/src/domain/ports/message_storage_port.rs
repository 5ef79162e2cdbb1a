//! Port: where messages are kept.
use crate::domain::models::message::Message;
use vstd::prelude::*;

verus! {

/// Storage of messages, implemented by adapters (a JSON file, a test double).
///
/// An implementation is expected to keep messages in the order they were
/// saved, to give back from `get_last_messages(n)` the last `n` of them
/// (all of them when there are fewer), and from `get_messages_since(t)` those
/// stamped at `t` or later. What a given implementation does is its own: the
/// methods carry no contract, and the functions that call them state what
/// they return in terms of what the storage answered.
pub trait MessageStoragePort {
    /// Saves a message.
    fn save_message(&self, message: &Message) -> Result<(), String>;

    /// All messages.
    fn get_all_messages(&self) -> Result<Vec<Message>, String>;

    /// Messages stamped at `timestamp` or later.
    fn get_messages_since(&self, timestamp: u64) -> Result<Vec<Message>, String>;

    /// The last `count` messages.
    fn get_last_messages(&self, count: usize) -> Result<Vec<Message>, String>;
}

} // verus!
