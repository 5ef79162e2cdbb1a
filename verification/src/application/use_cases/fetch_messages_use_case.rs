//! Use case: fetch messages.
use crate::domain::models::message::Message;
use crate::domain::ports::message_storage_port::MessageStoragePort;
use crate::domain::services::chat_service::ChatService;
use vstd::prelude::*;

verus! {

/// Fetches messages from a storage.
pub struct FetchMessagesUseCase;

impl FetchMessagesUseCase {
    /// All messages, as the storage answers.
    pub fn execute_all<S: MessageStoragePort + ?Sized>(storage: &S) -> (r: Result<
        Vec<Message>,
        String,
    >)
        ensures
            call_ensures(S::get_all_messages, (storage,), r),
    {
        ChatService::fetch_all_messages(storage)
    }

    /// The last `count` messages, as the storage answers.
    pub fn execute_last<S: MessageStoragePort + ?Sized>(storage: &S, count: usize) -> (r: Result<
        Vec<Message>,
        String,
    >)
        ensures
            call_ensures(S::get_last_messages, (storage, count), r),
    {
        ChatService::fetch_last_messages(storage, count)
    }

    /// The messages stamped at `timestamp` or later, as the storage answers.
    pub fn execute_since<S: MessageStoragePort + ?Sized>(storage: &S, timestamp: u64) -> (r:
        Result<Vec<Message>, String>)
        ensures
            call_ensures(S::get_messages_since, (storage, timestamp), r),
    {
        ChatService::fetch_messages_since(storage, timestamp)
    }
}

} // verus!
