//! Use case: send a message.
use crate::domain::models::message::message_rejection;
use crate::domain::models::message::stamped_id;
use crate::domain::models::message::time_error;
use crate::domain::models::message::Message;
use crate::domain::ports::message_storage_port::MessageStoragePort;
use crate::domain::services::chat_service::ChatService;
use vstd::prelude::*;

verus! {

/// Sends a message.
pub struct SendMessageUseCase;

impl SendMessageUseCase {
    /// Creates and saves a message: the answer is one that
    /// `ChatService::send_message` gives for the same storage, sender and
    /// content (see there).
    pub fn execute<S: MessageStoragePort + ?Sized>(storage: &S, sender: &str, content: &str) -> (r:
        Result<Message, String>)
        ensures
            call_ensures(ChatService::send_message::<S>, (storage, sender, content), r),
            message_rejection(sender@, content@) matches Some(e) ==> (r matches Err(f) && f@ == e),
            r matches Ok(m) ==> {
                &&& message_rejection(sender@, content@) is None
                &&& m.sender@ == sender@
                &&& m.content@ == content@
                &&& m.id@ == stamped_id(sender@, m.timestamp)
                &&& call_ensures(S::save_message, (storage, &m), Ok(()))
            },
            message_rejection(sender@, content@) is None ==> (r matches Err(f) ==> {
                ||| exists|c: Seq<char>| f@ == time_error(c)
                ||| exists|m: Message|
                    m.sender@ == sender@ && m.content@ == content@ && m.id@ == stamped_id(
                        sender@,
                        m.timestamp,
                    ) && call_ensures(S::save_message, (storage, &m), Err(f))
            }),
    {
        ChatService::send_message(storage, sender, content)
    }
}

} // verus!
