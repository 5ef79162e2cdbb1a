//! Domain service: sending and fetching messages through a storage.
use crate::domain::models::message::message_rejection;
use crate::domain::models::message::stamped_id;
use crate::domain::models::message::time_error;
use crate::domain::models::message::Message;
use crate::domain::models::message::rejection;
use crate::clock::seconds_since_epoch;
use crate::domain::ports::message_storage_port::MessageStoragePort;
use vstd::prelude::*;
use vstd::string::StringExecFns;

verus! {

/// Sends and fetches chat messages.
pub struct ChatService;

impl ChatService {
    /// Creates the message from `sender` and `content` stamped at
    /// `timestamp` and saves it in `storage`.
    ///
    /// A blank sender or content is refused with its reason before anything
    /// is saved. Otherwise the message stamped at `timestamp` is handed to
    /// `save_message`, and the result is that message exactly when the
    /// storage saved it, else the storage's own error.
    pub fn send_message_at<S: MessageStoragePort + ?Sized>(
        storage: &S,
        sender: &str,
        content: &str,
        timestamp: u64,
    ) -> (r: Result<Message, String>)
        ensures
            message_rejection(sender@, content@) matches Some(e) ==> (r matches Err(f) && f@ == e),
            r matches Ok(m) ==> {
                &&& message_rejection(sender@, content@) is None
                &&& m.sender@ == sender@
                &&& m.content@ == content@
                &&& m.timestamp == timestamp
                &&& m.id@ == stamped_id(sender@, timestamp)
                &&& call_ensures(S::save_message, (storage, &m), Ok(()))
            },
            message_rejection(sender@, content@) is None ==> (r matches Err(f) ==> exists|m: Message|
                m.sender@ == sender@ && m.content@ == content@ && m.timestamp == timestamp && m.id@
                    == stamped_id(sender@, timestamp) && call_ensures(
                    S::save_message,
                    (storage, &m),
                    Err(f),
                )),
    {
        let message = Message::with_timestamp(
            String::from_str(sender),
            String::from_str(content),
            timestamp,
        )?;
        let saved = storage.save_message(&message);
        match saved {
            Ok(u) => {
                assert(saved->Ok_0 == ());
                assert(saved == Ok::<(), String>(()));
                Ok(message)
            },
            Err(e) => Err(e),
        }
    }

    /// Creates a message from `sender` and `content` (stamped with the current
    /// time) and saves it in `storage`; returns the saved message.
    ///
    /// A blank sender or content is refused with its reason before anything
    /// is read or saved; then a clock that reads before the epoch gives `Time
    /// error: ...`; else this is `send_message_at` with the clock's reading.
    pub fn send_message<S: MessageStoragePort + ?Sized>(
        storage: &S,
        sender: &str,
        content: &str,
    ) -> (r: Result<Message, String>)
        ensures
            message_rejection(sender@, content@) matches Some(e) ==> (r matches Err(f) && f@ == e),
            r matches Ok(m) ==> {
                &&& message_rejection(sender@, content@) is None
                &&& m.sender@ == sender@
                &&& m.content@ == content@
                &&& m.id@ == stamped_id(sender@, m.timestamp)
                &&& call_ensures(S::save_message, (storage, &m), Ok(()))
            },
            message_rejection(sender@, content@) is None ==> (r matches Err(f) ==> {
                ||| exists|c: Seq<char>| f@ == time_error(c)
                ||| exists|m: Message|
                    m.sender@ == sender@ && m.content@ == content@ && m.id@ == stamped_id(
                        sender@,
                        m.timestamp,
                    ) && call_ensures(S::save_message, (storage, &m), Err(f))
            }),
    {
        if let Some(e) = rejection(sender, content) {
            return Err(e);
        }
        match seconds_since_epoch() {
            Err(e) => {
                let f = String::from_str("Time error: ").concat(e.as_str());
                assert(f@ == time_error(e@));
                Err(f)
            },
            Ok(timestamp) => Self::send_message_at(storage, sender, content, timestamp),
        }
    }

    /// All messages of the storage, as it answers.
    pub fn fetch_all_messages<S: MessageStoragePort + ?Sized>(storage: &S) -> (r: Result<
        Vec<Message>,
        String,
    >)
        ensures
            call_ensures(S::get_all_messages, (storage,), r),
    {
        storage.get_all_messages()
    }

    /// The last `count` messages of the storage, as it answers.
    pub fn fetch_last_messages<S: MessageStoragePort + ?Sized>(storage: &S, count: usize) -> (r:
        Result<Vec<Message>, String>)
        ensures
            call_ensures(S::get_last_messages, (storage, count), r),
    {
        storage.get_last_messages(count)
    }

    /// The messages of the storage stamped at `timestamp` or later, as it
    /// answers.
    pub fn fetch_messages_since<S: MessageStoragePort + ?Sized>(storage: &S, timestamp: u64) -> (r:
        Result<Vec<Message>, String>)
        ensures
            call_ensures(S::get_messages_since, (storage, timestamp), r),
    {
        storage.get_messages_since(timestamp)
    }
}

} // verus!
