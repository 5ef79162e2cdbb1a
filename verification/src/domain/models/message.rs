//! Domain entity: a message of a conversation.
use crate::clock::seconds_since_epoch;
use crate::text::decimal;
use crate::text::decimal_text;
use crate::text::is_blank;
use crate::text::is_blank_text;
use vstd::prelude::*;
use vstd::string::StringExecFns;

verus! {

/// A chat message: who sent it, what it says, and when (seconds since the
/// Unix epoch). Its `id` is chosen by its creator.
#[derive(Debug, PartialEq, Eq)]
pub struct Message {
    pub id: String,
    pub sender: String,
    pub content: String,
    pub timestamp: u64,
}

impl Clone for Message {
    fn clone(&self) -> (r: Self)
        ensures
            r == *self,
    {
        Message {
            id: self.id.clone(),
            sender: self.sender.clone(),
            content: self.content.clone(),
            timestamp: self.timestamp,
        }
    }
}

/// Why a sender and a content cannot make a message, if they cannot: a blank
/// sender is reported before a blank content.
pub open spec fn message_rejection(sender: Seq<char>, content: Seq<char>) -> Option<Seq<char>> {
    if is_blank(sender) {
        Some("Sender cannot be empty"@)
    } else if is_blank(content) {
        Some("Content cannot be empty"@)
    } else {
        None
    }
}

/// The id that a message gets when it is created at `timestamp`:
/// `<sender>-<timestamp>`.
pub open spec fn stamped_id(sender: Seq<char>, timestamp: u64) -> Seq<char> {
    sender + "-"@ + decimal(timestamp as nat)
}

/// The text of a clock failure as a message creation reports it.
pub open spec fn time_error(clock_error: Seq<char>) -> Seq<char> {
    "Time error: "@ + clock_error
}

/// Why `sender` and `content` cannot make a message, if they cannot.
pub fn rejection(sender: &str, content: &str) -> (r: Option<String>)
    ensures
        r is Some <==> message_rejection(sender@, content@) is Some,
        r matches Some(e) ==> message_rejection(sender@, content@) == Some(e@),
{
    if is_blank_text(sender) {
        Some(String::from_str("Sender cannot be empty"))
    } else if is_blank_text(content) {
        Some(String::from_str("Content cannot be empty"))
    } else {
        None
    }
}

impl Message {
    /// Creates a message stamped with the current time; its id is
    /// `<sender>-<seconds since the epoch>`.
    ///
    /// A blank sender or content is refused; a clock that reads before the
    /// epoch gives `Time error: ...`.
    pub fn new(sender: String, content: String) -> (r: Result<Self, String>)
        ensures
            message_rejection(sender@, content@) matches Some(e) ==> (r matches Err(f) && f@ == e),
            r matches Ok(m) ==> {
                &&& message_rejection(sender@, content@) is None
                &&& m.sender == sender
                &&& m.content == content
                &&& m.id@ == stamped_id(sender@, m.timestamp)
            },
            r matches Err(f) ==> (message_rejection(sender@, content@) matches Some(e) && f@ == e)
                || exists|c: Seq<char>| f@ == time_error(c),
    {
        if is_blank_text(sender.as_str()) {
            return Err(String::from_str("Sender cannot be empty"));
        }
        if is_blank_text(content.as_str()) {
            return Err(String::from_str("Content cannot be empty"));
        }
        match seconds_since_epoch() {
            Ok(timestamp) => Message::with_timestamp(sender, content, timestamp),
            Err(e) => {
                let f = String::from_str("Time error: ").concat(e.as_str());
                assert(f@ == time_error(e@));
                Err(f)
            },
        }
    }

    /// Creates the message that `new` creates when the clock reads
    /// `timestamp` seconds since the epoch.
    pub fn with_timestamp(sender: String, content: String, timestamp: u64) -> (r: Result<
        Self,
        String,
    >)
        ensures
            message_rejection(sender@, content@) matches Some(e) ==> (r matches Err(f) && f@ == e),
            message_rejection(sender@, content@) is None ==> (r matches Ok(m) && m.sender == sender
                && m.content == content && m.timestamp == timestamp && m.id@ == stamped_id(
                sender@,
                timestamp,
            )),
    {
        let id = sender.clone().concat("-").concat(decimal_text(timestamp).as_str());
        Message::with_id_timestamp(sender, content, id, timestamp)
    }

    /// Creates a message with the given id and timestamp. A blank sender or
    /// content is refused.
    pub fn with_id_timestamp(sender: String, content: String, id: String, timestamp: u64) -> (r:
        Result<Self, String>)
        ensures
            message_rejection(sender@, content@) matches Some(e) ==> (r matches Err(f) && f@ == e),
            message_rejection(sender@, content@) is None ==> r == Ok::<Message, String>(
                Message { id, sender, content, timestamp },
            ),
    {
        if is_blank_text(sender.as_str()) {
            return Err(String::from_str("Sender cannot be empty"));
        }
        if is_blank_text(content.as_str()) {
            return Err(String::from_str("Content cannot be empty"));
        }
        Ok(Message { id, sender, content, timestamp })
    }
}

} // verus!
