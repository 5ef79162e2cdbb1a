//! Output adapter: messages kept in a JSON file.
//!
//! The file holds the whole list of messages. Each operation reads the list,
//! computes, and (to save) writes the list back. Reading and writing the file
//! and the JSON text are I/O done by the application around this library;
//! what each operation computes from the list it read is decided here.
use crate::domain::models::message::Message;
use vstd::prelude::*;
use vstd::string::StringExecFns;

verus! {

/// Storage of messages in a JSON file at `file_path`.
pub struct JsonStorageAdapter {
    file_path: String,
}

/// Messages stamped at `timestamp` or later.
pub open spec fn stamped_since(timestamp: u64) -> spec_fn(Message) -> bool {
    |m: Message| m.timestamp >= timestamp
}

/// The last `count` messages of `s` (all of them when there are fewer), in
/// their order.
pub open spec fn last_n(s: Seq<Message>, count: nat) -> Seq<Message> {
    if count < s.len() {
        s.skip(s.len() - count)
    } else {
        s
    }
}

impl JsonStorageAdapter {
    /// The path of the file.
    pub closed spec fn path_view(&self) -> Seq<char> {
        self.file_path@
    }

    /// A storage in the file at `file_path`.
    pub fn new(file_path: &str) -> (r: Self)
        ensures
            r.path_view() == file_path@,
    {
        JsonStorageAdapter { file_path: String::from_str(file_path) }
    }

    /// The path of the file.
    pub fn file_path(&self) -> (r: &str)
        ensures
            r@ == self.path_view(),
    {
        self.file_path.as_str()
    }

    /// The text that a new storage file starts with: an empty JSON list.
    pub fn empty_document() -> (r: &'static str)
        ensures
            r@ == "[]"@,
    {
        "[]"
    }

    /// The list to write back when `message` is saved into a file that held
    /// `stored`: the message goes last.
    pub fn stored_after_save(stored: Vec<Message>, message: &Message) -> (r: Vec<Message>)
        ensures
            r@ == stored@.push(*message),
    {
        let mut messages = stored;
        messages.push(message.clone());
        messages
    }

    /// The messages of `stored` stamped at `timestamp` or later, in their
    /// order.
    pub fn messages_since(stored: Vec<Message>, timestamp: u64) -> (r: Vec<Message>)
        ensures
            r@ == stored@.filter(stamped_since(timestamp)),
    {
        broadcast use Seq::lemma_filter_push;

        let mut out: Vec<Message> = Vec::new();
        let mut i: usize = 0;
        while i < stored.len()
            invariant
                i <= stored.len(),
                out@ == stored@.take(i as int).filter(stamped_since(timestamp)),
            decreases stored.len() - i,
        {
            let ghost p = stored@.take(i as int);
            assert(stored@.take(i + 1) =~= p.push(stored@[i as int]));
            proof {
                p.lemma_filter_push(stored@[i as int], stamped_since(timestamp));
            }
            if stored[i].timestamp >= timestamp {
                out.push(stored[i].clone());
            }
            i = i + 1;
        }
        assert(stored@.take(stored.len() as int) =~= stored@);
        out
    }

    /// The last `count` messages of `stored` (all of them when there are
    /// fewer), in their order.
    pub fn last_messages(stored: &Vec<Message>, count: usize) -> (r: Vec<Message>)
        ensures
            r@ == last_n(stored@, count as nat),
    {
        let len = stored.len();
        let start = len.saturating_sub(count);
        let mut out: Vec<Message> = Vec::new();
        let mut i = start;
        while i < len
            invariant
                start <= i <= len == stored.len(),
                start == if count < len {
                    len - count
                } else {
                    0
                },
                out@ == stored@.subrange(start as int, i as int),
            decreases len - i,
        {
            assert(stored@.subrange(start as int, i + 1) =~= out@.push(stored@[i as int]));
            out.push(stored[i].clone());
            i = i + 1;
        }
        assert(stored@.subrange(start as int, len as int) =~= last_n(stored@, count as nat));
        out
    }
}

/// Law: what a save writes is read back: after `m` is saved, the list holds
/// what it held before and then `m`; `m` is the last message, and it is
/// among the messages stamped at its own time or later.
pub proof fn law_saved_message_is_read_back(stored: Seq<Message>, m: Message)
    ensures
        stored.push(m).len() == stored.len() + 1,
        stored.push(m).take(stored.len() as int) == stored,
        last_n(stored.push(m), 1) == seq![m],
        stored.push(m).filter(stamped_since(m.timestamp)).last() == m,
{
    broadcast use Seq::lemma_filter_push;

    assert(stored.push(m).take(stored.len() as int) =~= stored);
    assert(last_n(stored.push(m), 1) =~= seq![m]);
}

/// Law: `last_n(s, count)` is the suffix of `s` of length `min(count, |s|)`;
/// asking for at least as many messages as there are gives them all.
pub proof fn law_last_messages_are_a_suffix(s: Seq<Message>, count: nat)
    ensures
        last_n(s, count).len() == if count < s.len() {
            count
        } else {
            s.len()
        },
        last_n(s, count).is_suffix_of(s),
        count >= s.len() ==> last_n(s, count) == s,
{
    assert(last_n(s, count) =~= s.subrange(s.len() - last_n(s, count).len(), s.len() as int));
}

/// Law: the messages since a time are exactly those stamped then or later,
/// in the order they were saved; since time 0 that is every message.
pub proof fn law_messages_since(s: Seq<Message>, t: u64)
    ensures
        forall|i: int|
            0 <= i < s.filter(stamped_since(t)).len() ==> #[trigger] s.filter(
                stamped_since(t),
            )[i].timestamp >= t,
        forall|i: int|
            0 <= i < s.len() && s[i].timestamp >= t ==> s.filter(stamped_since(t)).contains(
                #[trigger] s[i],
            ),
        s.filter(stamped_since(0)) == s,
    decreases s.len(),
{
    broadcast use vstd::seq_lib::group_filter_ensures, Seq::lemma_filter_push;

    assert forall|i: int| 0 <= i < s.len() && s[i].timestamp >= t implies s.filter(
        stamped_since(t),
    ).contains(#[trigger] s[i]) by {
        s.lemma_filter_contains(stamped_since(t), i);
    }
    if s.len() > 0 {
        law_messages_since(s.drop_last(), t);
        assert(s =~= s.drop_last().push(s.last()));
    } else {
        assert(s.filter(stamped_since(0)) =~= s);
    }
}

} // verus!
