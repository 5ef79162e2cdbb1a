//! Input adapter: the chat server's console.
//!
//! Reading lines and printing are done by the application around this
//! library; how a line is understood and what the status reports are
//! decided here.
use crate::domain::models::message::Message;
use crate::text::text_eq;
use crate::text::trim;
use crate::text::trim_text;
use vstd::prelude::*;

verus! {

/// A line typed at the server prompt, trimmed.
#[derive(Debug, Clone, Copy, PartialEq, Eq, Structural)]
pub enum ServerCommand {
    /// `/status`: show how many messages and users there are.
    Status,
    /// `/exit`: shut down.
    Exit,
    /// Anything else that is not blank.
    Unknown,
    /// A blank line.
    Empty,
}

/// The state of the chat as `/status` reports it.
#[derive(Debug)]
pub struct ServerStatus {
    /// Number of messages.
    pub total: usize,
    /// The senders of the messages, each once, in the order they first
    /// wrote.
    pub users: Vec<String>,
}

/// `name` sent one of `messages`.
pub open spec fn has_sender(messages: Seq<Message>, name: Seq<char>) -> bool {
    exists|i: int| 0 <= i < messages.len() && (#[trigger] messages[i]).sender@ == name
}

/// `name` is among `users`.
pub open spec fn is_listed(users: Seq<String>, name: Seq<char>) -> bool {
    exists|i: int| 0 <= i < users.len() && (#[trigger] users[i])@ == name
}

/// `users` names each sender of `messages` exactly once, and nobody else.
pub open spec fn lists_each_sender_once(users: Seq<String>, messages: Seq<Message>) -> bool {
    &&& forall|i: int, j: int| 0 <= i < j < users.len() ==> users[i]@ != users[j]@
    &&& forall|i: int| 0 <= i < users.len() ==> has_sender(messages, #[trigger] users[i]@)
    &&& forall|k: int| 0 <= k < messages.len() ==> is_listed(users, (#[trigger] messages[k]).sender@)
}

/// One of the first `k` messages was written by `name`.
pub open spec fn wrote_before(messages: Seq<Message>, name: Seq<char>, k: int) -> bool {
    exists|w: int| 0 <= w < k && (#[trigger] messages[w]).sender@ == name
}

/// `users` are in the order in which they first wrote: every message of a
/// later user comes after some message of each earlier one.
pub open spec fn in_first_writer_order(users: Seq<String>, messages: Seq<Message>) -> bool {
    forall|i: int, j: int, q: int|
        0 <= i < j < users.len() && 0 <= q < messages.len() && (#[trigger] messages[q]).sender@
            == (#[trigger] users[j])@ ==> wrote_before(messages, (#[trigger] users[i])@, q)
}

/// Server console.
pub struct ServerCliAdapter;

impl ServerCliAdapter {
    /// How the server understands a line typed at its prompt.
    pub fn parse_command(line: &str) -> (r: ServerCommand)
        ensures
            r == ({
                let t = trim(line@);
                if t == "/status"@ {
                    ServerCommand::Status
                } else if t == "/exit"@ {
                    ServerCommand::Exit
                } else if t.len() > 0 {
                    ServerCommand::Unknown
                } else {
                    ServerCommand::Empty
                }
            }),
    {
        let input = trim_text(line);
        if text_eq(input.as_str(), "/status") {
            ServerCommand::Status
        } else if text_eq(input.as_str(), "/exit") {
            ServerCommand::Exit
        } else if input.as_str().unicode_len() > 0 {
            ServerCommand::Unknown
        } else {
            ServerCommand::Empty
        }
    }

    /// The status of a chat holding `messages`: how many there are, and who
    /// wrote them.
    pub fn status(messages: &Vec<Message>) -> (r: ServerStatus)
        ensures
            r.total == messages.len(),
            lists_each_sender_once(r.users@, messages@),
            in_first_writer_order(r.users@, messages@),
            messages.len() > 0 ==> r.users.len() > 0,
    {
        let mut users: Vec<String> = Vec::new();
        let mut k: usize = 0;
        while k < messages.len()
            invariant
                k <= messages.len(),
                lists_each_sender_once(users@, messages@.take(k as int)),
                in_first_writer_order(users@, messages@.take(k as int)),
            decreases messages.len() - k,
        {
            let name = &messages[k].sender;
            let mut seen = false;
            let mut i: usize = 0;
            while i < users.len()
                invariant
                    i <= users.len(),
                    k < messages.len(),
                    *name == messages@[k as int].sender,
                    lists_each_sender_once(users@, messages@.take(k as int)),
                    in_first_writer_order(users@, messages@.take(k as int)),
                    seen <==> exists|j: int| 0 <= j < i && users@[j]@ == name@,
                decreases users.len() - i,
            {
                if text_eq(users[i].as_str(), name.as_str()) {
                    seen = true;
                }
                i = i + 1;
            }
            let ghost before = messages@.take(k as int);
            let ghost old_users = users@;
            let ghost after = messages@.take(k + 1);
            assert(after =~= before.push(messages@[k as int]));
            if !seen {
                users.push(name.clone());
            }
            proof {
                assert forall|a: int, b: int| 0 <= a < b < users@.len() implies users@[a]@
                    != users@[b]@ by {
                    if b < old_users.len() {
                        assert(users@[a] == old_users[a] && users@[b] == old_users[b]);
                    } else {
                        assert(users@[a] == old_users[a]);
                        assert(users@[b]@ == name@);
                        if old_users[a]@ == name@ {
                            assert(exists|j: int| 0 <= j < old_users.len() && old_users[j]@ == name@);
                        }
                    }
                }
                assert forall|u: int| 0 <= u < users@.len() implies has_sender(
                    after,
                    #[trigger] users@[u]@,
                ) by {
                    if u < users@.len() - 1 || seen {
                        let w = choose|w: int|
                            0 <= w < before.len() && (#[trigger] before[w]).sender@ == users@[u]@;
                        assert(after[w] == before[w]);
                    } else {
                        assert(after[k as int].sender@ == users@[u]@);
                    }
                }
                assert forall|q: int| 0 <= q < after.len() implies is_listed(
                    users@,
                    (#[trigger] after[q]).sender@,
                ) by {
                    if q < k {
                        assert(after[q] == before[q]);
                        assert(is_listed(old_users, before[q].sender@));
                        let i = choose|i: int|
                            0 <= i < old_users.len() && (#[trigger] old_users[i])@ == before[q].sender@;
                        assert(users@[i] == old_users[i]);
                    } else if !seen {
                        assert(users@[users@.len() - 1]@ == after[q].sender@);
                    } else {
                        assert(exists|j: int| 0 <= j < old_users.len() && old_users[j]@ == name@);
                        let j = choose|j: int| 0 <= j < old_users.len() && old_users[j]@ == name@;
                        assert(users@[j] == old_users[j]);
                        assert(after[q] == messages@[k as int]);
                    }
                }
            }
            proof {
                assert forall|i: int, j: int, q: int|
                    0 <= i < j < users@.len() && 0 <= q < after.len() && (
                    #[trigger] after[q]).sender@ == (#[trigger] users@[j])@ implies wrote_before(
                    after,
                    (#[trigger] users@[i])@,
                    q,
                ) by {
                    assert(users@[i] == old_users[i]);
                    assert(has_sender(before, old_users[i]@));
                    let w = choose|w: int|
                        0 <= w < before.len() && (#[trigger] before[w]).sender@ == old_users[i]@;
                    assert(after[w] == before[w]);
                    if q < k {
                        assert(after[q] == before[q]);
                        if j < old_users.len() {
                            assert(users@[j] == old_users[j]);
                            assert(wrote_before(before, old_users[i]@, q));
                            let w2 = choose|w2: int|
                                0 <= w2 < q && (#[trigger] before[w2]).sender@ == old_users[i]@;
                            assert(after[w2] == before[w2]);
                        } else {
                            // a new user has no earlier message
                            assert(is_listed(old_users, before[q].sender@));
                            let t = choose|t: int|
                                0 <= t < old_users.len() && (#[trigger] old_users[t])@
                                    == before[q].sender@;
                            assert(old_users[t]@ == name@);
                            assert(false);
                        }
                    }
                }
            }
            k = k + 1;
        }
        assert(messages@.take(messages.len() as int) =~= messages@);
        proof {
            if messages.len() > 0 {
                assert(messages@[0].sender@ == messages@[0].sender@);
            }
        }
        ServerStatus { total: messages.len(), users }
    }
}

} // verus!
