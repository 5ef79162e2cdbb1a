//! Domain entity: a conversation, a named collection of messages.
use crate::clock::seconds_since_epoch;
use crate::domain::models::message::time_error;
use crate::domain::models::message::Message;
use crate::text::decimal;
use crate::text::decimal_text;
use crate::text::is_blank;
use crate::text::is_blank_text;
use vstd::prelude::*;
use vstd::string::StringExecFns;

verus! {

/// A named conversation and the messages added to it, in the order they were
/// added.
#[derive(Debug)]
pub struct Conversation {
    pub id: String,
    pub name: String,
    pub messages: Vec<Message>,
}

impl Clone for Conversation {
    fn clone(&self) -> (r: Self)
        ensures
            r.id == self.id,
            r.name == self.name,
            r.messages@ == self.messages@,
    {
        let messages = self.messages.clone();
        assert(messages@ =~= self.messages@);
        Conversation { id: self.id.clone(), name: self.name.clone(), messages }
    }
}

/// The id of a conversation created at `secs` seconds since the epoch:
/// `conv-<secs>`.
pub open spec fn conversation_id_at(secs: u64) -> Seq<char> {
    "conv-"@ + decimal(secs as nat)
}

/// `m` inserted into `s` after every message that is not later than `m`
/// (and before the later ones at the end of `s`).
pub open spec fn insert_by_time(s: Seq<Message>, m: Message) -> Seq<Message>
    decreases s.len(),
{
    if s.len() == 0 {
        seq![m]
    } else if s.last().timestamp <= m.timestamp {
        s.push(m)
    } else {
        insert_by_time(s.drop_last(), m).push(s.last())
    }
}

/// The messages of `s` in the order of their timestamps; messages with the
/// same timestamp keep their order (a stable sort by timestamp).
pub open spec fn sort_by_time(s: Seq<Message>) -> Seq<Message>
    decreases s.len(),
{
    if s.len() == 0 {
        s
    } else {
        insert_by_time(sort_by_time(s.drop_last()), s.last())
    }
}

/// The `count` latest messages of a time-ordered sequence, latest first (all
/// of them when there are fewer).
pub open spec fn latest_first(sorted: Seq<Message>, count: nat) -> Seq<Message> {
    let r = sorted.reverse();
    if count < r.len() {
        r.take(count as int)
    } else {
        r
    }
}

/// Messages ordered by timestamp, earliest first.
pub open spec fn time_ordered(s: Seq<Message>) -> bool {
    forall|i: int, j: int| 0 <= i <= j < s.len() ==> s[i].timestamp <= s[j].timestamp
}

/// Inserting `m` where `insert_by_time` puts it: after the first `j`
/// messages, when those after are later than `m` and the one before is not.
proof fn lemma_insert_at(s: Seq<Message>, m: Message, j: int)
    requires
        0 <= j <= s.len(),
        forall|k: int| j <= k < s.len() ==> s[k].timestamp > m.timestamp,
        j == 0 || s[j - 1].timestamp <= m.timestamp,
    ensures
        insert_by_time(s, m) == s.take(j).push(m) + s.skip(j),
    decreases s.len(),
{
    if s.len() == 0 {
        assert(s.take(j).push(m) + s.skip(j) =~= seq![m]);
    } else if j == s.len() {
        assert(s.take(j) =~= s);
        assert(s.take(j).push(m) + s.skip(j) =~= s.push(m));
    } else {
        let t = s.drop_last();
        assert(s.last() == s[s.len() - 1]);
        if j > 0 {
            assert(t[j - 1] == s[j - 1]);
        }
        lemma_insert_at(t, m, j);
        assert(t.take(j) =~= s.take(j));
        assert((t.take(j).push(m) + t.skip(j)).push(s.last()) =~= s.take(j).push(m) + s.skip(j));
    }
}

/// Messages stamped at time `t`.
pub open spec fn stamped_at(t: u64) -> spec_fn(Message) -> bool {
    |x: Message| x.timestamp == t
}

proof fn lemma_insert_bounded(s: Seq<Message>, m: Message, b: u64)
    requires
        forall|i: int| 0 <= i < s.len() ==> s[i].timestamp <= b,
        m.timestamp <= b,
    ensures
        forall|i: int|
            0 <= i < insert_by_time(s, m).len() ==> #[trigger] insert_by_time(s, m)[i].timestamp
                <= b,
        insert_by_time(s, m).len() == s.len() + 1,
    decreases s.len(),
{
    if s.len() > 0 && s.last().timestamp > m.timestamp {
        let t = s.drop_last();
        assert forall|i: int| 0 <= i < t.len() implies t[i].timestamp <= b by {
            assert(t[i] == s[i]);
        }
        lemma_insert_bounded(t, m, b);
    }
}

proof fn lemma_insert_ordered(s: Seq<Message>, m: Message)
    requires
        time_ordered(s),
    ensures
        time_ordered(insert_by_time(s, m)),
    decreases s.len(),
{
    if s.len() > 0 {
        let t = s.drop_last();
        let last = s.last();
        assert(last == s[s.len() - 1]);
        assert forall|i: int| 0 <= i < t.len() implies t[i].timestamp <= last.timestamp by {
            assert(t[i] == s[i]);
        }
        if last.timestamp <= m.timestamp {
            assert(insert_by_time(s, m) == s.push(m));
        } else {
            assert(time_ordered(t)) by {
                assert forall|i: int, j: int| 0 <= i <= j < t.len() implies t[i].timestamp
                    <= t[j].timestamp by {
                    assert(t[i] == s[i] && t[j] == s[j]);
                }
            }
            lemma_insert_ordered(t, m);
            lemma_insert_bounded(t, m, last.timestamp);
            let u = insert_by_time(t, m);
            assert(insert_by_time(s, m) == u.push(last));
            assert forall|i: int, j: int|
                0 <= i <= j < u.push(last).len() implies u.push(last)[i].timestamp <= u.push(
                last,
            )[j].timestamp by {
                if j == u.len() {
                    if i < u.len() {
                        assert(u[i].timestamp <= last.timestamp);
                    }
                }
            }
        }
    }
}

proof fn lemma_insert_multiset(s: Seq<Message>, m: Message)
    ensures
        insert_by_time(s, m).to_multiset() =~= s.to_multiset().insert(m),
    decreases s.len(),
{
    broadcast use vstd::seq_lib::group_to_multiset_ensures;

    if s.len() > 0 && s.last().timestamp > m.timestamp {
        let t = s.drop_last();
        lemma_insert_multiset(t, m);
        assert(s =~= t.push(s.last()));
    }
}

proof fn lemma_insert_filter(s: Seq<Message>, m: Message, t: u64)
    ensures
        insert_by_time(s, m).filter(stamped_at(t)) == (if m.timestamp == t {
            s.filter(stamped_at(t)).push(m)
        } else {
            s.filter(stamped_at(t))
        }),
    decreases s.len(),
{
    broadcast use Seq::lemma_filter_push;

    if s.len() == 0 {
        assert(seq![m] =~= s.push(m));
    } else if s.last().timestamp <= m.timestamp {
    } else {
        let u = s.drop_last();
        lemma_insert_filter(u, m, t);
        assert(s =~= u.push(s.last()));
    }
}

/// Law: the messages as `get_messages` returns them are ordered by
/// timestamp, earliest first.
pub proof fn law_sorted_messages_in_time_order(s: Seq<Message>)
    ensures
        time_ordered(sort_by_time(s)),
    decreases s.len(),
{
    if s.len() > 0 {
        law_sorted_messages_in_time_order(s.drop_last());
        lemma_insert_ordered(sort_by_time(s.drop_last()), s.last());
    }
}

/// Law: sorting by time neither loses nor adds a message: the sorted
/// sequence holds the same messages, each as many times.
pub proof fn law_sorting_keeps_messages(s: Seq<Message>)
    ensures
        sort_by_time(s).to_multiset() =~= s.to_multiset(),
    decreases s.len(),
{
    broadcast use vstd::seq_lib::group_to_multiset_ensures;

    if s.len() > 0 {
        law_sorting_keeps_messages(s.drop_last());
        lemma_insert_multiset(sort_by_time(s.drop_last()), s.last());
        assert(s =~= s.drop_last().push(s.last()));
    }
}

/// Law: the sort is stable: the messages stamped at any one time come out
/// in the order in which they were added.
pub proof fn law_sorting_is_stable(s: Seq<Message>, t: u64)
    ensures
        sort_by_time(s).filter(stamped_at(t)) == s.filter(stamped_at(t)),
    decreases s.len(),
{
    broadcast use Seq::lemma_filter_push;

    if s.len() > 0 {
        law_sorting_is_stable(s.drop_last(), t);
        lemma_insert_filter(sort_by_time(s.drop_last()), s.last(), t);
        assert(s =~= s.drop_last().push(s.last()));
    }
}

/// Law: messages already in time order are returned as they are.
pub proof fn law_ordered_messages_unchanged(s: Seq<Message>)
    requires
        time_ordered(s),
    ensures
        sort_by_time(s) == s,
    decreases s.len(),
{
    if s.len() > 0 {
        let t = s.drop_last();
        assert(time_ordered(t)) by {
            assert forall|i: int, j: int| 0 <= i <= j < t.len() implies t[i].timestamp
                <= t[j].timestamp by {
                assert(t[i] == s[i] && t[j] == s[j]);
            }
        }
        law_ordered_messages_unchanged(t);
        if t.len() > 0 {
            assert(t.last() == s[s.len() - 2]);
            assert(s.last() == s[s.len() - 1]);
        }
        assert(s =~= t.push(s.last()));
    }
}

/// Law: `get_last_messages(count)` returns `min(count, n)` messages, latest
/// first: each is not earlier than the next, and the first is not earlier
/// than any message of the conversation.
pub proof fn law_latest_messages_first(s: Seq<Message>, count: nat)
    ensures
        latest_first(sort_by_time(s), count).len() == if count < s.len() {
            count
        } else {
            s.len()
        },
        forall|i: int, j: int|
            0 <= i <= j < latest_first(sort_by_time(s), count).len() ==> latest_first(
                sort_by_time(s),
                count,
            )[i].timestamp >= latest_first(sort_by_time(s), count)[j].timestamp,
        latest_first(sort_by_time(s), count).len() > 0 ==> forall|k: int|
            0 <= k < s.len() ==> s[k].timestamp <= latest_first(sort_by_time(s), count)[0].timestamp,
{
    broadcast use vstd::seq_lib::group_to_multiset_ensures;

    let o = sort_by_time(s);
    law_sorted_messages_in_time_order(s);
    law_sorting_keeps_messages(s);
    assert(o.len() == s.len()) by {
        assert(o.to_multiset().len() == s.to_multiset().len());
    }
    let r = latest_first(o, count);
    assert forall|i: int, j: int| 0 <= i <= j < r.len() implies r[i].timestamp
        >= r[j].timestamp by {
        assert(r[i] == o[o.len() - 1 - i]);
        assert(r[j] == o[o.len() - 1 - j]);
    }
    if r.len() > 0 {
        assert forall|k: int| 0 <= k < s.len() implies s[k].timestamp <= r[0].timestamp by {
            assert(s.to_multiset().count(s[k]) > 0);
            assert(o.contains(s[k]));
            let q = choose|q: int| 0 <= q < o.len() && o[q] == s[k];
            assert(r[0] == o[o.len() - 1]);
        }
    }
}

/// Law: `get_last_messages(count)` returns messages of the conversation only,
/// each at most as many times as it was added; when `count` is not below the
/// number of messages, it returns every message, each as many times as it was
/// added.
pub proof fn law_last_messages_come_from_the_conversation(s: Seq<Message>, count: nat)
    ensures
        forall|m: Message|
            #[trigger] latest_first(sort_by_time(s), count).to_multiset().count(m)
                <= s.to_multiset().count(m),
        count >= s.len() ==> latest_first(sort_by_time(s), count).to_multiset() =~= s.to_multiset(),
{
    broadcast use vstd::seq_lib::group_to_multiset_ensures;
    broadcast use vstd::multiset::group_multiset_axioms;

    let o = sort_by_time(s);
    law_sorting_keeps_messages(s);
    o.lemma_reverse_to_multiset();
    let r = o.reverse();
    assert(o.len() == s.len()) by {
        assert(o.to_multiset().len() == s.to_multiset().len());
    }
    if count < r.len() {
        let k = count as int;
        assert(r =~= r.take(k) + r.skip(k));
        vstd::seq_lib::lemma_multiset_commutative(r.take(k), r.skip(k));
        assert forall|m: Message|
            #[trigger] latest_first(o, count).to_multiset().count(m) <= s.to_multiset().count(m) by {
            assert(latest_first(o, count) == r.take(k));
            assert(r.to_multiset().count(m) == r.take(k).to_multiset().count(m) + r.skip(
                k,
            ).to_multiset().count(m));
        }
    } else {
        assert(latest_first(o, count) == r);
    }
}

/// Law: a message added when no message of the conversation is later than
/// it comes last in `get_messages`, after the others in their order.
pub proof fn law_latest_added_message_comes_last(s: Seq<Message>, m: Message)
    requires
        forall|i: int| 0 <= i < s.len() ==> s[i].timestamp <= m.timestamp,
    ensures
        sort_by_time(s.push(m)) == sort_by_time(s).push(m),
{
    broadcast use vstd::seq_lib::group_to_multiset_ensures;

    let t = s.push(m);
    assert(t.drop_last() =~= s);
    assert(t.last() == m);
    let o = sort_by_time(s);
    if o.len() > 0 {
        law_sorting_keeps_messages(s);
        assert(o.contains(o.last()));
        assert(s.to_multiset().count(o.last()) > 0);
        assert(s.contains(o.last()));
        let k = choose|k: int| 0 <= k < s.len() && s[k] == o.last();
        assert(o.last().timestamp <= m.timestamp);
    }
}

impl Conversation {
    /// Creates an empty conversation with id `conv-<seconds since the
    /// epoch>`. A blank name is refused; a clock that reads before the epoch
    /// gives `Time error: ...`.
    pub fn new(name: String) -> (r: Result<Self, String>)
        ensures
            is_blank(name@) ==> (r matches Err(e) && e@ == "Conversation name cannot be empty"@),
            r matches Ok(c) ==> {
                &&& !is_blank(name@)
                &&& c.name == name
                &&& c.messages@.len() == 0
                &&& exists|secs: u64| c.id@ == conversation_id_at(secs)
            },
            r matches Err(e) ==> is_blank(name@) || exists|t: Seq<char>| e@ == time_error(t),
    {
        if is_blank_text(name.as_str()) {
            return Err(String::from_str("Conversation name cannot be empty"));
        }
        match seconds_since_epoch() {
            Ok(secs) => Conversation::created_at(name, secs),
            Err(e) => {
                let f = String::from_str("Time error: ").concat(e.as_str());
                assert(f@ == time_error(e@));
                Err(f)
            },
        }
    }

    /// Creates the conversation that `new` creates when the clock reads
    /// `secs` seconds since the epoch.
    pub fn created_at(name: String, secs: u64) -> (r: Result<Self, String>)
        ensures
            is_blank(name@) ==> (r matches Err(e) && e@ == "Conversation name cannot be empty"@),
            !is_blank(name@) ==> (r matches Ok(c) && c.name == name && c.messages@.len() == 0
                && c.id@ == conversation_id_at(secs)),
    {
        if is_blank_text(name.as_str()) {
            return Err(String::from_str("Conversation name cannot be empty"));
        }
        let id = String::from_str("conv-").concat(decimal_text(secs).as_str());
        Ok(Conversation { id, name, messages: Vec::new() })
    }

    /// Adds a message at the end of the conversation.
    pub fn add_message(&mut self, message: Message)
        ensures
            final(self).messages@ == old(self).messages@.push(message),
            final(self).id == old(self).id,
            final(self).name == old(self).name,
    {
        self.messages.push(message);
    }

    /// All messages, ordered by timestamp (a stable sort: messages with the
    /// same timestamp stay in the order they were added).
    pub fn get_messages(&self) -> (r: Vec<Message>)
        ensures
            r@ == sort_by_time(self.messages@),
    {
        let msgs = &self.messages;
        let mut out: Vec<Message> = Vec::new();
        let mut i: usize = 0;
        while i < msgs.len()
            invariant
                i <= msgs.len(),
                out@ == sort_by_time(msgs@.take(i as int)),
            decreases msgs.len() - i,
        {
            let m = msgs[i].clone();
            let mut j = out.len();
            while j > 0 && out[j - 1].timestamp > m.timestamp
                invariant
                    j <= out.len(),
                    forall|k: int| j <= k < out.len() ==> out@[k].timestamp > m.timestamp,
                decreases j,
            {
                j = j - 1;
            }
            proof {
                lemma_insert_at(out@, m, j as int);
                let p = msgs@.take(i + 1);
                assert(p.drop_last() =~= msgs@.take(i as int));
                assert(p.last() == m);
            }
            out.insert(j, m);
            assert(out@ =~= sort_by_time(msgs@.take(i + 1)));
            i = i + 1;
        }
        assert(msgs@.take(msgs.len() as int) =~= msgs@);
        out
    }

    /// The `count` latest messages, latest first (all of them when the
    /// conversation holds fewer).
    pub fn get_last_messages(&self, count: usize) -> (r: Vec<Message>)
        ensures
            r@ == latest_first(sort_by_time(self.messages@), count as nat),
    {
        let sorted = self.get_messages();
        let n = if count < sorted.len() {
            count
        } else {
            sorted.len()
        };
        let mut out: Vec<Message> = Vec::new();
        let mut i: usize = 0;
        while i < n
            invariant
                i <= n <= sorted.len(),
                out@ == sorted@.reverse().take(i as int),
            decreases n - i,
        {
            let m = sorted[sorted.len() - 1 - i].clone();
            assert(sorted@.reverse().take(i + 1) =~= out@.push(m));
            out.push(m);
            i = i + 1;
        }
        assert(sorted@.reverse().take(sorted.len() as int) =~= sorted@.reverse());
        out
    }
}

} // verus!
