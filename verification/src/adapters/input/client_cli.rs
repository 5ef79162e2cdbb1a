//! Input adapter: the interactive chat client.
//!
//! Reading lines, printing and talking to the storage or the server are done
//! by the application around this library; how a line is understood and what
//! is printed for a result are decided here.
use crate::domain::models::message::Message;
use crate::text::chars_of;
use crate::text::decimal;
use crate::text::decimal_text;
use crate::text::find_char;
use crate::text::first_index_of;
use crate::text::next_word;
use crate::text::parse_usize;
use crate::text::parse_usize_chars;
use crate::text::skip_prefix_repeatedly;
use crate::text::strip_prefix_repeatedly;
use crate::text::text_eq;
use crate::text::text_starts_with;
use crate::text::is_space;
use crate::text::trim;
use crate::text::trim_text;
use crate::text::words;
use crate::text::string_of;
use vstd::prelude::*;
use vstd::string::StringExecFns;

verus! {

/// A line typed at the client prompt, trimmed.
#[derive(Debug)]
pub enum ClientCommand {
    /// `/send ...`: send a message (the trimmed line).
    Send(String),
    /// `/fetch...`: show the last messages (the trimmed line).
    Fetch(String),
    /// `/exit`: leave.
    Exit,
    /// Anything else that is not blank.
    Unknown,
    /// A blank line.
    Empty,
}

/// How many messages `/fetch` shows when it is not told.
pub open spec fn default_fetch_count() -> usize {
    10
}

/// How many messages `/fetch ...` asks for: the second word of the line
/// when it is a number that fits in a `usize`, else 10.
pub open spec fn fetch_count_of(line: Seq<char>) -> usize {
    let w = words(line);
    if w.len() > 1 {
        match parse_usize(w[1]) {
            Some(n) => n,
            None => default_fetch_count(),
        }
    } else {
        default_fetch_count()
    }
}

/// The arguments of `/send <username> <message>`: what follows the leading
/// `/send`s, trimmed, is cut at its first space into the username and the
/// (trimmed) message; none when there is no space.
pub open spec fn send_arguments_of(line: Seq<char>) -> Option<(Seq<char>, Seq<char>)> {
    let args = trim(strip_prefix_repeatedly(line, "/send"@));
    match first_index_of(args, ' ') {
        None => None,
        Some(i) => Some((args.take(i), trim(args.skip(i + 1)))),
    }
}

/// A message without the quotes around it: one pair of `"` or of `'`
/// enclosing it is removed.
pub open spec fn unquoted(part: Seq<char>) -> Seq<char> {
    if part.len() >= 2 && ((part[0] == '"' && part.last() == '"') || (part[0] == '\''
        && part.last() == '\'')) {
        part.subrange(1, part.len() - 1)
    } else {
        part
    }
}

/// A lone quote character: it both opens and closes a quoted message, which
/// cannot be cut out of it.
pub open spec fn is_lone_quote(part: Seq<char>) -> bool {
    part.len() == 1 && (part[0] == '"' || part[0] == '\'')
}

/// The line printed for a message: `[<id>] <sender>: <content>`.
pub open spec fn message_line_view(m: Message) -> Seq<char> {
    "["@ + m.id@ + "] "@ + m.sender@ + ": "@ + m.content@
}

/// The line printed once a message was sent: `Message sent: <sender> [<id>]`.
pub open spec fn sent_line_view(m: Message) -> Seq<char> {
    "Message sent: "@ + m.sender@ + " ["@ + m.id@ + "]"@
}

/// The heading of a non-empty list of fetched messages.
pub open spec fn fetch_heading_view(n: nat) -> Seq<char> {
    "\n--- Last "@ + decimal(n) + " messages ---"@
}

/// Law: a message written between a pair of quotes (of either kind) is
/// read back without them, whatever it says.
pub proof fn law_quotes_are_removed(message: Seq<char>, quote: char)
    requires
        quote == '"' || quote == '\'',
    ensures
        unquoted(seq![quote] + message + seq![quote]) == message,
        !is_lone_quote(seq![quote] + message + seq![quote]),
{
    let q = seq![quote] + message + seq![quote];
    assert(q[0] == quote);
    assert(q.last() == quote);
    assert(q.subrange(1, q.len() - 1) =~= message);
}

/// Law: only a pair of quotes is removed: a message that does not begin
/// with a quote character, or does not end with the quote it begins with, is
/// sent as it is; otherwise exactly the two quotes are cut off.
pub proof fn law_only_quotes_are_removed(part: Seq<char>)
    ensures
        !(part.len() > 0 && (part[0] == '"' || part[0] == '\'')) ==> unquoted(part) == part,
        part.len() > 0 && part.last() != part[0] ==> unquoted(part) == part,
        unquoted(part) != part ==> {
            &&& part.len() >= 2
            &&& part[0] == '"' || part[0] == '\''
            &&& part.last() == part[0]
            &&& unquoted(part) == part.subrange(1, part.len() - 1)
        },
{
}

/// Law: `/fetch <n>` asks for `n` messages, whatever the number `n`.
pub proof fn law_fetch_count_is_the_number(n: usize)
    ensures
        fetch_count_of("/fetch "@ + decimal(n as nat)) == n,
{
    reveal_strlit("/fetch ");
    let d = decimal(n as nat);
    let line = "/fetch "@ + d;
    crate::text::lemma_decimal_digits(n as nat);
    crate::text::lemma_parse_decimal(n);
    assert(crate::text::all_digits(d));
    assert forall|i: int| 0 <= i < d.len() implies !is_space(#[trigger] d[i]) by {
        assert(crate::text::is_digit(d[i]));
    }
    assert forall|i: int| 0 <= i < 6 implies !is_space(#[trigger] line[i]) by {
        assert(line[i] == "/fetch "@[i]);
    }
    assert(line[6] == ' ');
    crate::text::lemma_word_len(line, 6);
    assert(line.skip(6) =~= seq![' '] + d);
    assert((seq![' '] + d).drop_first() =~= d);
    crate::text::lemma_word_len(d, d.len() as int);
    assert(d.take(d.len() as int) =~= d);
    assert(d.skip(d.len() as int) =~= Seq::<char>::empty());
    assert(!is_space(d[0]));
    assert(words(d.skip(d.len() as int)) =~= Seq::<Seq<char>>::empty());
    assert(words(d) =~= seq![d]);
    assert(words(line.skip(6)) == words(d));
    assert(words(line) =~= seq![line.take(6), d]);
}

/// Interactive chat client.
pub struct ClientCliAdapter;

impl ClientCliAdapter {
    /// How the client understands a line typed at its prompt.
    pub fn parse_command(line: &str) -> (r: ClientCommand)
        ensures
            ({
                let t = trim(line@);
                if "/send "@.is_prefix_of(t) {
                    r matches ClientCommand::Send(x) && x@ == t
                } else if "/fetch"@.is_prefix_of(t) {
                    r matches ClientCommand::Fetch(x) && x@ == t
                } else if t == "/exit"@ {
                    r is Exit
                } else if t.len() > 0 {
                    r is Unknown
                } else {
                    r is Empty
                }
            }),
    {
        let input = trim_text(line);
        if text_starts_with(input.as_str(), "/send ") {
            ClientCommand::Send(input)
        } else if text_starts_with(input.as_str(), "/fetch") {
            ClientCommand::Fetch(input)
        } else if text_eq(input.as_str(), "/exit") {
            ClientCommand::Exit
        } else if input.as_str().unicode_len() > 0 {
            ClientCommand::Unknown
        } else {
            ClientCommand::Empty
        }
    }

    /// The username and message part of a `/send` line, or the usage text
    /// when the line does not hold both.
    pub fn send_arguments(input: &str) -> (r: Result<(String, String), String>)
        ensures
            send_arguments_of(input@) matches Some((u, m)) ==> (r matches Ok((x, y)) && x@ == u
                && y@ == m),
            send_arguments_of(input@) is None ==> (r matches Err(e) && e@
                == "Usage: /send <username> \"message\""@),
    {
        let v = chars_of(input);
        let key = chars_of("/send");
        let k = skip_prefix_repeatedly(&v, &key);
        let rest = string_of(&v, k, v.len());
        assert(rest@ =~= strip_prefix_repeatedly(input@, "/send"@));
        let args = chars_of(trim_text(rest.as_str()).as_str());
        match find_char(&args, ' ') {
            None => Err(String::from_str("Usage: /send <username> \"message\"")),
            Some(i) => {
                let username = string_of(&args, 0, i);
                let tail = string_of(&args, i + 1, args.len());
                assert(args@.subrange(0, i as int) =~= args@.take(i as int));
                assert(args@.subrange(i + 1, args.len() as int) =~= args@.skip(i + 1));
                Ok((username, trim_text(tail.as_str())))
            },
        }
    }

    /// The message without the quotes around it. A lone quote character is
    /// left out: it cannot be cut (the caller refuses it first).
    pub fn unquote(part: &str) -> (r: String)
        requires
            !is_lone_quote(part@),
        ensures
            r@ == unquoted(part@),
    {
        let v = chars_of(part);
        let n = v.len();
        if n >= 2 && ((v[0] == '"' && v[n - 1] == '"') || (v[0] == '\'' && v[n - 1] == '\'')) {
            string_of(&v, 1, n - 1)
        } else {
            assert(v@.subrange(0, n as int) =~= v@);
            string_of(&v, 0, n)
        }
    }

    /// How many messages a `/fetch` line asks for.
    pub fn fetch_count(input: &str) -> (r: usize)
        ensures
            r == fetch_count_of(input@),
    {
        let v = chars_of(input);
        assert(v@.skip(0) =~= v@);
        match next_word(&v, 0) {
            None => 10,
            Some((_a, b)) => match next_word(&v, b) {
                None => 10,
                Some((c, d)) => {
                    match parse_usize_chars(&v, c, d) {
                        Some(n) => n,
                        None => 10,
                    }
                },
            },
        }
    }

    /// The line printed for a message: `[<id>] <sender>: <content>`.
    pub fn message_line(m: &Message) -> (r: String)
        ensures
            r@ == message_line_view(*m),
    {
        String::from_str("[").concat(m.id.as_str()).concat("] ").concat(m.sender.as_str()).concat(
            ": ",
        ).concat(m.content.as_str())
    }

    /// The line printed once a message was sent.
    pub fn sent_line(m: &Message) -> (r: String)
        ensures
            r@ == sent_line_view(*m),
    {
        String::from_str("Message sent: ").concat(m.sender.as_str()).concat(" [").concat(
            m.id.as_str(),
        ).concat("]")
    }

    /// The lines printed for fetched messages: `No messages found` when there
    /// are none, else a heading with their number, one line per message in
    /// the order given, and a closing rule.
    pub fn fetch_report(messages: &Vec<Message>) -> (r: Vec<String>)
        ensures
            messages.len() == 0 ==> r.len() == 1 && r[0]@ == "No messages found"@,
            messages.len() > 0 ==> {
                &&& r.len() == messages.len() + 2
                &&& r[0]@ == fetch_heading_view(messages.len() as nat)
                &&& forall|i: int|
                    0 <= i < messages.len() ==> #[trigger] r[i + 1]@ == message_line_view(
                        messages[i],
                    )
                &&& r[r.len() - 1]@ == "------------------------\n"@
            },
    {
        let mut out: Vec<String> = Vec::new();
        if messages.len() == 0 {
            out.push(String::from_str("No messages found"));
            return out;
        }
        out.push(
            String::from_str("\n--- Last ").concat(decimal_text(messages.len() as u64).as_str()).concat(
                " messages ---",
            ),
        );
        let mut i: usize = 0;
        while i < messages.len()
            invariant
                i <= messages.len(),
                out.len() == i + 1,
                out[0]@ == fetch_heading_view(messages.len() as nat),
                forall|k: int| 0 <= k < i ==> #[trigger] out[k + 1]@ == message_line_view(
                    messages[k],
                ),
            decreases messages.len() - i,
        {
            let line = Self::message_line(&messages[i]);
            out.push(line);
            i = i + 1;
        }
        out.push(String::from_str("------------------------\n"));
        out
    }
}

} // verus!
