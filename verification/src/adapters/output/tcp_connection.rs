//! Output adapter: the HTTP connection between chat client and server.
//!
//! Listening for requests, reading their bodies, writing responses and the
//! client's requests are I/O done by the application around this library.
//! What the server answers to a request, and the addresses the client asks,
//! are decided here.
use crate::domain::models::message::message_rejection;
use crate::domain::models::message::stamped_id;
use crate::domain::models::message::time_error;
use crate::domain::models::message::Message;
use crate::domain::models::message::rejection;
use crate::clock::seconds_since_epoch;
use crate::domain::ports::message_storage_port::MessageStoragePort;
use crate::domain::ports::server_connection_port::ServerConnectionPort;
use crate::text::chars_of;
use crate::text::decimal;
use crate::text::decimal_text;
use crate::text::find_char;
use crate::text::first_index_of;
use crate::text::parse_usize;
use crate::text::parse_usize_chars;
use crate::text::starts_with_at;
use crate::text::text_eq;
use crate::text::text_starts_with;
use vstd::prelude::*;
use vstd::string::StringExecFns;

verus! {

/// Whether serde_json accepts `text` as a JSON document. A function of the
/// text alone.
pub uninterp spec fn json_accepts(text: Seq<char>) -> bool;

/// The text of the string member `key` of the JSON document `text`: none
/// when the document is not an object, has no such member, or the member is
/// not a string. A function of its arguments alone.
pub uninterp spec fn json_string_member(text: Seq<char>, key: Seq<char>) -> Option<Seq<char>>;

/// Trusted: reads the string member `key` of the JSON document `text` with
/// serde_json: `serde_json::from_str::<serde_json::Value>`, then
/// `Value::get(key)` and `Value::as_str` on what it found (the value that
/// `from_str` builds is opaque to Verus, so the three calls stand in one
/// item). The contract says that the outer answer is present exactly on the
/// texts that `json_accepts` names, and that the inner one is what
/// `json_string_member` names; what those are is left to serde_json.
#[verifier::external_body]
fn json_body_member(text: &str, key: &str) -> (r: Option<Option<String>>)
    ensures
        r is Some <==> json_accepts(text@),
        r matches Some(m) ==> (m is Some <==> json_string_member(text@, key@) is Some),
        r matches Some(Some(s)) ==> json_string_member(text@, key@) == Some(s@),
{
    match serde_json::from_str::<serde_json::Value>(text) {
        Err(_) => None,
        Ok(value) => Some(value.get(key).and_then(serde_json::Value::as_str).map(String::from)),
    }
}

/// The text that the server takes for the member `key` of a posted JSON
/// body: the member's text when it is a string, else the empty text.
pub open spec fn posted_field(body: Seq<char>, key: Seq<char>) -> Seq<char> {
    match json_string_member(body, key) {
        Some(s) => s,
        None => Seq::empty(),
    }
}

/// Address of the chat server.
pub open spec fn server_url_view() -> Seq<char> {
    "http://127.0.0.1:8080"@
}

/// What the server does with a request.
#[derive(Debug, Clone, Copy, PartialEq, Eq, Structural)]
pub enum Route {
    /// `POST /message`: store a new message.
    PostMessage,
    /// `GET /messages...`: list messages.
    GetMessages,
    /// Anything else: answered `404 Not Found`.
    NotFound,
}

/// The route of a request with method `method` for `url`.
pub open spec fn route_of(method: Seq<char>, url: Seq<char>) -> Route {
    if method == "POST"@ && url == "/message"@ {
        Route::PostMessage
    } else if method == "GET"@ && "/messages"@.is_prefix_of(url) {
        Route::GetMessages
    } else {
        Route::NotFound
    }
}

/// How many messages `GET /messages` asks for: none (every message) when
/// the request has no query; else the number `N` of a query that begins
/// `count=N`, or 10 when the query does not begin with `count=` or `N` is not
/// a number that fits in a `usize`.
pub open spec fn requested_count(url: Seq<char>) -> Option<usize> {
    match first_index_of(url, '?') {
        None => None,
        Some(i) => {
            let query = url.skip(i + 1);
            if "count="@.is_prefix_of(query) {
                match parse_usize(query.skip("count="@.len() as int)) {
                    Some(n) => Some(n),
                    None => Some(10),
                }
            } else {
                Some(10)
            }
        },
    }
}

/// `GET /messages` asks for every message: it has no query, or it asks for
/// `usize::MAX` of them.
pub open spec fn asks_for_all(url: Seq<char>) -> bool {
    match requested_count(url) {
        None => true,
        Some(n) => n == usize::MAX,
    }
}

/// The body of an error response: `{"error":"<text>"}` (the text is put in
/// as it is).
pub open spec fn error_body_view(text: Seq<char>) -> Seq<char> {
    "{\"error\":\""@ + text + "\"}"@
}

/// What the server did with a `POST /message` request.
#[derive(Debug)]
pub enum PostOutcome {
    /// The message was created and saved: `201 Created` with the message.
    Created(Message),
    /// The sender or content was refused, or the clock failed: `400 Bad
    /// Request` with the error.
    Rejected(String),
    /// The storage failed to save the message: `500` with the error.
    StorageFailed(String),
    /// The body is not JSON: `400 Bad Request`, `Invalid JSON`.
    InvalidJson,
}

impl PostOutcome {
    /// The HTTP status of the response.
    pub fn status_code(&self) -> (r: u16)
        ensures
            r == match self {
                PostOutcome::Created(_) => 201u16,
                PostOutcome::Rejected(_) => 400u16,
                PostOutcome::StorageFailed(_) => 500u16,
                PostOutcome::InvalidJson => 400u16,
            },
    {
        match self {
            PostOutcome::Created(_) => 201,
            PostOutcome::Rejected(_) => 400,
            PostOutcome::StorageFailed(_) => 500,
            PostOutcome::InvalidJson => 400,
        }
    }
}

/// HTTP adapter of the chat.
pub struct HttpConnectionAdapter;

impl HttpConnectionAdapter {
    /// A new adapter.
    pub fn new() -> (r: Self) {
        HttpConnectionAdapter
    }

    /// Address of the chat server.
    pub fn server_url() -> (r: &'static str)
        ensures
            r@ == server_url_view(),
    {
        "http://127.0.0.1:8080"
    }

    /// Where the client posts a new message: `<server>/message`.
    pub fn message_url() -> (r: String)
        ensures
            r@ == server_url_view() + "/message"@,
    {
        String::from_str(Self::server_url()).concat("/message")
    }

    /// Where the client asks for all messages: `<server>/messages`.
    pub fn messages_url() -> (r: String)
        ensures
            r@ == server_url_view() + "/messages"@,
    {
        String::from_str(Self::server_url()).concat("/messages")
    }

    /// Where the client asks for the last `count` messages:
    /// `<server>/messages?count=<count>`.
    pub fn last_messages_url(count: usize) -> (r: String)
        ensures
            r@ == server_url_view() + "/messages?count="@ + decimal(count as nat),
    {
        String::from_str(Self::server_url()).concat("/messages?count=").concat(
            decimal_text(count as u64).as_str(),
        )
    }
}

/// The route of a request with method `method` for `url`.
pub fn route(method: &str, url: &str) -> (r: Route)
    ensures
        r == route_of(method@, url@),
{
    if text_eq(method, "POST") && text_eq(url, "/message") {
        Route::PostMessage
    } else if text_eq(method, "GET") && text_starts_with(url, "/messages") {
        Route::GetMessages
    } else {
        Route::NotFound
    }
}

/// How many messages a `GET /messages` request for `url` asks for (none:
/// every message).
pub fn requested_count_of(url: &str) -> (r: Option<usize>)
    ensures
        r == requested_count(url@),
{
    let v = chars_of(url);
    match find_char(&v, '?') {
        None => None,
        Some(q) => {
            let key = chars_of("count=");
            proof {
                reveal_strlit("count=");
            }
            if starts_with_at(&v, q + 1, &key) {
                let from = q + 1 + key.len();
                assert(v@.skip(q + 1).skip(key.len() as int) =~= v@.subrange(
                    from as int,
                    v.len() as int,
                ));
                match parse_usize_chars(&v, from, v.len()) {
                    Some(n) => Some(n),
                    None => Some(10),
                }
            } else {
                Some(10)
            }
        },
    }
}

/// The body of an error response: `{"error":"<text>"}`.
pub fn error_body(text: &str) -> (r: String)
    ensures
        r@ == error_body_view(text@),
{
    String::from_str("{\"error\":\"").concat(text).concat("\"}")
}

/// The messages that the server sends back for `GET <url>`: all of them when
/// the request asks for all (`asks_for_all`), else the last
/// `requested_count(url)` ones, as the storage answers.
pub fn handle_get_messages<S: MessageStoragePort + ?Sized>(storage: &S, url: &str) -> (r: Result<
    Vec<Message>,
    String,
>)
    ensures
        asks_for_all(url@) ==> call_ensures(S::get_all_messages, (storage,), r),
        !asks_for_all(url@) ==> call_ensures(
            S::get_last_messages,
            (storage, requested_count(url@)->Some_0),
            r,
        ),
{
    match requested_count_of(url) {
        None => storage.get_all_messages(),
        Some(count) => {
            if count == usize::MAX {
                storage.get_all_messages()
            } else {
                storage.get_last_messages(count)
            }
        },
    }
}

/// The `sender` and `content` members of a JSON request body, each the empty
/// text when it is missing or not a string; none when the body is not JSON.
pub fn request_fields(body: &str) -> (r: Option<(String, String)>)
    ensures
        r is Some <==> json_accepts(body@),
        r matches Some((s, c)) ==> s@ == posted_field(body@, "sender"@) && c@ == posted_field(
            body@,
            "content"@,
        ),
{
    let sender = json_body_member(body, "sender");
    let content = json_body_member(body, "content");
    match (sender, content) {
        (Some(s), Some(c)) => {
            let s = match s {
                Some(t) => t,
                None => String::new(),
            };
            let c = match c {
                Some(t) => t,
                None => String::new(),
            };
            Some((s, c))
        },
        _ => None,
    }
}

/// What the server does with a message posted by `sender` with `content` when
/// the clock reads `timestamp`: refuses a blank sender or content with its
/// reason, else hands the message stamped at `timestamp` to the storage and
/// answers `Created` with it exactly when the storage saved it, or the
/// storage's own error.
pub fn post_message_at<S: MessageStoragePort + ?Sized>(
    storage: &S,
    sender: String,
    content: String,
    timestamp: u64,
) -> (r: PostOutcome)
    ensures
        message_rejection(sender@, content@) matches Some(e) ==> (r matches PostOutcome::Rejected(
            f,
        ) && f@ == e),
        message_rejection(sender@, content@) is None ==> (r is Created || r is StorageFailed),
        r matches PostOutcome::Created(m) ==> {
            &&& m.sender == sender
            &&& m.content == content
            &&& m.timestamp == timestamp
            &&& m.id@ == stamped_id(sender@, timestamp)
            &&& call_ensures(S::save_message, (storage, &m), Ok(()))
        },
        r matches PostOutcome::StorageFailed(e) ==> exists|m: Message|
            m.sender == sender && m.content == content && m.timestamp == timestamp && m.id@
                == stamped_id(sender@, timestamp) && call_ensures(
                S::save_message,
                (storage, &m),
                Err(e),
            ),
{
    match Message::with_timestamp(sender, content, timestamp) {
        Err(e) => PostOutcome::Rejected(e),
        Ok(message) => {
            let saved = storage.save_message(&message);
            match saved {
                Ok(_) => {
                    assert(saved->Ok_0 == ());
                    assert(saved == Ok::<(), String>(()));
                    PostOutcome::Created(message)
                },
                Err(e) => PostOutcome::StorageFailed(e),
            }
        },
    }
}

/// What the server does with a message posted by `sender` with `content`:
/// refuses a blank sender or content with its reason, else reads the clock
/// (a failing clock gives `Time error: ...`) and goes on as
/// `post_message_at` with the reading.
pub fn post_message_outcome<S: MessageStoragePort + ?Sized>(
    storage: &S,
    sender: String,
    content: String,
) -> (r: PostOutcome)
    ensures
        message_rejection(sender@, content@) matches Some(e) ==> (r matches PostOutcome::Rejected(
            f,
        ) && f@ == e),
        r is InvalidJson ==> false,
        r matches PostOutcome::Rejected(f) ==> (message_rejection(sender@, content@) matches Some(
            e,
        ) && f@ == e) || (message_rejection(sender@, content@) is None && exists|t: Seq<char>|
            f@ == time_error(t)),
        r matches PostOutcome::Created(m) ==> {
            &&& message_rejection(sender@, content@) is None
            &&& m.sender == sender
            &&& m.content == content
            &&& m.id@ == stamped_id(sender@, m.timestamp)
            &&& call_ensures(S::save_message, (storage, &m), Ok(()))
        },
        r matches PostOutcome::StorageFailed(e) ==> {
            &&& message_rejection(sender@, content@) is None
            &&& exists|m: Message|
                m.sender == sender && m.content == content && m.id@ == stamped_id(
                    sender@,
                    m.timestamp,
                ) && call_ensures(S::save_message, (storage, &m), Err(e))
        },
{
    match rejection(sender.as_str(), content.as_str()) {
        Some(e) => PostOutcome::Rejected(e),
        None => match seconds_since_epoch() {
            Err(e) => {
                let f = String::from_str("Time error: ").concat(e.as_str());
                assert(f@ == time_error(e@));
                PostOutcome::Rejected(f)
            },
            Ok(timestamp) => post_message_at(storage, sender, content, timestamp),
        },
    }
}

/// What the server does with `POST /message` and the request body `body`: a
/// body that is not JSON is refused; else the `sender` and `content` members
/// (empty when missing or not strings) are posted as by
/// `post_message_outcome`.
pub fn handle_post_message<S: MessageStoragePort + ?Sized>(storage: &S, body: &str) -> (r:
    PostOutcome)
    ensures
        r is InvalidJson <==> !json_accepts(body@),
        json_accepts(body@) ==> ({
            let s = posted_field(body@, "sender"@);
            let c = posted_field(body@, "content"@);
            &&& message_rejection(s, c) matches Some(e) ==> (r matches PostOutcome::Rejected(f)
                && f@ == e)
            &&& r matches PostOutcome::Rejected(f) ==> (message_rejection(s, c) matches Some(e)
                && f@ == e) || (message_rejection(s, c) is None && exists|t: Seq<char>|
                f@ == time_error(t))
            &&& r matches PostOutcome::Created(m) ==> {
                &&& message_rejection(s, c) is None
                &&& m.sender@ == s
                &&& m.content@ == c
                &&& m.id@ == stamped_id(s, m.timestamp)
                &&& call_ensures(S::save_message, (storage, &m), Ok(()))
            }
            &&& r matches PostOutcome::StorageFailed(e) ==> {
                &&& message_rejection(s, c) is None
                &&& exists|m: Message|
                    m.sender@ == s && m.content@ == c && m.id@ == stamped_id(s, m.timestamp)
                        && call_ensures(S::save_message, (storage, &m), Err(e))
            }
        }),
{
    match request_fields(body) {
        None => PostOutcome::InvalidJson,
        Some((sender, content)) => post_message_outcome(storage, sender, content),
    }
}

/// The error of a client request that the server answered with the status
/// `code` (shown as `status`): none for a success (the 2xx range), else
/// `Server error: <status>`.
pub fn reply_error(code: u16, status: &str) -> (r: Option<String>)
    ensures
        r is None <==> 200 <= code <= 299,
        r matches Some(e) ==> e@ == "Server error: "@ + status@,
{
    if 200 <= code && code <= 299 {
        None
    } else {
        Some(String::from_str("Server error: ").concat(status))
    }
}

/// Law: the count that the client puts in `/messages?count=<n>` is the count
/// that the server reads from it.
pub proof fn law_requested_count_round_trip(n: usize)
    ensures
        requested_count("/messages?count="@ + decimal(n as nat)) == Some(n),
{
    reveal_strlit("/messages?count=");
    reveal_strlit("count=");
    let url = "/messages?count="@ + decimal(n as nat);
    assert(url[9] == '?');
    assert forall|i: int| 0 <= i < 9 implies url[i] != '?' by {
        assert(url[i] == "/messages?count="@[i]);
    }
    crate::text::lemma_first_index_of(url, '?', 9);
    let query = url.skip(10);
    assert(query =~= "count="@ + decimal(n as nat));
    assert("count="@.is_prefix_of(query)) by {
        assert(query.take(6) =~= "count="@);
    }
    assert(query.skip(6) =~= decimal(n as nat));
    crate::text::lemma_parse_decimal(n);
}

impl ServerConnectionPort for HttpConnectionAdapter {
    /// Not offered over this trait: the HTTP server is started by the
    /// application on port 8080, whatever `port` says.
    fn start_server(&self, port: u16) -> (r: Result<(), String>)
        ensures
            r matches Err(e) && e@ == "Use HttpConnectionAdapter::start_server() instead"@,
    {
        Err(String::from_str("Use HttpConnectionAdapter::start_server() instead"))
    }

    /// Not offered over this trait: messages are posted over HTTP.
    fn send_message(&self, message: &Message) -> (r: Result<(), String>)
        ensures
            r matches Err(e) && e@ == "Use HttpConnectionAdapter::send_message_http() instead"@,
    {
        Err(String::from_str("Use HttpConnectionAdapter::send_message_http() instead"))
    }

    /// Not offered: HTTP keeps no connection to receive from.
    fn receive_message(&self) -> (r: Result<Message, String>)
        ensures
            r matches Err(e) && e@ == "HTTP is stateless, use fetch_messages_http() instead"@,
    {
        Err(String::from_str("HTTP is stateless, use fetch_messages_http() instead"))
    }

    /// Nothing to close.
    fn close(&self) -> (r: Result<(), String>)
        ensures
            r is Ok,
    {
        Ok(())
    }
}

} // verus!
