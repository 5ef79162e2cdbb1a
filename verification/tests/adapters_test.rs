use agenda::adapters::input::cli::CliInput;
use agenda::adapters::input::cli_output::CliOutput;
use agenda::adapters::input::client_cli::ClientCliAdapter;
use agenda::adapters::input::client_cli::ClientCommand;
use agenda::adapters::input::server_cli::ServerCliAdapter;
use agenda::adapters::input::server_cli::ServerCommand;
use agenda::adapters::output::json_storage::JsonStorageAdapter;
use agenda::adapters::output::tcp_connection::error_body;
use agenda::adapters::output::tcp_connection::handle_get_messages;
use agenda::adapters::output::tcp_connection::handle_post_message;
use agenda::adapters::output::tcp_connection::post_message_at;
use agenda::adapters::output::tcp_connection::reply_error;
use agenda::adapters::output::tcp_connection::request_fields;
use agenda::adapters::output::tcp_connection::requested_count_of;
use agenda::adapters::output::tcp_connection::route;
use agenda::adapters::output::tcp_connection::HttpConnectionAdapter;
use agenda::adapters::output::tcp_connection::PostOutcome;
use agenda::adapters::output::tcp_connection::Route;
use agenda::domain::models::message::Message;
use agenda::domain::models::path_stats::PathStats;
use agenda::domain::ports::message_storage_port::MessageStoragePort;
use agenda::domain::ports::server_connection_port::ServerConnectionPort;
use agenda::text::decimal_text;
use agenda::text::lower_hex_text;
use agenda::text::trim_text;

fn msg(sender: &str, id: &str, ts: u64) -> Message {
    Message::with_id_timestamp(sender.to_string(), "x".to_string(), id.to_string(), ts).unwrap()
}

fn ids(v: &[Message]) -> Vec<&str> {
    v.iter().map(|m| m.id.as_str()).collect()
}

struct ListStorage {
    messages: std::sync::Mutex<Vec<Message>>,
    fail_saves: bool,
}

impl ListStorage {
    fn new(fail_saves: bool) -> Self {
        ListStorage { messages: std::sync::Mutex::new(Vec::new()), fail_saves }
    }
}

impl MessageStoragePort for ListStorage {
    fn save_message(&self, message: &Message) -> Result<(), String> {
        if self.fail_saves {
            return Err("write failed".to_string());
        }
        let mut all = self.messages.lock().unwrap();
        let updated = JsonStorageAdapter::stored_after_save(all.clone(), message);
        *all = updated;
        Ok(())
    }
    fn get_all_messages(&self) -> Result<Vec<Message>, String> {
        Ok(self.messages.lock().unwrap().clone())
    }
    fn get_messages_since(&self, timestamp: u64) -> Result<Vec<Message>, String> {
        Ok(JsonStorageAdapter::messages_since(self.messages.lock().unwrap().clone(), timestamp))
    }
    fn get_last_messages(&self, count: usize) -> Result<Vec<Message>, String> {
        Ok(JsonStorageAdapter::last_messages(&self.messages.lock().unwrap(), count))
    }
}

#[test]
fn json_storage_keeps_its_path() {
    let adapter = JsonStorageAdapter::new("data/chat_messages.json");
    assert_eq!(adapter.file_path(), "data/chat_messages.json");
    assert_eq!(JsonStorageAdapter::empty_document(), "[]");
}

#[test]
fn json_storage_save_then_read_back() {
    let before = vec![msg("a", "m1", 1), msg("b", "m2", 2)];
    let m = msg("c", "m3", 3);
    let after = JsonStorageAdapter::stored_after_save(before.clone(), &m);
    assert_eq!(after.len(), 3);
    assert_eq!(&after[..2], &before[..]);
    assert_eq!(after[2], m);
    assert_eq!(JsonStorageAdapter::last_messages(&after, 1), vec![m.clone()]);
    let since = JsonStorageAdapter::messages_since(after.clone(), 3);
    assert_eq!(since.last(), Some(&m));
}

#[test]
fn json_storage_last_and_since() {
    let all = vec![msg("a", "m1", 100), msg("b", "m2", 300), msg("c", "m3", 200)];
    assert_eq!(ids(&JsonStorageAdapter::last_messages(&all, 2)), vec!["m2", "m3"]);
    assert_eq!(ids(&JsonStorageAdapter::last_messages(&all, 0)), Vec::<&str>::new());
    assert_eq!(ids(&JsonStorageAdapter::last_messages(&all, 99)), vec!["m1", "m2", "m3"]);
    assert_eq!(ids(&JsonStorageAdapter::messages_since(all.clone(), 200)), vec!["m2", "m3"]);
    assert_eq!(ids(&JsonStorageAdapter::messages_since(all.clone(), 0)), vec!["m1", "m2", "m3"]);
    assert!(JsonStorageAdapter::messages_since(all, 301).is_empty());
}

#[test]
fn http_routes() {
    assert_eq!(route("POST", "/message"), Route::PostMessage);
    assert_eq!(route("GET", "/messages"), Route::GetMessages);
    assert_eq!(route("GET", "/messages?count=3"), Route::GetMessages);
    assert_eq!(route("GET", "/message"), Route::NotFound);
    assert_eq!(route("POST", "/messages"), Route::NotFound);
    assert_eq!(route("DELETE", "/message"), Route::NotFound);
}

#[test]
fn http_requested_count() {
    assert_eq!(requested_count_of("/messages"), None);
    assert_eq!(requested_count_of("/messages?count=3"), Some(3));
    assert_eq!(requested_count_of("/messages?count=+7"), Some(7));
    assert_eq!(requested_count_of("/messages?count=abc"), Some(10));
    assert_eq!(requested_count_of("/messages?count="), Some(10));
    assert_eq!(requested_count_of("/messages?limit=3"), Some(10));
    assert_eq!(requested_count_of("/messages?"), Some(10));
    assert_eq!(requested_count_of("/messages?count=99999999999999999999999"), Some(10));
    assert_eq!(requested_count_of(&format!("/messages?count={}", usize::MAX)), Some(usize::MAX));
}

#[test]
fn http_get_messages() {
    let storage = ListStorage::new(false);
    for (i, s) in ["a", "b", "c"].iter().enumerate() {
        storage.save_message(&msg(s, &format!("m{}", i), i as u64)).unwrap();
    }
    assert_eq!(ids(&handle_get_messages(&storage, "/messages?count=2").unwrap()), vec!["m1", "m2"]);
    assert_eq!(ids(&handle_get_messages(&storage, "/messages").unwrap()), vec!["m0", "m1", "m2"]);
    assert_eq!(ids(&handle_get_messages(&storage, "/messages?limit=1").unwrap()), vec!["m0", "m1", "m2"]);
    assert_eq!(ids(&handle_get_messages(&storage, "/messages?count=0").unwrap()), Vec::<&str>::new());
    let all = format!("/messages?count={}", usize::MAX);
    assert_eq!(handle_get_messages(&storage, &all).unwrap().len(), 3);
}

#[test]
fn http_post_messages() {
    let storage = ListStorage::new(false);
    match handle_post_message(&storage, r#"{"sender":"alice","content":"Hi"}"#) {
        PostOutcome::Created(m) => {
            assert_eq!(m.sender, "alice");
            assert_eq!(m.content, "Hi");
            assert_eq!(storage.get_all_messages().unwrap(), vec![m]);
        }
        other => panic!("unexpected {:?}", other),
    }
    let refused = handle_post_message(&storage, r#"{"sender":42,"content":"Hi"}"#);
    assert_eq!(refused.status_code(), 400);
    assert!(matches!(refused, PostOutcome::Rejected(ref e) if e == "Sender cannot be empty"));
    let refused = handle_post_message(&storage, r#"{"sender":"bob"}"#);
    assert!(matches!(refused, PostOutcome::Rejected(ref e) if e == "Content cannot be empty"));
    let bad = handle_post_message(&storage, "not json");
    assert!(matches!(bad, PostOutcome::InvalidJson));
    assert_eq!(bad.status_code(), 400);
    let failing = ListStorage::new(true);
    let failed = handle_post_message(&failing, r#"{"sender":"a","content":"b"}"#);
    assert!(matches!(failed, PostOutcome::StorageFailed(ref e) if e == "write failed"));
    assert_eq!(failed.status_code(), 500);
    assert_eq!(storage.get_all_messages().unwrap().len(), 1);
}

#[test]
fn http_request_fields_and_error_body() {
    assert_eq!(
        request_fields(r#"{"content":"yo","sender":"al"}"#),
        Some(("al".to_string(), "yo".to_string()))
    );
    assert_eq!(request_fields("[1, 2]"), Some((String::new(), String::new())));
    assert_eq!(request_fields("{"), None);
    assert_eq!(error_body("disk full"), r#"{"error":"disk full"}"#);
}

#[test]
fn http_client_urls_and_port() {
    assert_eq!(HttpConnectionAdapter::server_url(), "http://127.0.0.1:8080");
    assert_eq!(HttpConnectionAdapter::message_url(), "http://127.0.0.1:8080/message");
    assert_eq!(HttpConnectionAdapter::messages_url(), "http://127.0.0.1:8080/messages");
    assert_eq!(HttpConnectionAdapter::last_messages_url(25), "http://127.0.0.1:8080/messages?count=25");
    let adapter = HttpConnectionAdapter::new();
    assert_eq!(adapter.start_server(9000).unwrap_err(), "Use HttpConnectionAdapter::start_server() instead");
    assert!(adapter.send_message(&msg("a", "m", 1)).is_err());
    assert!(adapter.receive_message().is_err());
    assert!(adapter.close().is_ok());
}

#[test]
fn client_commands() {
    assert!(matches!(ClientCliAdapter::parse_command("  /send bob hi \n"), ClientCommand::Send(ref t) if t == "/send bob hi"));
    assert!(matches!(ClientCliAdapter::parse_command("/fetch 3"), ClientCommand::Fetch(ref t) if t == "/fetch 3"));
    assert!(matches!(ClientCliAdapter::parse_command("/fetchall"), ClientCommand::Fetch(_)));
    assert!(matches!(ClientCliAdapter::parse_command("/exit\n"), ClientCommand::Exit));
    assert!(matches!(ClientCliAdapter::parse_command("/send"), ClientCommand::Unknown));
    assert!(matches!(ClientCliAdapter::parse_command("hello"), ClientCommand::Unknown));
    assert!(matches!(ClientCliAdapter::parse_command("   "), ClientCommand::Empty));
}

#[test]
fn client_send_arguments() {
    assert_eq!(
        ClientCliAdapter::send_arguments("/send alice \"Hello everyone!\"").unwrap(),
        ("alice".to_string(), "\"Hello everyone!\"".to_string())
    );
    assert_eq!(
        ClientCliAdapter::send_arguments("/send/send bob   hi there ").unwrap(),
        ("bob".to_string(), "hi there".to_string())
    );
    assert_eq!(
        ClientCliAdapter::send_arguments("/send alice").unwrap_err(),
        "Usage: /send <username> \"message\""
    );
    assert_eq!(ClientCliAdapter::unquote("\"Hello\""), "Hello");
    assert_eq!(ClientCliAdapter::unquote("'Hi'"), "Hi");
    assert_eq!(ClientCliAdapter::unquote("\"Hi'"), "\"Hi'");
    assert_eq!(ClientCliAdapter::unquote("\"\""), "");
    assert_eq!(ClientCliAdapter::unquote(""), "");
}

#[test]
fn client_fetch_count() {
    assert_eq!(ClientCliAdapter::fetch_count("/fetch"), 10);
    assert_eq!(ClientCliAdapter::fetch_count("/fetch 3"), 3);
    assert_eq!(ClientCliAdapter::fetch_count("/fetch   +4  9"), 4);
    assert_eq!(ClientCliAdapter::fetch_count("/fetch x"), 10);
    assert_eq!(ClientCliAdapter::fetch_count("/fetch -1"), 10);
}

#[test]
fn client_report_lines() {
    let m = msg("alice", "alice-1", 1);
    assert_eq!(ClientCliAdapter::message_line(&m), "[alice-1] alice: x");
    assert_eq!(ClientCliAdapter::sent_line(&m), "Message sent: alice [alice-1]");
    assert_eq!(ClientCliAdapter::fetch_report(&Vec::new()), vec!["No messages found".to_string()]);
    let report = ClientCliAdapter::fetch_report(&vec![m.clone(), msg("bob", "bob-2", 2)]);
    assert_eq!(report, vec![
        "\n--- Last 2 messages ---".to_string(),
        "[alice-1] alice: x".to_string(),
        "[bob-2] bob: x".to_string(),
        "------------------------\n".to_string(),
    ]);
}

#[test]
fn server_commands_and_status() {
    assert_eq!(ServerCliAdapter::parse_command(" /status "), ServerCommand::Status);
    assert_eq!(ServerCliAdapter::parse_command("/exit"), ServerCommand::Exit);
    assert_eq!(ServerCliAdapter::parse_command("/stat"), ServerCommand::Unknown);
    assert_eq!(ServerCliAdapter::parse_command(""), ServerCommand::Empty);
    let all = vec![msg("alice", "1", 1), msg("bob", "2", 2), msg("alice", "3", 3)];
    let status = ServerCliAdapter::status(&all);
    assert_eq!(status.total, 3);
    assert_eq!(status.users, vec!["alice".to_string(), "bob".to_string()]);
    let empty = ServerCliAdapter::status(&Vec::new());
    assert_eq!(empty.total, 0);
    assert!(empty.users.is_empty());
}

#[test]
fn path_cli_lines() {
    let args = vec!["prog".to_string()];
    assert_eq!(CliInput::path_from_args(&args).unwrap_err(), "Usage: cargo run <path>");
    let args = vec!["prog".to_string(), "/tmp".to_string(), "x".to_string()];
    assert_eq!(CliInput::path_from_args(&args).unwrap(), "/tmp");
    let lines = CliOutput::stats_lines(&PathStats::new("/d".to_string(), 15, 3));
    assert_eq!(lines, vec![
        "Analizando ruta: /d",
        "",
        "\u{1f4c2} Carpeta: /d",
        "\u{251c} \u{1f4c4} Archivos: 15",
        "\u{2514} \u{1f4c1} Carpetas: 3",
    ]);
    assert_eq!(CliOutput::error_line("boom"), "Error: boom");
}

#[test]
fn numerals_and_trimming() {
    assert_eq!(decimal_text(0), "0");
    assert_eq!(decimal_text(1774139258), "1774139258");
    assert_eq!(decimal_text(u64::MAX), u64::MAX.to_string());
    assert_eq!(lower_hex_text(255), "ff");
    assert_eq!(lower_hex_text(u128::MAX), format!("{:x}", u128::MAX));
    assert_eq!(trim_text("\u{3000} a b \t"), "a b");
    assert_eq!(trim_text("   "), "");
}

#[test]
fn http_post_message_at_a_reading() {
    let storage = ListStorage::new(false);
    match post_message_at(&storage, "dan".to_string(), "hey".to_string(), 42) {
        PostOutcome::Created(m) => {
            assert_eq!(m.id, "dan-42");
            assert_eq!(m.timestamp, 42);
            assert_eq!(storage.get_all_messages().unwrap(), vec![m]);
        }
        other => panic!("unexpected {:?}", other),
    }
    let refused = post_message_at(&storage, "".to_string(), "hey".to_string(), 42);
    assert!(matches!(refused, PostOutcome::Rejected(ref e) if e == "Sender cannot be empty"));
    let failing = ListStorage::new(true);
    let failed = post_message_at(&failing, "dan".to_string(), "hey".to_string(), 42);
    assert!(matches!(failed, PostOutcome::StorageFailed(ref e) if e == "write failed"));
    assert_eq!(storage.get_all_messages().unwrap().len(), 1);
}

#[test]
fn http_post_reads_the_body_members() {
    let storage = ListStorage::new(false);
    match handle_post_message(&storage, r#"{"content":"second","sender":"first"}"#) {
        PostOutcome::Created(m) => {
            assert_eq!(m.sender, "first");
            assert_eq!(m.content, "second");
            assert!(m.id.starts_with("first-"));
        }
        other => panic!("unexpected {:?}", other),
    }
    let refused = handle_post_message(&storage, r#"{"sender":"a","content":"  "}"#);
    assert!(matches!(refused, PostOutcome::Rejected(ref e) if e == "Content cannot be empty"));
}

#[test]
fn http_reply_status_verdict() {
    assert_eq!(reply_error(200, "200 OK"), None);
    assert_eq!(reply_error(201, "201 Created"), None);
    assert_eq!(reply_error(299, "299 <unknown status code>"), None);
    assert_eq!(reply_error(199, "199 <unknown status code>"), Some("Server error: 199 <unknown status code>".to_string()));
    assert_eq!(reply_error(404, "404 Not Found"), Some("Server error: 404 Not Found".to_string()));
    assert_eq!(reply_error(500, "500 Internal Server Error"), Some("Server error: 500 Internal Server Error".to_string()));
}
