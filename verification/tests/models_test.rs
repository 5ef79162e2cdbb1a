use agenda::domain::models::conversation::Conversation;
use agenda::domain::models::message::rejection;
use agenda::domain::models::message::Message;
use agenda::domain::models::path_stats::PathStats;
use agenda::domain::models::user::User;

fn msg(sender: &str, content: &str, id: &str, ts: u64) -> Message {
    Message::with_id_timestamp(sender.to_string(), content.to_string(), id.to_string(), ts).unwrap()
}

#[test]
fn test_message_creation() {
    let msg = Message::new("alice".to_string(), "Hello".to_string()).unwrap();
    assert_eq!(msg.sender, "alice");
    assert_eq!(msg.content, "Hello");
    assert!(msg.timestamp > 0);
}

#[test]
fn test_message_empty_sender() {
    let result = Message::new("".to_string(), "Hello".to_string());
    assert!(result.is_err());
}

#[test]
fn test_message_empty_content() {
    let result = Message::new("alice".to_string(), "".to_string());
    assert!(result.is_err());
}

#[test]
fn message_id_is_sender_and_timestamp() {
    let m = Message::new("alice".to_string(), "Hello".to_string()).unwrap();
    assert_eq!(m.id, format!("alice-{}", m.timestamp));
    let m = Message::with_timestamp("bob".to_string(), "Hi".to_string(), 1774139259).unwrap();
    assert_eq!(m.id, "bob-1774139259");
    assert_eq!(m.timestamp, 1774139259);
    let m = Message::with_timestamp("bob".to_string(), "Hi".to_string(), 0).unwrap();
    assert_eq!(m.id, "bob-0");
}

#[test]
fn message_blank_fields_are_refused_with_their_reason() {
    assert_eq!(
        Message::new("  \t".to_string(), "Hello".to_string()).unwrap_err(),
        "Sender cannot be empty"
    );
    assert_eq!(
        Message::new("alice".to_string(), " \n ".to_string()).unwrap_err(),
        "Content cannot be empty"
    );
    assert_eq!(
        Message::with_id_timestamp("".to_string(), "".to_string(), "x".to_string(), 1).unwrap_err(),
        "Sender cannot be empty"
    );
    // a no-break space is whitespace too
    assert!(Message::with_timestamp("\u{a0}".to_string(), "x".to_string(), 1).is_err());
    // content keeps its surrounding spaces
    let m = Message::with_timestamp("alice".to_string(), " hi ".to_string(), 5).unwrap();
    assert_eq!(m.content, " hi ");
}

#[test]
fn message_with_id_timestamp_keeps_fields() {
    let m = msg("alice", "Hello", "msg1", 100);
    assert_eq!(m, Message {
        id: "msg1".to_string(),
        sender: "alice".to_string(),
        content: "Hello".to_string(),
        timestamp: 100,
    });
    assert_eq!(m.clone(), m);
}

#[test]
fn test_user_creation() {
    let user = User::new("alice".to_string()).unwrap();
    assert_eq!(user.username, "alice");
    assert!(!user.id.is_empty());
}

#[test]
fn test_user_empty_username() {
    let result = User::new("".to_string());
    assert!(result.is_err());
}

#[test]
fn user_ids_are_hexadecimal_nanoseconds() {
    let user = User::new("alice".to_string()).unwrap();
    assert!(user.id.starts_with("user-"));
    assert!(user.id[5..].chars().all(|c| c.is_ascii_hexdigit() && !c.is_ascii_uppercase()));
    let u = User::with_nanos("bob".to_string(), 0x1f2e3d).unwrap();
    assert_eq!(u.id, "user-1f2e3d");
    let u = User::with_nanos("bob".to_string(), 0).unwrap();
    assert_eq!(u.id, "user-0");
    assert_eq!(User::with_id(" ".to_string(), "x".to_string()).unwrap_err(), "Username cannot be empty");
    let u = User::with_id("carol".to_string(), "id-7".to_string()).unwrap();
    assert_eq!(u, User { id: "id-7".to_string(), username: "carol".to_string() });
}

#[test]
fn test_conversation_creation() {
    let conv = Conversation::new("General".to_string()).unwrap();
    assert_eq!(conv.name, "General");
    assert!(conv.messages.is_empty());
}

#[test]
fn test_add_message() {
    let mut conv = Conversation::new("General".to_string()).unwrap();
    let msg = Message::new("alice".to_string(), "Hello".to_string()).unwrap();
    conv.add_message(msg.clone());
    assert_eq!(conv.messages.len(), 1);
    assert_eq!(conv.messages[0], msg);
}

#[test]
fn test_conversation_empty_name() {
    let result = Conversation::new("".to_string());
    assert!(result.is_err());
}

#[test]
fn conversation_ids() {
    let conv = Conversation::new("General".to_string()).unwrap();
    assert!(conv.id.starts_with("conv-"));
    assert!(conv.id[5..].parse::<u64>().is_ok());
    let conv = Conversation::created_at("Team".to_string(), 1774139258).unwrap();
    assert_eq!(conv.id, "conv-1774139258");
    assert_eq!(
        Conversation::created_at("\t".to_string(), 1).unwrap_err(),
        "Conversation name cannot be empty"
    );
}

#[test]
fn conversation_sorts_stably_by_timestamp() {
    let mut conv = Conversation::created_at("General".to_string(), 1).unwrap();
    conv.add_message(msg("a", "x", "m1", 300));
    conv.add_message(msg("b", "x", "m2", 100));
    conv.add_message(msg("c", "x", "m3", 200));
    conv.add_message(msg("d", "x", "m4", 100));
    let ids: Vec<String> = conv.get_messages().into_iter().map(|m| m.id).collect();
    assert_eq!(ids, vec!["m2", "m4", "m3", "m1"]);
    // the conversation itself keeps insertion order
    assert_eq!(conv.messages[0].id, "m1");
}

#[test]
fn conversation_last_messages_latest_first() {
    let mut conv = Conversation::created_at("General".to_string(), 1).unwrap();
    conv.add_message(msg("a", "x", "m1", 300));
    conv.add_message(msg("b", "x", "m2", 100));
    conv.add_message(msg("c", "x", "m3", 200));
    let ids: Vec<String> = conv.get_last_messages(2).into_iter().map(|m| m.id).collect();
    assert_eq!(ids, vec!["m1", "m3"]);
    assert_eq!(conv.get_last_messages(10).len(), 3);
    assert!(conv.get_last_messages(0).is_empty());
    let empty = Conversation::created_at("E".to_string(), 1).unwrap();
    assert!(empty.get_last_messages(5).is_empty());
    assert!(empty.get_messages().is_empty());
}

#[test]
fn path_stats_fields_and_total() {
    let stats = PathStats::new("/x".to_string(), 7, 0);
    assert_eq!(stats.path, "/x");
    assert_eq!(stats.files, 7);
    assert_eq!(stats.directories, 0);
    assert_eq!(stats.total(), 7);
    assert_eq!(PathStats::new("/y".to_string(), u64::MAX - 1, 1).total(), u64::MAX);
}

#[test]
fn latest_added_message_comes_last() {
    let mut conv = Conversation::created_at("General".to_string(), 1).unwrap();
    conv.add_message(msg("a", "x", "m1", 200));
    conv.add_message(msg("b", "x", "m2", 100));
    let before: Vec<String> = conv.get_messages().into_iter().map(|m| m.id).collect();
    conv.add_message(msg("c", "x", "m3", 200));
    let after: Vec<String> = conv.get_messages().into_iter().map(|m| m.id).collect();
    assert_eq!(after[..2], before[..]);
    assert_eq!(after[2], "m3");
    // already ordered messages come back as they are
    let mut ordered = Conversation::created_at("O".to_string(), 1).unwrap();
    for (i, ts) in [1u64, 1, 2, 5].iter().enumerate() {
        ordered.add_message(msg("s", "x", &format!("o{}", i), *ts));
    }
    assert_eq!(ordered.get_messages(), ordered.messages);
}

#[test]
fn rejection_names_the_first_blank_field() {
    assert_eq!(rejection("", ""), Some("Sender cannot be empty".to_string()));
    assert_eq!(rejection(" \n", "hi"), Some("Sender cannot be empty".to_string()));
    assert_eq!(rejection("al", "\t"), Some("Content cannot be empty".to_string()));
    assert_eq!(rejection("al", "hi"), None);
}

#[test]
fn user_new_refuses_only_blank_names() {
    assert_eq!(User::new("  ".to_string()).unwrap_err(), "Username cannot be empty");
    let u = User::new(" bob ".to_string()).unwrap();
    assert_eq!(u.username, " bob ");
    assert!(u.id.starts_with("user-"));
    assert!(u.id.len() > "user-".len());
}
