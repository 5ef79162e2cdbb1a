use agenda::application::use_cases::analyze_path::AnalyzePathUseCase;
use agenda::application::use_cases::fetch_messages_use_case::FetchMessagesUseCase;
use agenda::application::use_cases::send_message_use_case::SendMessageUseCase;
use agenda::domain::models::message::Message;
use agenda::domain::models::path_stats::PathStats;
use agenda::domain::ports::file_system_port::FileSystemPort;
use agenda::domain::ports::message_storage_port::MessageStoragePort;
use agenda::domain::services::chat_service::ChatService;
use agenda::domain::services::path_analyzer::PathAnalyzerService;

struct MockStorage {
    messages: std::sync::Arc<std::sync::Mutex<Vec<Message>>>,
}

impl MockStorage {
    fn new() -> Self {
        MockStorage {
            messages: std::sync::Arc::new(std::sync::Mutex::new(Vec::new())),
        }
    }

    fn add_message(&self, msg: Message) {
        let mut msgs = self.messages.lock().unwrap();
        msgs.push(msg);
    }
}

impl MessageStoragePort for MockStorage {
    fn save_message(&self, message: &Message) -> Result<(), String> {
        let mut msgs = self.messages.lock().unwrap();
        msgs.push(message.clone());
        Ok(())
    }

    fn get_all_messages(&self) -> Result<Vec<Message>, String> {
        let msgs = self.messages.lock().unwrap();
        Ok(msgs.clone())
    }

    fn get_messages_since(&self, timestamp: u64) -> Result<Vec<Message>, String> {
        let msgs = self.messages.lock().unwrap();
        Ok(msgs.iter().filter(|m| m.timestamp >= timestamp).cloned().collect())
    }

    fn get_last_messages(&self, count: usize) -> Result<Vec<Message>, String> {
        let msgs = self.messages.lock().unwrap();
        let len = msgs.len();
        let start = if len > count { len - count } else { 0 };
        Ok(msgs[start..].to_vec())
    }
}

/// A storage that refuses everything.
struct BrokenStorage;

impl MessageStoragePort for BrokenStorage {
    fn save_message(&self, _message: &Message) -> Result<(), String> {
        Err("disk full".to_string())
    }
    fn get_all_messages(&self) -> Result<Vec<Message>, String> {
        Err("unreadable".to_string())
    }
    fn get_messages_since(&self, _timestamp: u64) -> Result<Vec<Message>, String> {
        Err("unreadable".to_string())
    }
    fn get_last_messages(&self, _count: usize) -> Result<Vec<Message>, String> {
        Err("unreadable".to_string())
    }
}

struct MockFileSystem {
    files: u64,
    directories: u64,
    should_fail: bool,
}

impl MockFileSystem {
    fn new(files: u64, directories: u64) -> Self {
        MockFileSystem { files, directories, should_fail: false }
    }

    fn with_error() -> Self {
        MockFileSystem { files: 0, directories: 0, should_fail: true }
    }
}

impl FileSystemPort for MockFileSystem {
    fn get_path_stats(&self, _path: &str) -> Result<(u64, u64), String> {
        if self.should_fail {
            Err("Simulated error: path not found".to_string())
        } else {
            Ok((self.files, self.directories))
        }
    }
}

fn stored(sender: &str, content: &str, id: &str, ts: u64) -> Message {
    Message::with_id_timestamp(sender.to_string(), content.to_string(), id.to_string(), ts).unwrap()
}

#[test]
fn test_send_message() {
    let storage = MockStorage::new();
    let result = ChatService::send_message(&storage, "alice", "Hello");
    assert!(result.is_ok());

    let messages = storage.get_all_messages().unwrap();
    assert_eq!(messages.len(), 1);
    assert_eq!(messages[0].sender, "alice");
    assert_eq!(messages[0].content, "Hello");
}

#[test]
fn chat_service_test_fetch_all_messages() {
    let storage = MockStorage::new();
    ChatService::send_message(&storage, "alice", "Hello").unwrap();
    ChatService::send_message(&storage, "bob", "Hi").unwrap();

    let messages = ChatService::fetch_all_messages(&storage).unwrap();
    assert_eq!(messages.len(), 2);
}

#[test]
fn test_send_invalid_sender() {
    let storage = MockStorage::new();
    let result = ChatService::send_message(&storage, "", "Hello");
    assert!(result.is_err());
}

#[test]
fn send_returns_the_saved_message_and_passes_storage_errors() {
    let storage = MockStorage::new();
    let m = ChatService::send_message(&storage, "alice", "Hello").unwrap();
    assert_eq!(storage.get_all_messages().unwrap(), vec![m.clone()]);
    assert_eq!(m.id, format!("alice-{}", m.timestamp));
    // nothing is saved when the content is blank
    assert_eq!(
        ChatService::send_message(&storage, "alice", "   ").unwrap_err(),
        "Content cannot be empty"
    );
    assert_eq!(storage.get_all_messages().unwrap().len(), 1);
    assert_eq!(ChatService::send_message(&BrokenStorage, "alice", "Hello").unwrap_err(), "disk full");
    // works through a trait object too
    let port: &dyn MessageStoragePort = &storage;
    assert!(ChatService::send_message(port, "bob", "Hi").is_ok());
    assert_eq!(ChatService::fetch_last_messages(port, 1).unwrap()[0].sender, "bob");
}

#[test]
fn fetch_functions_answer_what_the_storage_answers() {
    let storage = MockStorage::new();
    storage.add_message(stored("alice", "Hello", "msg1", 100));
    storage.add_message(stored("bob", "Hi", "msg2", 200));
    let since = ChatService::fetch_messages_since(&storage, 150).unwrap();
    assert_eq!(since.len(), 1);
    assert_eq!(since[0].id, "msg2");
    assert_eq!(FetchMessagesUseCase::execute_since(&storage, 0).unwrap().len(), 2);
    assert_eq!(ChatService::fetch_all_messages(&BrokenStorage).unwrap_err(), "unreadable");
    assert_eq!(FetchMessagesUseCase::execute_last(&BrokenStorage, 3).unwrap_err(), "unreadable");
}

#[test]
fn fetch_messages_use_case_test_fetch_all_messages() {
    let storage = MockStorage::new();
    storage.add_message(
        Message::with_id_timestamp("alice".to_string(), "Hello".to_string(), "msg1".to_string(), 100).unwrap()
    );
    storage.add_message(
        Message::with_id_timestamp("bob".to_string(), "Hi".to_string(), "msg2".to_string(), 200).unwrap()
    );

    let messages = FetchMessagesUseCase::execute_all(&storage).unwrap();
    assert_eq!(messages.len(), 2);
}

#[test]
fn test_fetch_last_messages() {
    let storage = MockStorage::new();
    storage.add_message(
        Message::with_id_timestamp("alice".to_string(), "Hello".to_string(), "msg1".to_string(), 100).unwrap()
    );
    storage.add_message(
        Message::with_id_timestamp("bob".to_string(), "Hi".to_string(), "msg2".to_string(), 200).unwrap()
    );
    storage.add_message(
        Message::with_id_timestamp("charlie".to_string(), "Hey".to_string(), "msg3".to_string(), 300).unwrap()
    );

    let messages = FetchMessagesUseCase::execute_last(&storage, 2).unwrap();
    assert_eq!(messages.len(), 2);
}

#[test]
fn test_send_message_use_case() {
    let storage = MockStorage::new();
    let result = SendMessageUseCase::execute(&storage, "alice", "Hello World");
    assert!(result.is_ok());

    let msg = result.unwrap();
    assert_eq!(msg.sender, "alice");
    assert_eq!(msg.content, "Hello World");
}

#[test]
fn test_analyze_with_files_and_directories() {
    let mock = MockFileSystem::new(10, 5);
    let result = PathAnalyzerService::analyze(&mock, "/test/path");

    assert!(result.is_ok());
    let stats = result.unwrap();
    assert_eq!(stats.path, "/test/path");
    assert_eq!(stats.files, 10);
    assert_eq!(stats.directories, 5);
    assert_eq!(stats.total(), 15);
}

#[test]
fn test_analyze_empty_directory() {
    let mock = MockFileSystem::new(0, 0);
    let result = PathAnalyzerService::analyze(&mock, "/empty");

    assert!(result.is_ok());
    let stats = result.unwrap();
    assert_eq!(stats.files, 0);
    assert_eq!(stats.directories, 0);
    assert_eq!(stats.total(), 0);
}

#[test]
fn test_analyze_only_files() {
    let mock = MockFileSystem::new(42, 0);
    let result = PathAnalyzerService::analyze(&mock, "/documents");

    assert!(result.is_ok());
    let stats = result.unwrap();
    assert_eq!(stats.files, 42);
    assert_eq!(stats.directories, 0);
    assert_eq!(stats.total(), 42);
}

#[test]
fn test_analyze_only_directories() {
    let mock = MockFileSystem::new(0, 8);
    let result = PathAnalyzerService::analyze(&mock, "/folders");

    assert!(result.is_ok());
    let stats = result.unwrap();
    assert_eq!(stats.files, 0);
    assert_eq!(stats.directories, 8);
    assert_eq!(stats.total(), 8);
}

#[test]
fn test_analyze_with_error() {
    let mock = MockFileSystem::with_error();
    let result = PathAnalyzerService::analyze(&mock, "/nonexistent");

    assert!(result.is_err());
    assert_eq!(
        result.unwrap_err(),
        "Simulated error: path not found".to_string()
    );
}

#[test]
fn test_path_stats_total() {
    let stats = PathStats::new("/test".to_string(), 15, 3);
    assert_eq!(stats.total(), 18);
}

#[test]
fn analyze_use_case_reports_the_port() {
    let stats = AnalyzePathUseCase::execute(&MockFileSystem::new(3, 4), "/p").unwrap();
    assert_eq!((stats.path.as_str(), stats.files, stats.directories), ("/p", 3, 4));
    assert!(AnalyzePathUseCase::execute(&MockFileSystem::with_error(), "/p").is_err());
}

#[test]
fn send_message_at_stamps_the_given_reading() {
    let storage = MockStorage::new();
    let m = ChatService::send_message_at(&storage, "alice", "Hello", 1774139258).unwrap();
    assert_eq!(m.id, "alice-1774139258");
    assert_eq!(m.sender, "alice");
    assert_eq!(m.content, "Hello");
    assert_eq!(m.timestamp, 1774139258);
    assert_eq!(storage.get_all_messages().unwrap(), vec![m]);
    assert_eq!(
        ChatService::send_message_at(&storage, " ", "Hello", 5).unwrap_err(),
        "Sender cannot be empty"
    );
    assert_eq!(
        ChatService::send_message_at(&storage, "bob", "\t", 5).unwrap_err(),
        "Content cannot be empty"
    );
    assert_eq!(storage.get_all_messages().unwrap().len(), 1);
    assert_eq!(ChatService::send_message_at(&BrokenStorage, "bob", "hi", 5).unwrap_err(), "disk full");
}

#[test]
fn use_case_answers_as_the_service() {
    let storage = MockStorage::new();
    let by_case = SendMessageUseCase::execute(&storage, "carol", "Hi").unwrap();
    let by_service = ChatService::send_message(&storage, "carol", "Hi").unwrap();
    assert_eq!(by_case.sender, by_service.sender);
    assert_eq!(by_case.content, by_service.content);
    assert!(by_case.id.starts_with("carol-"));
    assert_eq!(
        SendMessageUseCase::execute(&storage, "", "Hi").unwrap_err(),
        ChatService::send_message(&storage, "", "Hi").unwrap_err()
    );
    assert_eq!(
        SendMessageUseCase::execute(&BrokenStorage, "a", "b").unwrap_err(),
        ChatService::send_message(&BrokenStorage, "a", "b").unwrap_err()
    );
}
