pub mod analyze_path;
pub mod fetch_messages_use_case;
pub mod send_message_use_case;
