pub mod file_system_port;
pub mod message_storage_port;
pub mod server_connection_port;
