pub mod file_system;
pub mod json_storage;
pub mod tcp_connection;
