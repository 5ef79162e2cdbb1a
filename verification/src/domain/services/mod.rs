pub mod chat_service;
pub mod path_analyzer;
