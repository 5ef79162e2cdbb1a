//! A small chat system: messages, users and conversations, the ports through
//! which they are stored and sent, and the command and request handling of
//! its command-line and HTTP adapters.
pub mod adapters;
pub mod application;
pub mod clock;
pub mod domain;
pub mod text;
