pub mod conversation;
pub mod message;
pub mod path_stats;
pub mod user;
