pub mod input;
pub mod output;
