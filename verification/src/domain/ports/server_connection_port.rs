//! Port: the connection between chat server and client.
use crate::domain::models::message::Message;
use vstd::prelude::*;

verus! {

/// A server-client connection, implemented by adapters.
pub trait ServerConnectionPort {
    /// Opens the server on `port`.
    fn start_server(&self, port: u16) -> Result<(), String>;

    /// Sends a message over the connection.
    fn send_message(&self, message: &Message) -> Result<(), String>;

    /// Receives a message from the connection.
    fn receive_message(&self) -> Result<Message, String>;

    /// Closes the connection.
    fn close(&self) -> Result<(), String>;
}

} // verus!
