//! What connection handlers and the world say to each other.

pub mod ssh_server;
pub mod telnet_server;

use vstd::prelude::*;

verus! {

/// Identifies a client connection.
pub type ClientId = usize;

/// The bytes of one message.
pub type Data = Vec<u8>;

/// A command from a connection handler to the world. `H` is the session of
/// the client: whatever the transport needs to send bytes to that client
/// later. The world keeps it with the player and never looks inside.
#[derive(Clone, Debug)]
pub enum Command<H> {
    /// Registers a new client, its user name and its session.
    Register(ClientId, String, H),
    /// The client wants to end its session.
    Hangup(ClientId),
}

/// A line of input that a client sent.
#[derive(Clone, Debug)]
pub struct DataMessage {
    pub client_id: ClientId,
    pub data: Data,
}

impl DataMessage {
    /// Creates a data message.
    pub fn new(client_id: ClientId, data: Data) -> (message: DataMessage)
        ensures
            message.client_id == client_id,
            message.data == data,
    {
        DataMessage { client_id, data }
    }
}

} // verus!
