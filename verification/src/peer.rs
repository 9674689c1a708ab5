use vstd::prelude::*;

verus! {

/// The name of the request/response protocol peers speak.
#[derive(Debug, Clone)]
pub struct MyProtocol();

/// The byte-level codec for peer requests and responses.
#[derive(Clone)]
pub struct MyCodec();

/// A raw request frame sent to a peer.
#[derive(Debug, Clone, PartialEq, Eq)]
pub struct MyRequest(pub Vec<u8>);

/// A raw response frame received from a peer.
#[derive(Debug, Clone, PartialEq, Eq)]
pub struct MyResponse(pub Vec<u8>);

/// The envelope peers exchange: an identity announcement, a command to
/// run, and their acknowledgments. A received command is executed
/// exactly as if it had been typed locally.
#[derive(Debug, Clone)]
pub enum Message {
    Identity { name: String },
    IdentityAck { ack: bool },
    Command { command: String },
    CommandAck { ack: bool },
}

} // verus!
