//! What goes between the stream and the session.
use vstd::prelude::*;
use crate::model::command::SmtpCommand;
use crate::model::response::SmtpReply;
use crate::model::text::{push_str, text_of};

verus! {

/// The instructions for the client side of the stream.
#[derive(Debug, Clone, PartialEq, Eq)]
pub enum WriteControl {
    /// The stream should be shut down.
    Shutdown,
    /// The codec should start reading mail data.
    StartData,
    /// The stream should switch to TLS.
    StartTls,
    /// An SMTP reply to send.
    Reply(SmtpReply),
    /// Something got done, but we should be called again.
    NoOp,
}

/// The instructions for the server side of the stream.
#[derive(Debug, Clone, PartialEq, Eq)]
pub enum ReadControl {
    /// A peer connected.
    PeerConnected(Connection),
    /// The peer disconnected.
    PeerShutdown,
    /// An SMTP command line.
    Command(SmtpCommand),
    /// Raw input that could not be understood.
    Raw(Vec<u8>),
    /// Mail data without the signalling dots.
    MailDataChunk(Vec<u8>),
    /// The terminating dot (. CR LF), part of the signalling and not of
    /// the data.
    EndOfMailData(Vec<u8>),
    /// The escape dot, part of the signalling and not of the data.
    EscapeDot(Vec<u8>),
    /// No control came in the given interval.
    NoOp,
}

/// The two ends of a connection, by address.
#[derive(Debug, Clone, PartialEq, Eq)]
pub struct Connection {
    pub local_addr: Option<String>,
    pub peer_addr: Option<String>,
}

/// An address, or `Unknown` where there is none.
pub open spec fn addr_text(a: Option<String>) -> Seq<char> {
    match a {
        Some(t) => t@,
        None => "Unknown"@,
    }
}

impl Connection {
    /// The peer, an arrow and the local end: `peer -> local`.
    pub fn to_string(&self) -> (r: String)
        ensures
            r@ == addr_text(self.peer_addr) + " -> "@ + addr_text(self.local_addr),
    {
        let mut s = match &self.peer_addr {
            Some(a) => text_of(a.as_str()),
            None => text_of("Unknown"),
        };
        push_str(&mut s, " -> ");
        match &self.local_addr {
            Some(a) => push_str(&mut s, a.as_str()),
            None => push_str(&mut s, "Unknown"),
        }
        s
    }
}

} // verus!
