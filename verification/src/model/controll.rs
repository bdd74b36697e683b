//! The controls that pass between the byte stream and the session.
use vstd::prelude::*;
use crate::model::command::{SmtpCommand, SpecCommand, opt_text};
use crate::model::response::{SmtpReply, SpecReply};

verus! {

/// Instructions towards the server side of the stream.
#[derive(Debug, Clone, PartialEq, Eq)]
pub enum ServerControll {
    /// A peer connected; the socket addresses as text.
    PeerConnected { local: Option<String>, peer: Option<String> },
    /// The peer disconnected.
    PeerShutdown,
    /// An SMTP command line.
    Command(SmtpCommand),
    /// Raw input that could not be understood.
    Invalid(Vec<u8>),
    /// Mail data without the signalling dots.
    DataChunk(Vec<u8>),
    /// The data terminating line (dot CR LF), part of the protocol and not of the data.
    FinalDot(Vec<u8>),
    /// An escaping dot, part of the protocol and not of the data.
    EscapeDot(Vec<u8>),
    /// The stream source asks whether a DATA command switches it to mail data.
    ConfirmSwitchToData,
}

/// Instructions towards the client side of the stream.
#[derive(Debug, Clone, PartialEq, Eq)]
pub enum ClientControll {
    /// The stream should be shut down.
    Shutdown,
    /// The stream should read mail data next.
    AcceptData,
    /// The mail that was read should be queued.
    QueueMail,
    /// An SMTP reply should be sent.
    Reply(SmtpReply),
    /// Something got done, but we should call back again.
    Noop,
}

pub enum SpecServerControll {
    PeerConnected { local: Option<Seq<char>>, peer: Option<Seq<char>> },
    PeerShutdown,
    Command(SpecCommand),
    Invalid(Seq<u8>),
    DataChunk(Seq<u8>),
    FinalDot(Seq<u8>),
    EscapeDot(Seq<u8>),
    ConfirmSwitchToData,
}

pub enum SpecClientControll {
    Shutdown,
    AcceptData,
    QueueMail,
    Reply(SpecReply),
    Noop,
}

impl View for ServerControll {
    type V = SpecServerControll;

    open spec fn view(&self) -> SpecServerControll {
        match self {
            ServerControll::PeerConnected { local, peer } => SpecServerControll::PeerConnected {
                local: opt_text(*local),
                peer: opt_text(*peer),
            },
            ServerControll::PeerShutdown => SpecServerControll::PeerShutdown,
            ServerControll::Command(c) => SpecServerControll::Command(c@),
            ServerControll::Invalid(b) => SpecServerControll::Invalid(b@),
            ServerControll::DataChunk(b) => SpecServerControll::DataChunk(b@),
            ServerControll::FinalDot(b) => SpecServerControll::FinalDot(b@),
            ServerControll::EscapeDot(b) => SpecServerControll::EscapeDot(b@),
            ServerControll::ConfirmSwitchToData => SpecServerControll::ConfirmSwitchToData,
        }
    }
}

impl View for ClientControll {
    type V = SpecClientControll;

    open spec fn view(&self) -> SpecClientControll {
        match self {
            ClientControll::Shutdown => SpecClientControll::Shutdown,
            ClientControll::AcceptData => SpecClientControll::AcceptData,
            ClientControll::QueueMail => SpecClientControll::QueueMail,
            ClientControll::Reply(r) => SpecClientControll::Reply(r@),
            ClientControll::Noop => SpecClientControll::Noop,
        }
    }
}

impl DeepView for ClientControll {
    type V = SpecClientControll;

    open spec fn deep_view(&self) -> SpecClientControll {
        self@
    }
}

} // verus!
