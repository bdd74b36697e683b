//! Transports that hand out a first frame, the connection, before what the
//! upstream reads.
use vstd::prelude::*;
use crate::model::command::{SmtpConnection, SmtpInput, SpecConnection, SpecInput};

verus! {

/// A transport that hands out one frame of its own before the frames of
/// its upstream.
pub struct InitFrameTransport<TT, TRequest> {
    initframe: Option<TRequest>,
    upstream: TT,
}

impl<TT, TRequest> InitFrameTransport<TT, TRequest> {
    /// The frame still to be handed out first, if any.
    pub closed spec fn pending(&self) -> Option<TRequest> {
        self.initframe
    }

    pub closed spec fn source(&self) -> TT {
        self.upstream
    }

    pub fn new(upstream: TT, initframe: TRequest) -> (r: Self)
        ensures
            r.pending() == Some(initframe),
            r.source() == upstream,
    {
        Self { upstream, initframe: Some(initframe) }
    }

    /// The first frame, once; after it, `None` says that the upstream is
    /// to be polled.
    pub fn next_frame(&mut self) -> (r: Option<TRequest>)
        ensures
            r == old(self).pending(),
            final(self).pending() is None,
            final(self).source() == old(self).source(),
    {
        self.initframe.take()
    }

    /// The upstream, where frames and replies go once the first frame is out.
    pub fn upstream(&self) -> (r: &TT)
        ensures
            *r == self.source(),
    {
        &self.upstream
    }

    /// The upstream, to poll it and to send replies into it.
    pub fn upstream_mut(&mut self) -> (r: &mut TT)
        ensures
            *r == old(self).source(),
            final(self).source() == *final(r),
            final(self).pending() == old(self).pending(),
    {
        &mut self.upstream
    }
}

/// The transport of a connection: the connection itself is the first item.
pub struct SmtpConnectTransport<TT> {
    initframe: Option<SmtpInput>,
    upstream: TT,
}

impl<TT> SmtpConnectTransport<TT> {
    pub closed spec fn pending(&self) -> Option<SpecInput> {
        match self.initframe {
            Some(i) => Some(i@),
            None => None,
        }
    }

    pub closed spec fn source(&self) -> TT {
        self.upstream
    }

    pub fn new(upstream: TT, initframe: SmtpInput) -> (r: Self)
        ensures
            r.pending() == Some(initframe@),
            r.source() == upstream,
    {
        Self { upstream, initframe: Some(initframe) }
    }

    /// The connection frame, once; after it, `None` says that the upstream
    /// is to be polled.
    pub fn next_frame(&mut self) -> (r: Option<SmtpInput>)
        ensures
            match r {
                Some(i) => old(self).pending() == Some(i@),
                None => old(self).pending() is None,
            },
            final(self).pending() is None,
            final(self).source() == old(self).source(),
    {
        self.initframe.take()
    }

    pub fn upstream(&self) -> (r: &TT)
        ensures
            *r == self.source(),
    {
        &self.upstream
    }

    /// The upstream, to poll it and to send replies into it.
    pub fn upstream_mut(&mut self) -> (r: &mut TT)
        ensures
            *r == old(self).source(),
            final(self).source() == *final(r),
            final(self).pending() == old(self).pending(),
    {
        &mut self.upstream
    }
}

/// The first frame of a connection: who is at either end.
pub fn connect_frame(local_addr: Option<String>, peer_addr: Option<String>) -> (r: SmtpInput)
    ensures
        r@ == SpecInput::Connect(SpecConnection {
            local_name: Seq::empty(),
            local_addr: crate::model::command::opt_text(local_addr),
            peer_addr: crate::model::command::opt_text(peer_addr),
        }),
{
    let r = SmtpInput::Connect(SmtpConnection { local_name: String::new(), local_addr, peer_addr });
    r
}

/// The SMTP protocol over a byte stream with the codec.
#[derive(Debug, Clone, Copy, PartialEq, Eq)]
pub struct SmtpProto;

/// The SMTP protocol that hands out the connection first.
#[derive(Debug, Clone, Copy, PartialEq, Eq)]
pub struct SmtpBaseProto;

impl SmtpBaseProto {
    /// The transport over a framed connection: the connection frame first,
    /// then what the upstream reads.
    pub fn bind_transport<TT>(&self, upstream: TT, local_addr: Option<String>, peer_addr: Option<String>) -> (r:
        InitFrameTransport<TT, SmtpInput>)
        ensures
            r.source() == upstream,
            r.pending() matches Some(f) && f@ == SpecInput::Connect(SpecConnection {
                local_name: Seq::empty(),
                local_addr: crate::model::command::opt_text(local_addr),
                peer_addr: crate::model::command::opt_text(peer_addr),
            }),
    {
        InitFrameTransport::new(upstream, connect_frame(local_addr, peer_addr))
    }
}

impl SmtpProto {
    /// The transport over a framed connection: the connection frame first,
    /// then what the upstream reads.
    pub fn bind_transport<TT>(&self, upstream: TT, local_addr: Option<String>, peer_addr: Option<String>) -> (r:
        SmtpConnectTransport<TT>)
        ensures
            r.source() == upstream,
            r.pending() == Some(SpecInput::Connect(SpecConnection {
                local_name: Seq::empty(),
                local_addr: crate::model::command::opt_text(local_addr),
                peer_addr: crate::model::command::opt_text(peer_addr),
            })),
    {
        SmtpConnectTransport::new(upstream, connect_frame(local_addr, peer_addr))
    }
}

} // verus!
