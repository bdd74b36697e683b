//! A stream of server controls that starts with the peer connecting and
//! ends with it shutting down.
use vstd::prelude::*;
use crate::model::command::opt_text;
use crate::model::controll::{ServerControll, SpecServerControll};

verus! {

/// The stream, the two ends, and how far the connection has come.
pub struct WithPeer<S> {
    stream: S,
    local: Option<String>,
    peer: Option<String>,
    connected: bool,
    shutdown: bool,
}

impl<S> WithPeer<S> {
    pub closed spec fn is_connected(&self) -> bool {
        self.connected
    }

    pub closed spec fn is_shut_down(&self) -> bool {
        self.shutdown
    }

    pub closed spec fn ends(&self) -> (Option<Seq<char>>, Option<Seq<char>>) {
        (opt_text(self.local), opt_text(self.peer))
    }

    pub fn new(stream: S, local: Option<String>, peer: Option<String>) -> (r: Self)
        ensures
            !r.is_connected(),
            !r.is_shut_down(),
            r.ends() == (opt_text(local), opt_text(peer)),
    {
        WithPeer { stream, local, peer, connected: false, shutdown: false }
    }

    /// The connection, the first time; after it, `None` says the stream is
    /// to be polled.
    pub fn connect(&mut self) -> (r: Option<ServerControll>)
        ensures
            final(self).is_connected(),
            final(self).is_shut_down() == old(self).is_shut_down(),
            final(self).ends() == old(self).ends(),
            old(self).is_connected() ==> r is None,
            !old(self).is_connected() ==> (r matches Some(c) && c@ == SpecServerControll::PeerConnected {
                local: old(self).ends().0,
                peer: old(self).ends().1,
            }),
    {
        if !self.connected {
            self.connected = true;
            return Some(ServerControll::PeerConnected { local: self.local.clone(), peer: self.peer.clone() });
        }
        None
    }

    /// Passes on what the stream gave; its end is announced once as the
    /// peer shutting down.
    pub fn pass(&mut self, item: Option<ServerControll>) -> (r: Option<ServerControll>)
        ensures
            final(self).is_connected() == old(self).is_connected(),
            final(self).ends() == old(self).ends(),
            match item {
                Some(c) => r == Some(c) && final(self).is_shut_down() == old(self).is_shut_down(),
                None => final(self).is_shut_down() && if old(self).is_shut_down() {
                    r is None
                } else {
                    r matches Some(c) && c@ == SpecServerControll::PeerShutdown
                },
            },
    {
        match item {
            None => {
                if self.shutdown {
                    None
                } else {
                    self.shutdown = true;
                    Some(ServerControll::PeerShutdown)
                }
            },
            Some(c) => Some(c),
        }
    }
}

} // verus!
