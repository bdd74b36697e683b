//! A stream passed through a junction: its items are forwarded into the
//! junction and the items of the junction come out.
use vstd::prelude::*;

verus! {

/// The forwarding into the junction, while it goes on, and the stream of
/// the junction's items.
#[derive(Debug)]
pub struct ThroughStream<F, O> {
    forward: Option<F>,
    outbound: O,
}

impl<F, O> ThroughStream<F, O> {
    pub closed spec fn forwarding(&self) -> Option<F> {
        self.forward
    }

    pub closed spec fn outbound_stream(&self) -> O {
        self.outbound
    }

    pub fn new(forward: F, outbound: O) -> (r: Self)
        ensures
            r.forwarding() == Some(forward),
            r.outbound_stream() == outbound,
    {
        ThroughStream { forward: Some(forward), outbound }
    }

    /// Whether items are still being forwarded.
    pub fn is_forwarding(&self) -> (r: bool)
        ensures
            r == self.forwarding() is Some,
    {
        self.forward.is_some()
    }

    /// The forwarding has finished: it is dropped, and only the junction's
    /// stream is polled from now on.
    pub fn forward_finished(&mut self)
        ensures
            final(self).forwarding() is None,
            final(self).outbound_stream() == old(self).outbound_stream(),
    {
        self.forward = None;
    }
}

} // verus!
