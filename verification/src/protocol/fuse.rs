//! A stream of client controls that ends after the shutdown.
use vstd::prelude::*;
use crate::model::controll::{ClientControll, SpecClientControll};

verus! {

/// The stream, and whether the shutdown has passed.
pub struct Fuse<S> {
    stream: S,
    trip: bool,
}

impl<S> Fuse<S> {
    pub closed spec fn tripped(&self) -> bool {
        self.trip
    }

    pub closed spec fn source(&self) -> S {
        self.stream
    }

    pub fn new(stream: S) -> (r: Self)
        ensures
            !r.tripped(),
            r.source() == stream,
    {
        Fuse { stream, trip: false }
    }

    /// Whether the stream has ended here; it is then not polled again.
    pub fn is_tripped(&self) -> (r: bool)
        ensures
            r == self.tripped(),
    {
        self.trip
    }

    /// Passes on what the stream gave; a shutdown trips the fuse.
    pub fn pass(&mut self, item: Option<ClientControll>) -> (r: Option<ClientControll>)
        requires
            !old(self).tripped(),
        ensures
            r == item,
            final(self).tripped() == (item matches Some(c) && c@ == SpecClientControll::Shutdown),
            final(self).source() == old(self).source(),
    {
        match item {
            None => None,
            Some(ClientControll::Shutdown) => {
                self.trip = true;
                Some(ClientControll::Shutdown)
            },
            Some(c) => Some(c),
        }
    }
}

} // verus!
