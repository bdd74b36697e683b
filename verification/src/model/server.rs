//! A server: where it listens and what it serves.
use vstd::prelude::*;

verus! {

/// A server that serves `service` on the address `addr`.
#[derive(Debug, Clone)]
pub struct SamotopServer<S> {
    pub addr: String,
    pub service: S,
}

impl<S> SamotopServer<S> {
    pub fn new(addr: String, service: S) -> (r: Self)
        ensures
            r.addr == addr,
            r.service == service,
    {
        SamotopServer { addr, service }
    }
}

} // verus!
