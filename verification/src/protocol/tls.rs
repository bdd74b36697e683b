//! A connection that may switch to TLS on the way: plain text, ready to
//! switch, in the handshake, encrypted, or failed.
use vstd::prelude::*;

verus! {

/// Why a switch to TLS did not happen.
#[derive(Debug, Clone, Copy, PartialEq, Eq, Structural)]
pub enum TlsError {
    /// TLS is not enabled on this connection.
    NotEnabled,
    /// A handshake is already going on.
    HandshakeInProgress,
    /// TLS is already on.
    AlreadyOn,
    /// An earlier attempt failed.
    SetupFailed,
}

/// Something that can switch to TLS.
pub trait TlsCapableIO {
    fn start_tls(&mut self) -> Result<(), TlsError>;
}

/// How far a handshake has come.
pub enum Handshake<H, S, E> {
    /// Not yet done: the handshake goes on.
    Pending(H),
    /// Done: the encrypted stream.
    Done(S),
    /// Failed, for this reason.
    Failed(E),
}

/// What polling the TLS setup gives.
#[derive(Debug)]
pub enum TlsPoll<E> {
    /// The connection can be used.
    Ready,
    /// The handshake is not done yet.
    Pending,
    /// The handshake failed, for this reason.
    HandshakeFailed(E),
    /// The connection failed earlier.
    Failed,
}

/// A connection over `IO`, with an acceptor `A` that makes a handshake `H`
/// which ends in an encrypted stream `S`.
pub enum TlsCapable<IO, A, H, S> {
    PlainText(IO),
    Enabled(IO, A),
    HandShake(H),
    Encrypted(S),
    Failed,
}

impl<IO, A, H, S> TlsCapable<IO, A, H, S> {
    /// Plain text where there is no acceptor, ready to switch where there is.
    pub fn new(io: IO, acceptor: Option<A>) -> (r: Self)
        ensures
            match acceptor {
                None => r == TlsCapable::<IO, A, H, S>::PlainText(io),
                Some(a) => r == TlsCapable::<IO, A, H, S>::Enabled(io, a),
            },
    {
        match acceptor {
            None => TlsCapable::PlainText(io),
            Some(acceptor) => TlsCapable::Enabled(io, acceptor),
        }
    }

    /// Starts the handshake with `accept`, where TLS is enabled. Any other
    /// connection is told why not, and is failed from then on.
    pub fn start_tls<F: FnOnce(IO, A) -> H>(&mut self, accept: F) -> (r: Result<(), TlsError>)
        requires
            forall|io: IO, a: A| call_requires(accept, (io, a)),
        ensures
            match *old(self) {
                TlsCapable::Enabled(io, a) => r is Ok && (*final(self) matches TlsCapable::HandShake(h)
                    && call_ensures(accept, (io, a), h)),
                TlsCapable::PlainText(_) => r == Err::<(), TlsError>(TlsError::NotEnabled) && *final(self) is Failed,
                TlsCapable::HandShake(_) => r == Err::<(), TlsError>(TlsError::HandshakeInProgress) && *final(self) is Failed,
                TlsCapable::Encrypted(_) => r == Err::<(), TlsError>(TlsError::AlreadyOn) && *final(self) is Failed,
                TlsCapable::Failed => r == Err::<(), TlsError>(TlsError::SetupFailed) && *final(self) is Failed,
            },
    {
        let mut current = TlsCapable::Failed;
        std::mem::swap(&mut current, self);
        match current {
            TlsCapable::PlainText(_) => Err(TlsError::NotEnabled),
            TlsCapable::Enabled(io, acceptor) => {
                *self = TlsCapable::HandShake(accept(io, acceptor));
                Ok(())
            },
            TlsCapable::HandShake(_) => Err(TlsError::HandshakeInProgress),
            TlsCapable::Encrypted(_) => Err(TlsError::AlreadyOn),
            TlsCapable::Failed => Err(TlsError::SetupFailed),
        }
    }

    /// Moves the handshake on with `poll`, where there is one: a finished
    /// handshake makes the connection encrypted, a failed one makes it
    /// failed. Any other connection is ready, but a failed one.
    pub fn poll_tls<E, F: FnOnce(H) -> Handshake<H, S, E>>(&mut self, poll: F) -> (r: TlsPoll<E>)
        requires
            forall|h: H| call_requires(poll, (h,)),
        ensures
            match *old(self) {
                TlsCapable::HandShake(h) => exists|p: Handshake<H, S, E>| call_ensures(poll, (h,), p) && match p {
                    Handshake::Pending(h2) => r is Pending && *final(self) == TlsCapable::<IO, A, H, S>::HandShake(h2),
                    Handshake::Done(s) => r is Ready && *final(self) == TlsCapable::<IO, A, H, S>::Encrypted(s),
                    Handshake::Failed(e) => r == TlsPoll::HandshakeFailed(e) && *final(self) is Failed,
                },
                TlsCapable::Failed => r is Failed && *final(self) is Failed,
                _ => r is Ready && *final(self) == *old(self),
            },
    {
        let mut current = TlsCapable::Failed;
        std::mem::swap(&mut current, self);
        match current {
            TlsCapable::HandShake(handshake) => match poll(handshake) {
                Handshake::Failed(e) => {
                    *self = TlsCapable::Failed;
                    TlsPoll::HandshakeFailed(e)
                },
                Handshake::Pending(h) => {
                    *self = TlsCapable::HandShake(h);
                    TlsPoll::Pending
                },
                Handshake::Done(stream) => {
                    *self = TlsCapable::Encrypted(stream);
                    TlsPoll::Ready
                },
            },
            TlsCapable::Failed => TlsPoll::Failed,
            other => {
                *self = other;
                TlsPoll::Ready
            },
        }
    }
}

} // verus!
