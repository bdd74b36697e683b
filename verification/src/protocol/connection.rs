//! A stream of read controls that starts with the connection and ends with
//! the peer shutting down.
use vstd::prelude::*;
use crate::model::command::opt_text;
use crate::model::io::{Connection, ReadControl};

verus! {

/// The stream, the connection, and how far it has come.
pub struct WithConnection<S> {
    stream: S,
    connection: Connection,
    connected: bool,
    shutdown: bool,
}

pub open spec fn connection_view(c: Connection) -> (Option<Seq<char>>, Option<Seq<char>>) {
    (opt_text(c.local_addr), opt_text(c.peer_addr))
}

fn copy_connection(c: &Connection) -> (r: Connection)
    ensures
        connection_view(r) == connection_view(*c),
{
    Connection { local_addr: c.local_addr.clone(), peer_addr: c.peer_addr.clone() }
}

/// What the stream gives on one pass: an item, or its end.
pub open spec fn pass_step(shutdown: bool, item: Option<ReadControl>) -> (Option<ReadControl>, bool) {
    match item {
        Some(c) => (Some(c), shutdown),
        None => if shutdown {
            (None, true)
        } else {
            (Some(ReadControl::PeerShutdown), true)
        },
    }
}

/// What one poll gives.
pub enum Polled {
    /// The connection, announced without taking an item from the stream.
    Connected,
    /// What the stream gave, passed on.
    Passed(Option<ReadControl>),
}

/// A run of polls over what the stream gives: the connection first, then
/// each item through `pass_step`.
pub open spec fn poll_run(connected: bool, shutdown: bool, stream: Seq<Option<ReadControl>>, n: nat) -> Seq<Polled>
    decreases n,
{
    if n == 0 {
        Seq::empty()
    } else if !connected {
        seq![Polled::Connected] + poll_run(true, shutdown, stream, (n - 1) as nat)
    } else if stream.len() == 0 {
        Seq::empty()
    } else {
        let (out, sd) = pass_step(shutdown, stream[0]);
        seq![Polled::Passed(out)] + poll_run(true, sd, stream.drop_first(), (n - 1) as nat)
    }
}

/// A stream that gives its items and then keeps ending.
pub open spec fn fused(items: Seq<ReadControl>, ends: nat) -> Seq<Option<ReadControl>> {
    items.map_values(|c: ReadControl| Some(c)) + Seq::new(ends, |i: int| None::<ReadControl>)
}

proof fn lemma_ends_run(shutdown: bool, ends: nat)
    requires
        ends > 0,
    ensures
        poll_run(true, shutdown, Seq::new(ends, |i: int| None::<ReadControl>), ends) == (if shutdown {
            Seq::new(ends, |i: int| Polled::Passed(None))
        } else {
            seq![Polled::Passed(Some(ReadControl::PeerShutdown))] + Seq::new((ends - 1) as nat, |i: int| Polled::Passed(None))
        }),
    decreases ends,
{
    let st = Seq::new(ends, |i: int| None::<ReadControl>);
    assert(st.drop_first() =~= Seq::new((ends - 1) as nat, |i: int| None::<ReadControl>));
    if ends == 1 {
        assert(poll_run(true, true, st.drop_first(), 0) == Seq::<Polled>::empty());
        if shutdown {
            assert(poll_run(true, shutdown, st, ends) =~= Seq::new(ends, |i: int| Polled::Passed(None)));
        } else {
            assert(poll_run(true, shutdown, st, ends) =~= seq![Polled::Passed(Some(ReadControl::PeerShutdown))]
                + Seq::new((ends - 1) as nat, |i: int| Polled::Passed(None)));
        }
    } else {
        lemma_ends_run(true, (ends - 1) as nat);
        if shutdown {
            assert(poll_run(true, shutdown, st, ends) =~= Seq::new(ends, |i: int| Polled::Passed(None)));
        } else {
            assert(poll_run(true, shutdown, st, ends) =~= seq![Polled::Passed(Some(ReadControl::PeerShutdown))]
                + Seq::new((ends - 1) as nat, |i: int| Polled::Passed(None)));
        }
    }
}

proof fn lemma_items_run(items: Seq<ReadControl>, ends: nat)
    requires
        ends > 0,
    ensures
        poll_run(true, false, fused(items, ends), items.len() + ends) == items.map_values(|c: ReadControl| Polled::Passed(Some(c)))
            + seq![Polled::Passed(Some(ReadControl::PeerShutdown))]
            + Seq::new((ends - 1) as nat, |i: int| Polled::Passed(None)),
    decreases items.len(),
{
    let nones = Seq::new(ends, |i: int| None::<ReadControl>);
    if items.len() == 0 {
        assert(fused(items, ends) =~= nones);
        lemma_ends_run(false, ends);
        assert(items.map_values(|c: ReadControl| Polled::Passed(Some(c))) =~= Seq::<Polled>::empty());
        assert(poll_run(true, false, fused(items, ends), items.len() + ends) =~= items.map_values(|c: ReadControl| Polled::Passed(Some(c)))
            + seq![Polled::Passed(Some(ReadControl::PeerShutdown))]
            + Seq::new((ends - 1) as nat, |i: int| Polled::Passed(None)));
    } else {
        let rest = items.drop_first();
        lemma_items_run(rest, ends);
        assert(fused(items, ends).drop_first() =~= fused(rest, ends));
        assert(fused(items, ends)[0] == Some(items[0]));
        assert(items.map_values(|c: ReadControl| Polled::Passed(Some(c))) =~= seq![Polled::Passed(Some(items[0]))]
            + rest.map_values(|c: ReadControl| Polled::Passed(Some(c))));
        assert(poll_run(true, false, fused(items, ends), items.len() + ends) =~= items.map_values(|c: ReadControl| Polled::Passed(Some(c)))
            + seq![Polled::Passed(Some(ReadControl::PeerShutdown))]
            + Seq::new((ends - 1) as nat, |i: int| Polled::Passed(None)));
    }
}

/// Over a whole connection: a new stream of read controls first announces
/// the connection, without taking an item, then passes the stream's items
/// on in order, then announces the peer's shutdown once where the stream
/// ends, and from then on ends.
pub proof fn lemma_connection_run(items: Seq<ReadControl>, ends: nat)
    requires
        ends > 0,
    ensures
        poll_run(false, false, fused(items, ends), 1 + items.len() + ends) == seq![Polled::Connected]
            + items.map_values(|c: ReadControl| Polled::Passed(Some(c)))
            + seq![Polled::Passed(Some(ReadControl::PeerShutdown))]
            + Seq::new((ends - 1) as nat, |i: int| Polled::Passed(None)),
{
    lemma_items_run(items, ends);
    assert(((1 + items.len() + ends) - 1) as nat == items.len() + ends);
    assert(poll_run(false, false, fused(items, ends), 1 + items.len() + ends) =~= seq![Polled::Connected]
        + items.map_values(|c: ReadControl| Polled::Passed(Some(c)))
        + seq![Polled::Passed(Some(ReadControl::PeerShutdown))]
        + Seq::new((ends - 1) as nat, |i: int| Polled::Passed(None)));
}

impl<S> WithConnection<S> {
    pub closed spec fn is_connected(&self) -> bool {
        self.connected
    }

    pub closed spec fn is_shut_down(&self) -> bool {
        self.shutdown
    }

    pub closed spec fn ends(&self) -> (Option<Seq<char>>, Option<Seq<char>>) {
        connection_view(self.connection)
    }

    pub fn new(stream: S, connection: Connection) -> (r: Self)
        ensures
            !r.is_connected(),
            !r.is_shut_down(),
            r.ends() == connection_view(connection),
    {
        WithConnection { stream, connection, connected: false, shutdown: false }
    }

    /// The connection, the first time; after it, `None` says the stream is
    /// to be polled.
    pub fn connect(&mut self) -> (r: Option<ReadControl>)
        ensures
            final(self).is_connected(),
            final(self).is_shut_down() == old(self).is_shut_down(),
            final(self).ends() == old(self).ends(),
            old(self).is_connected() ==> r is None,
            !old(self).is_connected() ==> (r matches Some(ReadControl::PeerConnected(c))
                && connection_view(c) == old(self).ends()),
    {
        if !self.connected {
            self.connected = true;
            return Some(ReadControl::PeerConnected(copy_connection(&self.connection)));
        }
        None
    }

    /// Passes on what the stream gave; its end is announced once as the
    /// peer shutting down.
    pub fn pass(&mut self, item: Option<ReadControl>) -> (r: Option<ReadControl>)
        ensures
            (r, final(self).is_shut_down()) == pass_step(old(self).is_shut_down(), item),
            final(self).is_connected() == old(self).is_connected(),
            final(self).ends() == old(self).ends(),
            match item {
                Some(c) => r == Some(c) && final(self).is_shut_down() == old(self).is_shut_down(),
                None => final(self).is_shut_down() && if old(self).is_shut_down() {
                    r is None
                } else {
                    r == Some(ReadControl::PeerShutdown)
                },
            },
    {
        match item {
            None => {
                if self.shutdown {
                    None
                } else {
                    self.shutdown = true;
                    Some(ReadControl::PeerShutdown)
                }
            },
            Some(c) => Some(c),
        }
    }
}

} // verus!
