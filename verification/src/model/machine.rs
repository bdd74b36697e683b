//! The SMTP machine: each state of a mail transaction is a type, and each
//! step queues the reply it owes the peer.
use vstd::prelude::*;
use crate::model::command::{SmtpConnection, SmtpHelo, SmtpMail, SmtpPath, SpecConnection, SpecHelo, helo_host, host_text};
use crate::model::response::{SmtpReply, SpecReply, fixed};
use crate::model::state::{Closed, Conn, Data, Helo, Mail, Rcpt, Session};
use crate::model::act;
use crate::model::text::text_of;

verus! {

/// The models of a list of replies.
pub open spec fn reply_views(v: Seq<SmtpReply>) -> Seq<SpecReply> {
    v.map_values(|r: SmtpReply| r@)
}

/// 250 Ok
pub open spec fn ok_info() -> SpecReply {
    fixed(250, "Ok"@)
}

/// 502 Command not implemented
pub open spec fn not_implemented() -> SpecReply {
    fixed(502, "Command not implemented"@)
}

/// 503 Bad sequence of commands
pub open spec fn bad_sequence() -> SpecReply {
    fixed(503, "Bad sequence of commands"@)
}

/// 221 Ciao!
pub open spec fn goodbye() -> SpecReply {
    fixed(221, "Ciao!"@ + " Service closing transmission channel"@)
}

/// 220 with the local name
pub open spec fn service_ready(c: SpecConnection) -> SpecReply {
    fixed(220, c.local_name + " Service ready"@)
}

/// 250 with the local name greeting the peer's host
pub open spec fn greeting(c: SpecConnection, h: SpecHelo) -> SpecReply {
    fixed(250, c.local_name + " greets "@ + host_text(helo_host(h)))
}

/// 354 Start mail input
pub open spec fn start_mail_input() -> SpecReply {
    fixed(354, "Start mail input, // end with <CRLF>.<CRLF>"@)
}

/// 554 Transaction failed
pub open spec fn transaction_failed() -> SpecReply {
    fixed(554, "Transaction failed"@)
}

/// 250 Ok
pub fn ok_reply() -> (r: SmtpReply)
    ensures
        r@ == ok_info(),
{
    let items: Vec<String> = Vec::new();
    let r = SmtpReply::OkInfo(String::new(), items);
    assert(items.deep_view() =~= Seq::<Seq<char>>::empty());
    r
}

/// A reply taken to be sent and put back because it could not be leaves
/// the replies owed as they were.
pub proof fn lemma_put_back_restores(owed: Seq<SpecReply>)
    requires
        owed.len() > 0,
    ensures
        seq![owed[0]] + owed.drop_first() == owed,
{
    assert(seq![owed[0]] + owed.drop_first() =~= owed);
}

/// The machine in a state, with the dispatch that carries its replies
/// and the replies not yet sent.
#[derive(Debug)]
pub struct SmtpMachine<S, D> {
    state: S,
    dispatch: D,
    replies: Vec<SmtpReply>,
}

/// `r` is `m` moved to `state`, owing one more reply.
pub open spec fn stepped<S, R, D>(r: SmtpMachine<R, D>, m: SmtpMachine<S, D>, state: R, reply: SpecReply) -> bool {
    &&& r.current() == state
    &&& r.dispatcher() == m.dispatcher()
    &&& r.owed() == m.owed().push(reply)
}

/// The machine's entry point.
pub fn start<D>(dispatch: D) -> (r: SmtpMachine<Session, D>)
    ensures
        r.current() == Session,
        r.dispatcher() == dispatch,
        r.owed() == Seq::<SpecReply>::empty(),
{
    let r = SmtpMachine { state: Session, replies: Vec::new(), dispatch };
    assert(r.owed() =~= Seq::<SpecReply>::empty());
    r
}

impl<S, D> SmtpMachine<S, D> {
    /// The state.
    pub closed spec fn current(&self) -> S {
        self.state
    }

    /// Where the replies go.
    pub closed spec fn dispatcher(&self) -> D {
        self.dispatch
    }

    /// The replies not yet sent, first first.
    pub closed spec fn owed(&self) -> Seq<SpecReply> {
        reply_views(self.replies@)
    }

    pub fn state(&self) -> (r: &S)
        ensures
            *r == self.current(),
    {
        &self.state
    }

    pub fn noop(self) -> (r: Self)
        ensures
            stepped(r, self, self.current(), ok_info()),
    {
        let reply = ok_reply();
        self.step(reply, |s: S| -> (t: S) ensures t == s { s })
    }

    pub fn quit(self) -> (r: SmtpMachine<Closed, D>)
        ensures
            stepped(r, self, Closed, goodbye()),
    {
        self.step(SmtpReply::ClosingConnectionInfo(text_of("Ciao!")), |s: S| -> (t: Closed) ensures t == Closed { Closed })
    }

    pub fn help(self, topics: Vec<String>) -> (r: Self)
        ensures
            stepped(r, self, self.current(), not_implemented()),
    {
        self.step(SmtpReply::CommandNotImplementedFailure, |s: S| -> (t: S) ensures t == s { s })
    }

    pub fn expn(self, name: String) -> (r: Self)
        ensures
            stepped(r, self, self.current(), not_implemented()),
    {
        self.step(SmtpReply::CommandNotImplementedFailure, |s: S| -> (t: S) ensures t == s { s })
    }

    pub fn vrfy(self, name: String) -> (r: Self)
        ensures
            stepped(r, self, self.current(), not_implemented()),
    {
        self.step(SmtpReply::CommandNotImplementedFailure, |s: S| -> (t: S) ensures t == s { s })
    }

    /// Input that does not belong in this state: the peer is told the
    /// commands came in a bad sequence.
    pub fn unexpected(self) -> (r: Self)
        ensures
            stepped(r, self, self.current(), bad_sequence()),
    {
        self.step(SmtpReply::CommandSequenceFailure, |s: S| -> (t: S) ensures t == s { s })
    }

    /// Queues the reply and moves to the state that `next` makes of this one.
    fn step<R, F: FnOnce(S) -> R>(self, reply: SmtpReply, next: F) -> (r: SmtpMachine<R, D>)
        requires
            call_requires(next, (self.current(),)),
        ensures
            call_ensures(next, (self.current(),), r.current()),
            r.dispatcher() == self.dispatcher(),
            r.owed() == self.owed().push(reply@),
    {
        let SmtpMachine { state, mut replies, dispatch } = self;
        let ghost before = replies@;
        replies.push(reply);
        let r = SmtpMachine { state: next(state), replies, dispatch };
        assert(reply_views(r.replies@) =~= reply_views(before).push(reply@));
        r
    }

    /// The reply to a greeting: HELO is answered with the local name
    /// greeting the peer, EHLO with that and the extensions, of which
    /// there are none.
    fn helo_reply(&self, conn: &SmtpConnection, helo: &SmtpHelo) -> (r: SmtpReply)
        ensures
            r@ == greeting(conn@, helo@),
            helo is Helo ==> r is OkHeloInfo,
            helo is Ehlo ==> r is OkEhloInfo,
    {
        match helo {
            SmtpHelo::Helo(_) => SmtpReply::OkHeloInfo { local: conn.local_name.clone(), remote: helo.name() },
            SmtpHelo::Ehlo(_) => {
                let r = SmtpReply::OkEhloInfo { local: conn.local_name.clone(), remote: helo.name(), extensions: Vec::new() };
                assert(r@.items =~= Seq::<Seq<char>>::empty());
                r
            },
        }
    }

    /// The next reply to send, taken from those owed.
    pub fn next_reply(&mut self) -> (r: Option<SmtpReply>)
        ensures
            final(self).current() == old(self).current(),
            final(self).dispatcher() == old(self).dispatcher(),
            old(self).owed().len() == 0 ==> r is None && final(self).owed() == old(self).owed(),
            old(self).owed().len() > 0 ==> (r matches Some(x) && x@ == old(self).owed()[0]
                && final(self).owed() == old(self).owed().drop_first()),
    {
        if self.replies.len() == 0 {
            None
        } else {
            let ghost before = self.replies@;
            let r = self.replies.remove(0);
            assert(reply_views(self.replies@) =~= reply_views(before).drop_first());
            Some(r)
        }
    }

    /// Puts back a reply that could not be sent, to be sent first.
    pub fn put_back(&mut self, reply: SmtpReply)
        ensures
            final(self).current() == old(self).current(),
            final(self).dispatcher() == old(self).dispatcher(),
            final(self).owed() == seq![reply@] + old(self).owed(),
    {
        let ghost before = self.replies@;
        self.replies.insert(0, reply);
        assert(reply_views(self.replies@) =~= seq![reply@] + reply_views(before));
    }
}

impl<D> SmtpMachine<Session, D> {
    pub fn reset(self) -> (r: SmtpMachine<Session, D>)
        ensures
            stepped(r, self, Session, ok_info()),
    {
        self.step(ok_reply(), |s: Session| -> (t: Session) ensures t == s { s })
    }

    /// A peer connected: the service announces itself by its local name.
    pub fn connect(self, conn: SmtpConnection) -> (r: SmtpMachine<Conn, D>)
        ensures
            stepped(r, self, Conn { conn }, service_ready(conn@)),
    {
        let reply = SmtpReply::ServiceReadyInfo(conn.local_name.clone());
        self.step(reply, move |s: Session| -> (t: Conn) ensures t == (Conn { conn }) { Conn { conn } })
    }
}

impl<D> SmtpMachine<Conn, D> {
    pub fn reset(self) -> (r: SmtpMachine<Conn, D>)
        ensures
            stepped(r, self, self.current(), ok_info()),
    {
        self.step(ok_reply(), |s: Conn| -> (t: Conn) ensures t == s { s })
    }

    /// The peer greeted and is greeted back.
    pub fn helo(self, helo: SmtpHelo) -> (r: SmtpMachine<Helo, D>)
        ensures
            stepped(r, self, Helo { conn: self.current().conn, helo }, greeting(self.current().conn@, helo@)),
    {
        let reply = self.helo_reply(&self.state.conn, &helo);
        self.step(reply, move |s: Conn| -> (t: Helo) ensures t == (Helo { conn: s.conn, helo }) { Helo { conn: s.conn, helo } })
    }
}

impl<D> SmtpMachine<Helo, D> {
    pub fn reset(self) -> (r: SmtpMachine<Helo, D>)
        ensures
            stepped(r, self, self.current(), ok_info()),
    {
        self.step(ok_reply(), |s: Helo| -> (t: Helo) ensures t == (Helo { conn: s.conn, helo: s.helo }) {
            Helo { conn: s.conn, helo: s.helo }
        })
    }

    /// A new greeting replaces the old one.
    pub fn helo(self, helo: SmtpHelo) -> (r: SmtpMachine<Helo, D>)
        ensures
            stepped(r, self, Helo { conn: self.current().conn, helo }, ok_info()),
    {
        self.step(ok_reply(), move |s: Helo| -> (t: Helo) ensures t == (Helo { conn: s.conn, helo }) { Helo { conn: s.conn, helo } })
    }

    /// The peer names the sender.
    pub fn mail(self, mail: SmtpMail) -> (r: SmtpMachine<Mail, D>)
        ensures
            stepped(r, self, Mail { conn: self.current().conn, helo: self.current().helo, mail }, ok_info()),
    {
        self.step(ok_reply(), move |s: Helo| -> (t: Mail) ensures t == (Mail { conn: s.conn, helo: s.helo, mail }) {
            Mail { mail, helo: s.helo, conn: s.conn }
        })
    }
}

impl<D> SmtpMachine<Mail, D> {
    /// The transaction is dropped; the greeting stays.
    pub fn reset(self) -> (r: SmtpMachine<Helo, D>)
        ensures
            stepped(r, self, Helo { conn: self.current().conn, helo: self.current().helo }, ok_info()),
    {
        self.step(ok_reply(), |s: Mail| -> (t: Helo) ensures t == (Helo { conn: s.conn, helo: s.helo }) {
            Helo { conn: s.conn, helo: s.helo }
        })
    }

    pub fn helo(self, helo: SmtpHelo) -> (r: SmtpMachine<Helo, D>)
        ensures
            stepped(r, self, Helo { conn: self.current().conn, helo }, ok_info()),
    {
        self.step(ok_reply(), move |s: Mail| -> (t: Helo) ensures t == (Helo { conn: s.conn, helo }) { Helo { conn: s.conn, helo } })
    }

    /// The first recipient.
    pub fn rcpt(self, path: SmtpPath) -> (r: SmtpMachine<Rcpt, D>)
        ensures
            r.current().conn == self.current().conn,
            r.current().helo == self.current().helo,
            r.current().mail == self.current().mail,
            r.current().rcpt@ == seq![path],
            r.dispatcher() == self.dispatcher(),
            r.owed() == self.owed().push(ok_info()),
    {
        self.step(ok_reply(), move |s: Mail| -> (t: Rcpt)
            ensures
                t.conn == s.conn,
                t.helo == s.helo,
                t.mail == s.mail,
                t.rcpt@ == seq![path],
            {
                let mut rcpt = Vec::new();
                rcpt.push(path);
                Rcpt { rcpt, mail: s.mail, helo: s.helo, conn: s.conn }
            })
    }
}

impl<D> SmtpMachine<Rcpt, D> {
    /// The transaction is dropped; the greeting stays.
    pub fn reset(self) -> (r: SmtpMachine<Helo, D>)
        ensures
            stepped(r, self, Helo { conn: self.current().conn, helo: self.current().helo }, ok_info()),
    {
        self.step(ok_reply(), |s: Rcpt| -> (t: Helo) ensures t == (Helo { conn: s.conn, helo: s.helo }) {
            Helo { conn: s.conn, helo: s.helo }
        })
    }

    pub fn helo(self, helo: SmtpHelo) -> (r: SmtpMachine<Helo, D>)
        ensures
            stepped(r, self, Helo { conn: self.current().conn, helo }, ok_info()),
    {
        self.step(ok_reply(), move |s: Rcpt| -> (t: Helo) ensures t == (Helo { conn: s.conn, helo }) { Helo { conn: s.conn, helo } })
    }

    /// One more recipient, after those named before.
    pub fn rcpt(self, path: SmtpPath) -> (r: SmtpMachine<Rcpt, D>)
        ensures
            r.current().conn == self.current().conn,
            r.current().helo == self.current().helo,
            r.current().mail == self.current().mail,
            r.current().rcpt@ == self.current().rcpt@.push(path),
            r.dispatcher() == self.dispatcher(),
            r.owed() == self.owed().push(ok_info()),
    {
        self.step(ok_reply(), move |s: Rcpt| -> (t: Rcpt)
            ensures
                t.conn == s.conn,
                t.helo == s.helo,
                t.mail == s.mail,
                t.rcpt@ == s.rcpt@.push(path),
            {
                let Rcpt { mut rcpt, mail, helo, conn } = s;
                rcpt.push(path);
                Rcpt { rcpt, mail, helo, conn }
            })
    }

    /// The peer asks to send the mail data.
    pub fn data(self) -> (r: SmtpMachine<Data, D>)
        ensures
            r.current().conn == self.current().conn,
            r.current().helo == self.current().helo,
            r.current().mail == self.current().mail,
            r.current().rcpt == self.current().rcpt,
            r.dispatcher() == self.dispatcher(),
            r.owed() == self.owed().push(start_mail_input()),
    {
        self.step(SmtpReply::StartMailInputChallenge, |s: Rcpt| -> (t: Data)
            ensures
                t == (Data { conn: s.conn, helo: s.helo, mail: s.mail, rcpt: s.rcpt }),
            {
                Data { rcpt: s.rcpt, mail: s.mail, helo: s.helo, conn: s.conn }
            })
    }
}

impl<D> SmtpMachine<Data, D> {
    /// The mail data has ended: the mail is complete and is handed on;
    /// the reply waits for the outcome.
    pub fn done(self) -> (r: SmtpMachine<act::Mail, D>)
        ensures
            r.current() == (act::Mail {
                conn: self.current().conn,
                helo: self.current().helo,
                mail: self.current().mail,
                rcpt: self.current().rcpt,
            }),
            r.dispatcher() == self.dispatcher(),
            r.owed() == self.owed(),
    {
        let SmtpMachine { state, replies, dispatch } = self;
        let Data { conn, helo, mail, rcpt } = state;
        SmtpMachine { state: act::new_mail(conn, helo, mail, rcpt), replies, dispatch }
    }
}

impl<D> SmtpMachine<act::Mail, D> {
    /// The mail was taken: Ok, and the peer may start another.
    pub fn ok(self) -> (r: SmtpMachine<Helo, D>)
        ensures
            stepped(r, self, Helo { conn: self.current().conn, helo: self.current().helo }, ok_info()),
    {
        self.step(ok_reply(), |s: act::Mail| -> (t: Helo) ensures t == (Helo { conn: s.conn, helo: s.helo }) {
            Helo { conn: s.conn, helo: s.helo }
        })
    }

    /// The mail was not taken: the transaction failed, and the peer may
    /// start another.
    pub fn failed(self) -> (r: SmtpMachine<Helo, D>)
        ensures
            stepped(r, self, Helo { conn: self.current().conn, helo: self.current().helo }, transaction_failed()),
    {
        self.step(SmtpReply::TransactionFailure, |s: act::Mail| -> (t: Helo) ensures t == (Helo { conn: s.conn, helo: s.helo }) {
            Helo { conn: s.conn, helo: s.helo }
        })
    }
}

} // verus!
