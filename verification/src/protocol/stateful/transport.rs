//! The transport that drives the SMTP machine with the items read from the
//! connection.
use vstd::prelude::*;
use crate::model::act;
use crate::model::command::{SmtpCommand, SmtpConnection, SmtpHelo, SmtpInput, SmtpMail, SmtpPath};
use crate::model::machine::{
    SmtpMachine, bad_sequence, greeting, ok_info, service_ready, start, start_mail_input, stepped,
    transaction_failed,
};
use crate::model::response::SpecReply;
use crate::model::state;

verus! {

/// Holds a value that is taken out and put back in place.
#[derive(Debug)]
pub struct Cradle<T> {
    item: Option<T>,
}

impl<T> Cradle<T> {
    /// What the cradle holds.
    pub closed spec fn held(&self) -> Option<T> {
        self.item
    }

    pub fn from(item: T) -> (r: Self)
        ensures
            r.held() == Some(item),
    {
        Cradle { item: Some(item) }
    }

    /// Replaces the value by the first part of what `f` makes of it, and
    /// returns the second.
    pub fn turn<R, F: FnOnce(T) -> (T, R)>(&mut self, f: F) -> (r: R)
        requires
            old(self).held() is Some,
            call_requires(f, (old(self).held()->0,)),
        ensures
            final(self).held() is Some,
            call_ensures(f, (old(self).held()->0,), (final(self).held()->0, r)),
    {
        let item = self.item.take().unwrap();
        let (next, result) = f(item);
        self.item = Some(next);
        result
    }

    /// Lets `f` work on the value in place, and returns what it gives.
    pub fn touch<R, F: FnOnce(&mut T) -> R>(&mut self, f: F) -> (r: R)
        requires
            old(self).held() is Some,
            forall|t: &mut T| call_requires(f, (t,)),
        ensures
            final(self).held() is Some,
            exists|t: &mut T| *t == old(self).held()->0 && *final(t) == final(self).held()->0
                && call_ensures(f, (t,), r),
    {
        let mut m = self.item.take().unwrap();
        let result = f(&mut m);
        self.item = Some(m);
        result
    }

    /// The value.
    pub fn into(self) -> (r: T)
        requires
            self.held() is Some,
        ensures
            r == self.held()->0,
    {
        self.item.unwrap()
    }
}

/// The SMTP machine in whichever state it is.
#[derive(Debug)]
pub enum State<D> {
    New(SmtpMachine<state::Session, D>),
    Connected(SmtpMachine<state::Conn, D>),
    Initialized(SmtpMachine<state::Helo, D>),
    MailFrom(SmtpMachine<state::Mail, D>),
    RcptTo(SmtpMachine<state::Rcpt, D>),
    Streaming(SmtpMachine<state::Data, D>),
    Ready(SmtpMachine<act::Mail, D>),
    Closed(SmtpMachine<state::Closed, D>),
}

/// The name of a state.
pub open spec fn state_name<D>(s: State<D>) -> Seq<char> {
    match s {
        State::New(_) => "New"@,
        State::Connected(_) => "Connected"@,
        State::Initialized(_) => "Helo"@,
        State::MailFrom(_) => "MailFrom"@,
        State::RcptTo(_) => "RcptTo"@,
        State::Streaming(_) => "Data"@,
        State::Ready(_) => "Ready"@,
        State::Closed(_) => "Closed"@,
    }
}

/// Where the machine goes on an input: each state takes the one input
/// that moves the transaction on, and answers any other with a bad
/// sequence, staying where it is.
pub open spec fn animated<D>(before: State<D>, inp: SmtpInput, after: State<D>) -> bool {
    match before {
        State::New(m) => match inp {
            SmtpInput::Connect(c) => after matches State::Connected(n)
                && stepped(n, m, state::Conn { conn: c }, service_ready(c@)),
            _ => after matches State::New(n) && stepped(n, m, m.current(), bad_sequence()),
        },
        State::Connected(m) => match inp {
            SmtpInput::Command(_, _, SmtpCommand::Helo(h)) => after matches State::Initialized(n)
                && stepped(n, m, state::Helo { conn: m.current().conn, helo: h }, greeting(m.current().conn@, h@)),
            _ => after matches State::Connected(n) && stepped(n, m, m.current(), bad_sequence()),
        },
        State::Initialized(m) => match inp {
            SmtpInput::Command(_, _, SmtpCommand::Mail(x)) => after matches State::MailFrom(n)
                && stepped(n, m, state::Mail { conn: m.current().conn, helo: m.current().helo, mail: x }, ok_info()),
            _ => after matches State::Initialized(n) && stepped(n, m, m.current(), bad_sequence()),
        },
        State::MailFrom(m) => match inp {
            SmtpInput::Command(_, _, SmtpCommand::Rcpt(p)) => after matches State::RcptTo(n)
                && n.current().conn == m.current().conn
                && n.current().helo == m.current().helo
                && n.current().mail == m.current().mail
                && n.current().rcpt@ == seq![p]
                && n.dispatcher() == m.dispatcher()
                && n.owed() == m.owed().push(ok_info()),
            _ => after matches State::MailFrom(n) && stepped(n, m, m.current(), bad_sequence()),
        },
        State::RcptTo(m) => match inp {
            SmtpInput::Command(_, _, SmtpCommand::Data) => after matches State::Streaming(n)
                && n.current().conn == m.current().conn
                && n.current().helo == m.current().helo
                && n.current().mail == m.current().mail
                && n.current().rcpt == m.current().rcpt
                && n.dispatcher() == m.dispatcher()
                && n.owed() == m.owed().push(start_mail_input()),
            _ => after matches State::RcptTo(n) && stepped(n, m, m.current(), bad_sequence()),
        },
        State::Streaming(m) => match inp {
            SmtpInput::StreamEnd(_) => after matches State::Ready(n)
                && n.current() == (act::Mail {
                    conn: m.current().conn,
                    helo: m.current().helo,
                    mail: m.current().mail,
                    rcpt: m.current().rcpt,
                })
                && n.dispatcher() == m.dispatcher()
                && n.owed() == m.owed(),
            _ => after matches State::Streaming(n) && stepped(n, m, m.current(), bad_sequence()),
        },
        State::Ready(_) => false,
        State::Closed(_) => false,
    }
}

/// Where the machine goes on the outcome of the act it asked for: a ready
/// mail is answered by the outcome; any other state stays as it is.
pub open spec fn responded<D>(before: State<D>, ok: bool, after: State<D>) -> bool {
    match before {
        State::Ready(m) => after matches State::Initialized(n) && stepped(
            n,
            m,
            state::Helo { conn: m.current().conn, helo: m.current().helo },
            if ok { ok_info() } else { transaction_failed() },
        ),
        _ => after == before,
    }
}

/// A whole mail transaction: a peer that connects, greets, names a sender
/// and a recipient, asks to send data and ends it brings a new machine to a
/// ready mail that holds exactly what the peer said, and the peer is owed
/// the service greeting, the greeting back, two Oks and the invitation to
/// send data, in this order.
pub proof fn lemma_full_transaction<D>(
    s0: State<D>, s1: State<D>, s2: State<D>, s3: State<D>, s4: State<D>, s5: State<D>, s6: State<D>,
    c: SmtpConnection, h: SmtpHelo, x: SmtpMail, p: SmtpPath,
    b2: usize, l2: usize, b3: usize, l3: usize, b4: usize, l4: usize, b5: usize, l5: usize, b6: usize,
)
    requires
        s0 matches State::New(m) && m.owed().len() == 0,
        animated(s0, SmtpInput::Connect(c), s1),
        animated(s1, SmtpInput::Command(b2, l2, SmtpCommand::Helo(h)), s2),
        animated(s2, SmtpInput::Command(b3, l3, SmtpCommand::Mail(x)), s3),
        animated(s3, SmtpInput::Command(b4, l4, SmtpCommand::Rcpt(p)), s4),
        animated(s4, SmtpInput::Command(b5, l5, SmtpCommand::Data), s5),
        animated(s5, SmtpInput::StreamEnd(b6), s6),
    ensures
        s6 matches State::Ready(m6) && {
            &&& m6.current() == (act::Mail { conn: c, helo: h, mail: x, rcpt: m6.current().rcpt })
            &&& m6.current().rcpt@ == seq![p]
            &&& m6.owed() == seq![service_ready(c@), greeting(c@, h@), ok_info(), ok_info(), start_mail_input()]
        },
{
    if let (State::New(m0), State::Connected(m1), State::Initialized(m2), State::MailFrom(m3), State::RcptTo(m4),
        State::Streaming(m5), State::Ready(m6)) = (s0, s1, s2, s3, s4, s5, s6) {
        assert(m6.owed() =~= seq![service_ready(c@), greeting(c@, h@), ok_info(), ok_info(), start_mail_input()]);
    }
}

/// Input out of place moves nothing: a machine that takes input but not
/// this one stays in its state and owes one more reply, a bad sequence.
pub proof fn lemma_unexpected_stays<D>(before: State<D>, inp: SmtpInput, after: State<D>)
    requires
        animated(before, inp, after),
        !moves_on(before, inp),
    ensures
        state_name(after) == state_name(before),
        owed_of(after) == owed_of(before).push(bad_sequence()),
{
}

/// The replies a machine owes, whatever its state.
pub open spec fn owed_of<D>(s: State<D>) -> Seq<SpecReply> {
    match s {
        State::New(m) => m.owed(),
        State::Connected(m) => m.owed(),
        State::Initialized(m) => m.owed(),
        State::MailFrom(m) => m.owed(),
        State::RcptTo(m) => m.owed(),
        State::Streaming(m) => m.owed(),
        State::Ready(m) => m.owed(),
        State::Closed(m) => m.owed(),
    }
}

/// Whether the input is the one that moves the machine on from its state.
pub open spec fn moves_on<D>(s: State<D>, inp: SmtpInput) -> bool {
    match s {
        State::New(_) => inp is Connect,
        State::Connected(_) => inp matches SmtpInput::Command(_, _, SmtpCommand::Helo(_)),
        State::Initialized(_) => inp matches SmtpInput::Command(_, _, SmtpCommand::Mail(_)),
        State::MailFrom(_) => inp matches SmtpInput::Command(_, _, SmtpCommand::Rcpt(_)),
        State::RcptTo(_) => inp matches SmtpInput::Command(_, _, SmtpCommand::Data),
        State::Streaming(_) => inp is StreamEnd,
        _ => false,
    }
}

impl<D> State<D> {
    /// The name of the state.
    pub fn name(&self) -> (r: &'static str)
        ensures
            r@ == state_name(*self),
    {
        match self {
            State::New(_) => "New",
            State::Connected(_) => "Connected",
            State::Initialized(_) => "Helo",
            State::MailFrom(_) => "MailFrom",
            State::RcptTo(_) => "RcptTo",
            State::Streaming(_) => "Data",
            State::Ready(_) => "Ready",
            State::Closed(_) => "Closed",
        }
    }

    /// Whether the machine takes input in this state.
    pub open spec fn takes_input(self) -> bool {
        !(self is Ready) && !(self is Closed)
    }
}

/// The transport that runs the SMTP machine over an upstream of items and
/// replies.
pub struct ActTransport<TT> {
    machine: Cradle<State<TT>>,
}

impl<TT> ActTransport<TT> {
    /// The state of the machine.
    pub closed spec fn current(&self) -> State<TT> {
        self.machine.held()->0
    }

    pub closed spec fn wf(&self) -> bool {
        self.machine.held() is Some
    }

    /// A new machine, waiting for a peer.
    pub fn new(upstream: TT) -> (r: ActTransport<TT>)
        ensures
            r.wf(),
            r.current() matches State::New(m) && m.current() == state::Session && m.dispatcher() == upstream
                && m.owed() == Seq::<SpecReply>::empty(),
    {
        ActTransport { machine: Cradle::from(State::New(start(upstream))) }
    }

    /// The machine moved on by one input.
    pub fn animate<D>(machine: State<D>, inp: SmtpInput) -> (r: State<D>)
        requires
            machine.takes_input(),
        ensures
            animated(machine, inp, r),
    {
        match machine {
            State::New(m) => match inp {
                SmtpInput::Connect(c) => State::Connected(m.connect(c)),
                _ => State::New(m.unexpected()),
            },
            State::Connected(m) => match inp {
                SmtpInput::Command(_, _, SmtpCommand::Helo(c)) => State::Initialized(m.helo(c)),
                _ => State::Connected(m.unexpected()),
            },
            State::Initialized(m) => match inp {
                SmtpInput::Command(_, _, SmtpCommand::Mail(c)) => State::MailFrom(m.mail(c)),
                _ => State::Initialized(m.unexpected()),
            },
            State::MailFrom(m) => match inp {
                SmtpInput::Command(_, _, SmtpCommand::Rcpt(c)) => State::RcptTo(m.rcpt(c)),
                _ => State::MailFrom(m.unexpected()),
            },
            State::RcptTo(m) => match inp {
                SmtpInput::Command(_, _, SmtpCommand::Data) => State::Streaming(m.data()),
                _ => State::RcptTo(m.unexpected()),
            },
            State::Streaming(m) => match inp {
                SmtpInput::StreamEnd(_) => State::Ready(m.done()),
                _ => State::Streaming(m.unexpected()),
            },
            State::Ready(_) => {
                assert(false);
                machine
            },
            State::Closed(_) => {
                assert(false);
                machine
            },
        }
    }

    /// Whether the machine takes the next input.
    pub fn takes_input(&self) -> (r: bool)
        requires
            self.wf(),
        ensures
            r == self.current().takes_input(),
    {
        match &self.machine.item {
            Some(State::Ready(_)) => false,
            Some(State::Closed(_)) => false,
            _ => true,
        }
    }

    /// Moves the machine on by an input read from upstream.
    pub fn feed(&mut self, inp: SmtpInput)
        requires
            old(self).wf(),
            old(self).current().takes_input(),
        ensures
            final(self).wf(),
            animated(old(self).current(), inp, final(self).current()),
    {
        self.machine.turn(move |m: State<TT>| -> (out: (State<TT>, ()))
            requires
                m.takes_input(),
            ensures
                animated(m, inp, out.0),
            {
                (Self::animate(m, inp), ())
            })
    }

    /// Answers the mail that is ready with the outcome of handing it on.
    pub fn respond(&mut self, rsp: act::ActResult)
        requires
            old(self).wf(),
        ensures
            final(self).wf(),
            responded(old(self).current(), rsp is Ok, final(self).current()),
    {
        self.machine.turn(move |s: State<TT>| -> (out: (State<TT>, ()))
            ensures
                responded(s, rsp is Ok, out.0),
            {
                let next = match s {
                    State::Ready(m) => match rsp {
                        Err(_) => State::Initialized(m.failed()),
                        Ok(_) => State::Initialized(m.ok()),
                    },
                    _ => s,
                };
                (next, ())
            })
    }

    /// The machine's state, given up.
    pub fn into_state(self) -> (r: State<TT>)
        requires
            self.wf(),
        ensures
            r == self.current(),
    {
        self.machine.into()
    }
}

} // verus!
