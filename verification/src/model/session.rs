//! The SMTP session: the state machine that answers the controls coming
//! from the stream.
use vstd::prelude::*;
use vstd::string::*;
use std::collections::VecDeque;
use crate::model::command::{
    SmtpCommand, SmtpHelo, SmtpMail, SmtpPath, SpecCommand, SpecHelo, SpecMail, SpecPath, copy_helo,
    copy_mail, copy_opt_text, copy_path, copy_paths, copy_text, helo_host, host_text, opt_text,
};
use crate::model::controll::{ClientControll, ServerControll, SpecClientControll, SpecServerControll};
use crate::model::mail::{AcceptRecipientRequest, Envelope};
use crate::model::response::{SmtpReply, SpecReply, fixed};
use crate::model::text::{push_str, text_of};

verus! {

/// Sixteen to the power `e`.
pub open spec fn pow16(e: nat) -> nat
    decreases e,
{
    if e == 0 {
        1
    } else {
        16 * pow16((e - 1) as nat)
    }
}

/// The `k`-th of the 32 hex digits of a 128-bit number, most significant
/// first.
pub open spec fn nibble(id: u128, k: int) -> int {
    (id as int / pow16((31 - k) as nat) as int) % 16
}

/// A hex digit in lower case.
pub open spec fn hex_digit(d: int) -> char {
    if d < 10 {
        (48 + d) as char
    } else {
        (87 + d) as char
    }
}

/// Which hex digit stands at a place of the hyphenated form.
pub open spec fn digit_index(i: int) -> int {
    if i < 8 {
        i
    } else if i < 13 {
        i - 1
    } else if i < 18 {
        i - 2
    } else if i < 23 {
        i - 3
    } else {
        i - 4
    }
}

/// The text that identifies a mail: the 32 hex digits of its number in
/// lower case, most significant first, in groups of 8, 4, 4, 4 and 12
/// joined by hyphens.
pub open spec fn uuid_text(id: u128) -> Seq<char> {
    Seq::new(36, |i: int| if i == 8 || i == 13 || i == 18 || i == 23 {
        '-'
    } else {
        hex_digit(nibble(id, digit_index(i)))
    })
}

/// A fresh random mail identifier.
///
/// Calls `uuid::Uuid::new_v4` and takes the number; it is random and
/// nothing is claimed of it.
#[verifier::external_body]
fn fresh_mail_id() -> (r: u128) {
    uuid::Uuid::new_v4().as_u128()
}

/// The text of a mail identifier.
///
/// Calls `to_string` on `uuid::Uuid::from_u128(id)`: the number's bytes,
/// most significant first, in the hyphenated lower case hex form that the
/// `uuid` crate's `Display` writes.
#[verifier::external_body]
fn mail_id_text(id: u128) -> (r: String)
    ensures
        r@ == uuid_text(id),
{
    uuid::Uuid::from_u128(id).to_string()
}

/// How far the mail transaction has come.
#[derive(Debug, Clone, Copy, PartialEq, Eq)]
pub enum SessionState {
    New,
    Helo,
    Mail,
    Rcpt,
    Data,
}

/// The state of an SMTP session with the answers it has yet to give.
#[derive(Debug)]
pub struct Session {
    state: SessionState,
    name: String,
    peer: Option<String>,
    local: Option<String>,
    helo: Option<SmtpHelo>,
    mail: Option<SmtpMail>,
    mailid: u128,
    rcpts: Vec<SmtpPath>,
    answers: VecDeque<ClientControll>,
}

/// The model of a session.
pub struct SessionModel {
    pub state: SessionState,
    pub name: Seq<char>,
    pub peer: Option<Seq<char>>,
    pub local: Option<Seq<char>>,
    pub helo: Option<SpecHelo>,
    pub mail: Option<SpecMail>,
    pub mailid: u128,
    pub rcpts: Seq<SpecPath>,
    pub answers: Seq<SpecClientControll>,
}

pub open spec fn opt_helo(h: Option<SmtpHelo>) -> Option<SpecHelo> {
    match h {
        Some(x) => Some(x@),
        None => None,
    }
}

pub open spec fn opt_mail(m: Option<SmtpMail>) -> Option<SpecMail> {
    match m {
        Some(x) => Some(x@),
        None => None,
    }
}

pub open spec fn controls(s: Seq<ClientControll>) -> Seq<SpecClientControll> {
    s.map_values(|c: ClientControll| c@)
}

impl View for Session {
    type V = SessionModel;

    closed spec fn view(&self) -> SessionModel {
        SessionModel {
            state: self.state,
            name: self.name@,
            peer: opt_text(self.peer),
            local: opt_text(self.local),
            helo: opt_helo(self.helo),
            mail: opt_mail(self.mail),
            mailid: self.mailid,
            rcpts: self.rcpts.deep_view(),
            answers: controls(self.answers@),
        }
    }
}

/* The rules of the session */

/// The buffers of the session agree with how far the transaction has come.
pub open spec fn consistent(m: SessionModel) -> bool {
    match m.state {
        SessionState::New => m.helo is None && m.mail is None && m.rcpts.len() == 0,
        SessionState::Helo => m.helo is Some && m.mail is None && m.rcpts.len() == 0,
        SessionState::Mail => m.helo is Some && m.mail is Some && m.rcpts.len() == 0,
        SessionState::Rcpt => m.helo is Some && m.mail is Some && m.rcpts.len() > 0,
        SessionState::Data => m.helo is Some && m.mail is Some && m.rcpts.len() > 0,
    }
}

pub open spec fn say(m: SessionModel, c: SpecClientControll) -> SessionModel {
    SessionModel { answers: m.answers.push(c), ..m }
}

pub open spec fn say_reply(m: SessionModel, r: SpecReply) -> SessionModel {
    say(m, SpecClientControll::Reply(r))
}

pub open spec fn ok_reply() -> SpecReply {
    fixed(250, "Ok"@)
}

pub open spec fn sequence_failure() -> SpecReply {
    fixed(503, "Bad sequence of commands"@)
}

/// The session state after a reset: a started transaction goes back to
/// the greeting.
pub open spec fn reset_state(s: SessionState) -> SessionState {
    match s {
        SessionState::New => SessionState::New,
        _ => SessionState::Helo,
    }
}

/// The transaction is dropped: no sender, no recipients.
pub open spec fn drop_transaction(m: SessionModel) -> SessionModel {
    SessionModel { rcpts: Seq::empty(), mail: None, state: reset_state(m.state), ..m }
}

/// The session is back to its start: no greeting, no transaction.
pub open spec fn drop_all(m: SessionModel) -> SessionModel {
    SessionModel { state: SessionState::New, helo: None, mail: None, rcpts: Seq::empty(), ..m }
}

/// What a command does to the session; `id` is the mail identifier that
/// a greeting starts.
pub open spec fn command_step(m: SessionModel, c: SpecCommand, id: u128) -> SessionModel {
    match c {
        SpecCommand::Helo(h) => say_reply(
            SessionModel { mailid: id, rcpts: Seq::empty(), mail: None, state: SessionState::Helo, helo: Some(h), ..m },
            fixed(250, m.name + " greets "@ + host_text(helo_host(h))),
        ),
        SpecCommand::Mail(mail) => if m.state != SessionState::Helo || m.helo is None {
            say_reply(m, sequence_failure())
        } else {
            say_reply(SessionModel { state: SessionState::Mail, mail: Some(mail), ..m }, ok_reply())
        },
        SpecCommand::Rcpt(p) => if (m.state != SessionState::Mail && m.state != SessionState::Rcpt)
            || m.helo is None || m.mail is None {
            say_reply(m, sequence_failure())
        } else {
            say_reply(SessionModel { state: SessionState::Rcpt, rcpts: m.rcpts.push(p), ..m }, ok_reply())
        },
        SpecCommand::Data => if m.helo is None || m.mail is None || m.rcpts.len() == 0 {
            say_reply(m, sequence_failure())
        } else {
            say_reply(say(SessionModel { state: SessionState::Data, ..m }, SpecClientControll::AcceptData),
                fixed(354, "Start mail input, // end with <CRLF>.<CRLF>"@))
        },
        SpecCommand::Quit => say(say_reply(drop_all(m),
            fixed(221, m.name + " Service closing transmission channel"@)), SpecClientControll::Shutdown),
        SpecCommand::Rset => say_reply(drop_transaction(m), ok_reply()),
        SpecCommand::Noop(_) => say_reply(m, ok_reply()),
        _ => say_reply(m, fixed(502, "Command not implemented"@)),
    }
}

/// What a control from the stream does to the session; `id` is the mail
/// identifier that a greeting starts.
pub open spec fn controll_step(m: SessionModel, c: SpecServerControll, id: u128) -> SessionModel {
    match c {
        SpecServerControll::PeerConnected { local, peer } => say_reply(
            SessionModel { local, peer, ..drop_all(m) },
            fixed(220, m.name + " Service ready"@),
        ),
        SpecServerControll::PeerShutdown => say(SessionModel { peer: None, ..drop_all(m) }, SpecClientControll::Shutdown),
        SpecServerControll::Invalid(_) => say_reply(m, fixed(500, "Syntax error, command unrecognized"@)),
        SpecServerControll::Command(cmd) => command_step(m, cmd, id),
        SpecServerControll::FinalDot(_) => say_reply(say(drop_transaction(m), SpecClientControll::QueueMail),
            fixed(250, "Queued as "@ + uuid_text(m.mailid))),
        _ => m,
    }
}

/// Every step keeps the buffers of the session in agreement with how far
/// the mail transaction has come.
pub proof fn lemma_step_consistent(m: SessionModel, c: SpecServerControll, id: u128)
    requires
        consistent(m),
    ensures
        consistent(controll_step(m, c, id)),
{
}

/// RSET drops the mail transaction but keeps the greeting: after it, in
/// any state but the first, the greeting is the same, the session waits
/// for MAIL, RSET is answered 250 Ok, and a MAIL that follows is accepted
/// with 250 Ok.
pub proof fn lemma_rset_keeps_greeting(m: SessionModel, id: u128, next: SpecMail, id2: u128)
    requires
        consistent(m),
        m.state != SessionState::New,
    ensures
        ({
            let m1 = controll_step(m, SpecServerControll::Command(SpecCommand::Rset), id);
            let m2 = controll_step(m1, SpecServerControll::Command(SpecCommand::Mail(next)), id2);
            &&& m1.helo == m.helo
            &&& m1.helo is Some
            &&& m1.state == SessionState::Helo
            &&& m1.mail is None
            &&& m1.rcpts.len() == 0
            &&& m1.answers == m.answers.push(SpecClientControll::Reply(fixed(250, "Ok"@)))
            &&& m2.state == SessionState::Mail
            &&& m2.mail == Some(next)
            &&& m2.helo == m.helo
            &&& m2.answers == m1.answers.push(SpecClientControll::Reply(fixed(250, "Ok"@)))
        }),
{
}

/// Whether a control starts a new mail identifier.
pub open spec fn greets(c: SpecServerControll) -> bool {
    c matches SpecServerControll::Command(SpecCommand::Helo(_))
}

impl Session {
    /// The rules hold of the session.
    pub closed spec fn wf(&self) -> bool {
        consistent(self@)
    }

    /// A well-formed session is consistent: its buffers agree with how far
    /// the mail transaction has come.
    pub proof fn lemma_wf_consistent(&self)
        requires
            self.wf(),
        ensures
            consistent(self@),
    {
    }

    /// A new session named "Samotop", waiting for a peer.
    pub fn new() -> (r: Self)
        ensures
            r.wf(),
            r@.state == SessionState::New,
            r@.name == "Samotop"@,
            r@.peer is None && r@.local is None,
            r@.helo is None && r@.mail is None && r@.rcpts.len() == 0,
            r@.answers.len() == 0,
    {
        let s = Self {
            state: SessionState::New,
            name: text_of("Samotop"),
            peer: None,
            local: None,
            helo: None,
            mail: None,
            mailid: fresh_mail_id(),
            rcpts: Vec::new(),
            answers: VecDeque::new(),
        };
        assert(s.rcpts.deep_view() =~= Seq::<SpecPath>::empty());
        assert(controls(s.answers@) =~= Seq::<SpecClientControll>::empty());
        s
    }

    pub fn name(&self) -> (r: &str)
        ensures
            r@ == self@.name,
    {
        self.name.as_str()
    }

    pub fn helo(&self) -> (r: Option<&SmtpHelo>)
        ensures
            match r {
                Some(h) => self@.helo == Some(h@),
                None => self@.helo is None,
            },
    {
        match &self.helo {
            Some(h) => Some(h),
            None => None,
        }
    }

    pub fn mail(&self) -> (r: Option<&SmtpMail>)
        ensures
            match r {
                Some(m) => self@.mail == Some(m@),
                None => self@.mail is None,
            },
    {
        match &self.mail {
            Some(m) => Some(m),
            None => None,
        }
    }

    pub fn peer(&self) -> (r: Option<&String>)
        ensures
            match r {
                Some(p) => self@.peer == Some(p@),
                None => self@.peer is None,
            },
    {
        match &self.peer {
            Some(p) => Some(p),
            None => None,
        }
    }

    /// The recipients of the current transaction.
    pub fn rcpts(&self) -> (r: &Vec<SmtpPath>)
        ensures
            r.deep_view() == self@.rcpts,
    {
        &self.rcpts
    }

    pub fn set_name(&mut self, name: &str)
        requires
            old(self).wf(),
        ensures
            final(self).wf(),
            final(self)@ == (SessionModel { name: name@, ..old(self)@ }),
    {
        self.name = text_of(name);
    }

    /// How many answers the session owes.
    pub fn answer_count(&self) -> (r: usize)
        ensures
            r == self@.answers.len(),
    {
        self.answers.len()
    }

    /// The next answer to give, taken from the queue.
    pub fn answer(&mut self) -> (r: Option<ClientControll>)
        requires
            old(self).wf(),
        ensures
            final(self).wf(),
            match r {
                Some(c) => old(self)@.answers.len() > 0 && c@ == old(self)@.answers[0]
                    && final(self)@ == (SessionModel { answers: old(self)@.answers.drop_first(), ..old(self)@ }),
                None => old(self)@.answers.len() == 0 && final(self)@ == old(self)@,
            },
    {
        let r = self.answers.pop_front();
        proof {
            assert(controls(self.answers@) =~= controls(old(self).answers@).drop_first() || old(self).answers@.len() == 0);
            if old(self).answers@.len() == 0 {
                assert(self.answers@ =~= old(self).answers@);
            }
        }
        r
    }

    fn say(&mut self, c: ClientControll)
        ensures
            final(self)@ == say(old(self)@, c@),
    {
        let ghost cv = c@;
        self.answers.push_back(c);
        assert(controls(self.answers@) =~= controls(old(self).answers@).push(cv));
    }

    fn say_reply(&mut self, r: SmtpReply)
        ensures
            final(self)@ == say_reply(old(self)@, r@),
    {
        self.say(ClientControll::Reply(r));
    }

    fn say_ok(&mut self)
        ensures
            final(self)@ == say_reply(old(self)@, ok_reply()),
    {
        let r = SmtpReply::OkInfo(String::new(), Vec::new());
        assert(r@.items =~= Seq::<Seq<char>>::empty());
        self.say_reply(r);
    }

    fn clear_transaction(&mut self)
        ensures
            final(self)@ == drop_transaction(old(self)@),
    {
        self.rcpts = Vec::new();
        self.mail = None;
        self.state = match self.state {
            SessionState::New => SessionState::New,
            _ => SessionState::Helo,
        };
        assert(self.rcpts.deep_view() =~= Seq::<SpecPath>::empty());
    }

    fn clear_all(&mut self)
        ensures
            final(self)@ == drop_all(old(self)@),
    {
        self.state = SessionState::New;
        self.rcpts = Vec::new();
        self.mail = None;
        self.helo = None;
        assert(self.rcpts.deep_view() =~= Seq::<SpecPath>::empty());
    }

    /// Drops the current transaction and the answers not given yet; the
    /// greeting stays.
    pub fn cancel(&mut self)
        requires
            old(self).wf(),
        ensures
            final(self).wf(),
            final(self)@ == (SessionModel { answers: Seq::empty(), ..drop_transaction(old(self)@) }),
    {
        self.clear_transaction();
        self.answers.clear();
        assert(controls(self.answers@) =~= Seq::<SpecClientControll>::empty());
    }

    /// A snapshot of the current mail transaction.
    pub fn extract_envelope(&self) -> (r: Envelope)
        ensures
            r.name@ == self@.name,
            opt_text(r.local) == self@.local,
            opt_text(r.peer) == self@.peer,
            opt_helo(r.helo) == self@.helo,
            opt_mail(r.mail) == self@.mail,
            r.id@ == uuid_text(self@.mailid),
            r.rcpts.deep_view() == self@.rcpts,
    {
        Envelope {
            name: copy_text(&self.name),
            local: copy_opt_text(&self.local),
            peer: copy_opt_text(&self.peer),
            helo: match &self.helo {
                Some(h) => Some(copy_helo(h)),
                None => None,
            },
            mail: match &self.mail {
                Some(m) => Some(copy_mail(m)),
                None => None,
            },
            rcpts: copy_paths(&self.rcpts),
            id: mail_id_text(self.mailid),
        }
    }

    /// A snapshot of the current mail transaction with the recipient to check.
    pub fn extract_rcpt(&self, rcpt: &SmtpPath) -> (r: AcceptRecipientRequest)
        ensures
            r.name@ == self@.name,
            opt_text(r.local) == self@.local,
            opt_text(r.peer) == self@.peer,
            opt_helo(r.helo) == self@.helo,
            opt_mail(r.mail) == self@.mail,
            r.id@ == uuid_text(self@.mailid),
            r.rcpt@ == rcpt@,
    {
        AcceptRecipientRequest {
            name: copy_text(&self.name),
            local: copy_opt_text(&self.local),
            peer: copy_opt_text(&self.peer),
            helo: match &self.helo {
                Some(h) => Some(copy_helo(h)),
                None => None,
            },
            mail: match &self.mail {
                Some(m) => Some(copy_mail(m)),
                None => None,
            },
            id: mail_id_text(self.mailid),
            rcpt: copy_path(rcpt),
        }
    }

    fn cmd_helo(&mut self, helo: SmtpHelo, id: u128)
        ensures
            final(self)@ == command_step(old(self)@, SpecCommand::Helo(helo@), id),
    {
        self.mailid = id;
        self.rcpts = Vec::new();
        self.mail = None;
        self.state = SessionState::Helo;
        let remote = helo.name();
        self.helo = Some(helo);
        let local = copy_text(&self.name);
        assert(self.rcpts.deep_view() =~= Seq::<SpecPath>::empty());
        self.say_reply(SmtpReply::OkHeloInfo { local, remote });
    }

    fn cmd_mail(&mut self, mail: SmtpMail)
        ensures
            final(self)@ == command_step(old(self)@, SpecCommand::Mail(mail@), 0),
    {
        if !matches!(self.state, SessionState::Helo) || self.helo.is_none() {
            self.say_reply(SmtpReply::CommandSequenceFailure);
        } else {
            self.state = SessionState::Mail;
            self.mail = Some(mail);
            self.say_ok();
        }
    }

    fn cmd_rcpt(&mut self, path: SmtpPath)
        ensures
            final(self)@ == command_step(old(self)@, SpecCommand::Rcpt(path@), 0),
    {
        if (!matches!(self.state, SessionState::Mail) && !matches!(self.state, SessionState::Rcpt))
            || self.helo.is_none() || self.mail.is_none() {
            self.say_reply(SmtpReply::CommandSequenceFailure);
        } else {
            self.state = SessionState::Rcpt;
            let ghost pv = path@;
            self.rcpts.push(path);
            assert(self.rcpts.deep_view() =~= old(self).rcpts.deep_view().push(pv));
            self.say_ok();
        }
    }

    fn cmd_data(&mut self)
        ensures
            final(self)@ == command_step(old(self)@, SpecCommand::Data, 0),
    {
        if self.helo.is_none() || self.mail.is_none() || self.rcpts.len() == 0 {
            self.say_reply(SmtpReply::CommandSequenceFailure);
        } else {
            self.state = SessionState::Data;
            self.say(ClientControll::AcceptData);
            self.say_reply(SmtpReply::StartMailInputChallenge);
        }
    }

    fn cmd_quit(&mut self)
        ensures
            final(self)@ == command_step(old(self)@, SpecCommand::Quit, 0),
    {
        self.clear_all();
        let text = copy_text(&self.name);
        self.say_reply(SmtpReply::ClosingConnectionInfo(text));
        self.say(ClientControll::Shutdown);
    }

    fn cmd(&mut self, cmd: SmtpCommand, id: u128)
        ensures
            final(self)@ == command_step(old(self)@, cmd@, id),
    {
        match cmd {
            SmtpCommand::Helo(from) => self.cmd_helo(from, id),
            SmtpCommand::Mail(mail) => self.cmd_mail(mail),
            SmtpCommand::Rcpt(path) => self.cmd_rcpt(path),
            SmtpCommand::Data => self.cmd_data(),
            SmtpCommand::Quit => self.cmd_quit(),
            SmtpCommand::Rset => {
                self.clear_transaction();
                self.say_ok();
            },
            SmtpCommand::Noop(_) => self.say_ok(),
            _ => self.say_reply(SmtpReply::CommandNotImplementedFailure),
        }
    }

    fn data_end(&mut self)
        ensures
            final(self)@ == controll_step(old(self)@, SpecServerControll::FinalDot(Seq::empty()), 0),
    {
        self.clear_transaction();
        let mut text = text_of("Queued as ");
        let id = mail_id_text(self.mailid);
        push_str(&mut text, id.as_str());
        self.say(ClientControll::QueueMail);
        self.say_reply(SmtpReply::OkMessageInfo(text));
    }

    /// Takes a control from the stream, with `id` as the mail identifier
    /// that a greeting starts.
    pub fn controll_with_id(&mut self, ctrl: ServerControll, id: u128)
        requires
            old(self).wf(),
        ensures
            final(self).wf(),
            final(self)@ == controll_step(old(self)@, ctrl@, id),
    {
        proof {
            lemma_step_consistent(self@, ctrl@, id);
        }
        match ctrl {
            ServerControll::PeerConnected { local, peer } => {
                self.clear_all();
                self.local = local;
                self.peer = peer;
                let text = copy_text(&self.name);
                self.say_reply(SmtpReply::ServiceReadyInfo(text));
            },
            ServerControll::PeerShutdown => {
                self.clear_all();
                self.peer = None;
                self.say(ClientControll::Shutdown);
            },
            ServerControll::Invalid(_) => self.say_reply(SmtpReply::CommandSyntaxFailure),
            ServerControll::Command(cmd) => self.cmd(cmd, id),
            ServerControll::FinalDot(_) => self.data_end(),
            _ => {},
        }
    }

    /// Takes a control from the stream; a greeting starts a fresh random
    /// mail identifier.
    pub fn controll(&mut self, ctrl: ServerControll)
        requires
            old(self).wf(),
        ensures
            final(self).wf(),
            final(self)@ == controll_step(old(self)@, ctrl@, final(self)@.mailid),
            !greets(ctrl@) ==> final(self)@.mailid == old(self)@.mailid,
    {
        let id = if matches!(ctrl, ServerControll::Command(SmtpCommand::Helo(_))) {
            fresh_mail_id()
        } else {
            self.mailid
        };
        self.controll_with_id(ctrl, id);
    }
}

} // verus!
