//! The mail side of a session: the session's answers are passed on, and
//! where one asks for it, the mail service is asked to take the mail, to
//! queue it, or whether it takes a recipient.
use vstd::prelude::*;
use crate::model::command::{SmtpCommand, SpecCommand, SpecPath, opt_text};
use crate::model::controll::{ClientControll, ServerControll, SpecClientControll, SpecServerControll};
use crate::model::mail::{AcceptRecipientRequest, AcceptRecipientResult, Envelope, QueueResult};
use crate::model::response::{SmtpReply, SpecReply, fixed};
use crate::model::session::{
    Session, SessionModel, controll_step, drop_transaction, greets, opt_helo, opt_mail, uuid_text,
};

verus! {

/// 550 Requested action not taken: mailbox unavailable
pub open spec fn not_accepted() -> SpecReply {
    fixed(550, "Requested action not taken: mailbox unavailable"@)
}

/// 450 Requested mail action not taken: mailbox unavailable
pub open spec fn queue_failed() -> SpecReply {
    fixed(450, "Requested mail action not taken: mailbox unavailable"@)
}

fn reply_recipient_not_accepted() -> (r: ClientControll)
    ensures
        r@ == SpecClientControll::Reply(not_accepted()),
{
    ClientControll::Reply(SmtpReply::MailboxNotAvailableFailure)
}

fn reply_mail_not_accepted() -> (r: ClientControll)
    ensures
        r@ == SpecClientControll::Reply(not_accepted()),
{
    ClientControll::Reply(SmtpReply::MailboxNotAvailableFailure)
}

fn reply_mail_queue_failed() -> (r: ClientControll)
    ensures
        r@ == SpecClientControll::Reply(queue_failed()),
{
    ClientControll::Reply(SmtpReply::MailboxNotAvailableError)
}

pub open spec fn opt_controll(o: Option<ClientControll>) -> Option<SpecClientControll> {
    match o {
        Some(c) => Some(c@),
        None => None,
    }
}

/// The envelope shows the session's transaction.
pub open spec fn envelope_of(e: Envelope, m: SessionModel) -> bool {
    &&& e.name@ == m.name
    &&& opt_text(e.local) == m.local
    &&& opt_text(e.peer) == m.peer
    &&& opt_helo(e.helo) == m.helo
    &&& opt_mail(e.mail) == m.mail
    &&& e.id@ == uuid_text(m.mailid)
    &&& e.rcpts.deep_view() == m.rcpts
}

/// The request shows the session's transaction and the recipient.
pub open spec fn rcpt_request_of(q: AcceptRecipientRequest, m: SessionModel, rcpt: SpecPath) -> bool {
    &&& q.name@ == m.name
    &&& opt_text(q.local) == m.local
    &&& opt_text(q.peer) == m.peer
    &&& opt_helo(q.helo) == m.helo
    &&& opt_mail(q.mail) == m.mail
    &&& q.id@ == uuid_text(m.mailid)
    &&& q.rcpt@ == rcpt
}

/// Whether the service turned the recipient down.
pub open spec fn refused(r: AcceptRecipientResult) -> bool {
    match r {
        AcceptRecipientResult::Accepted(_) => false,
        AcceptRecipientResult::AcceptedWithNewPath(_) => false,
        _ => true,
    }
}

/// A recipient the service takes, as it is or with a new path, is never
/// turned down; one it rejects, with or without a new path, or fails to
/// check, is.
pub proof fn lemma_accepted_recipients_pass(res: AcceptRecipientResult)
    ensures
        (res is Accepted || res is AcceptedWithNewPath) ==> !refused(res),
        (res is Rejected || res is RejectedWithNewPath || res is Failed) ==> refused(res),
{
}

/// The session with its first answer given.
pub open spec fn popped(m: SessionModel) -> SessionModel {
    SessionModel { answers: m.answers.drop_first(), ..m }
}

/// The session with its transaction and its answers dropped.
pub open spec fn cancelled(m: SessionModel) -> SessionModel {
    SessionModel { answers: Seq::empty(), ..drop_transaction(m) }
}

/// What taking the next answer did: nothing where none is owed; where
/// the session accepts mail data, the service was asked with `mail` for a
/// sink for the envelope, and without one the transaction is cancelled and
/// the peer told the mailbox is unavailable; where it queues the mail, the
/// sink was queued with `queue`; any other answer is passed on.
pub open spec fn answered<W, FM: FnOnce(Envelope) -> Option<W>, FQ: FnOnce(W) -> QueueResult>(
    before: Mail<W>,
    after: Mail<W>,
    mail: FM,
    queue: FQ,
    r: Option<ClientControll>,
) -> bool {
    let m = before.session_model();
    if m.answers.len() == 0 {
        &&& r is None
        &&& after.session_model() == m
        &&& after.sink() == before.sink()
        &&& after.queued() == before.queued()
    } else {
        match m.answers[0] {
            SpecClientControll::AcceptData => exists|e: Envelope, w: Option<W>| {
                &&& envelope_of(e, popped(m))
                &&& call_ensures(mail, (e,), w)
                &&& after.sink() == w
                &&& after.queued() is None
                &&& (w is None ==> after.session_model() == cancelled(popped(m))
                    && opt_controll(r) == Some(SpecClientControll::Reply(not_accepted())))
                &&& (w is Some ==> after.session_model() == popped(m)
                    && opt_controll(r) == Some(SpecClientControll::AcceptData))
            },
            SpecClientControll::QueueMail => exists|q: QueueResult| {
                &&& call_ensures(queue, (before.sink()->0,), q)
                &&& after.queued() == Some(q)
                &&& after.sink() is None
                &&& after.session_model() == popped(m)
                &&& opt_controll(r) == Some(SpecClientControll::QueueMail)
            },
            c => {
                &&& opt_controll(r) == Some(c)
                &&& after.session_model() == popped(m)
                &&& after.sink() == before.sink()
                &&& after.queued() == before.queued()
            },
        }
    }
}

/// What looking at the outcome of queueing did: a mail that failed or
/// was refused cancels the transaction and is answered; otherwise nothing
/// is said. The outcome is taken; the sink stays.
pub open spec fn queue_checked<W>(before: Mail<W>, after: Mail<W>, r: Option<ClientControll>) -> bool {
    &&& after.queued() is None
    &&& after.sink() == before.sink()
    &&& match before.queued() {
        Some(QueueResult::Failed) => after.session_model() == cancelled(before.session_model())
            && opt_controll(r) == Some(SpecClientControll::Reply(not_accepted())),
        Some(QueueResult::Refused) => after.session_model() == cancelled(before.session_model())
            && opt_controll(r) == Some(SpecClientControll::Reply(queue_failed())),
        _ => after.session_model() == before.session_model() && r is None,
    }
}

/// The session moved on by the control, with the mail's sink and queue
/// outcome left alone.
pub open spec fn advanced<W>(before: Mail<W>, after: Mail<W>, ctrl: SpecServerControll) -> bool {
    &&& after.session_model() == controll_step(before.session_model(), ctrl, after.session_model().mailid)
    &&& (!greets(ctrl) ==> after.session_model().mailid == before.session_model().mailid)
    &&& after.queued() == before.queued()
}

/// Why a control could not be taken.
#[derive(Debug, Clone, Copy, PartialEq, Eq)]
pub enum MailError {
    /// Mail data came while the service had given no sink for it.
    NotConnected,
}

/// The sink of a mail, once the service has given one, and the outcome
/// of queueing it.
struct EventualMail<W> {
    sink: Option<W>,
    queued: Option<QueueResult>,
}

impl<W> EventualMail<W> {
    fn new() -> (r: Self)
        ensures
            r.sink is None,
            r.queued is None,
    {
        Self { sink: None, queued: None }
    }
}

/// The mail side of a session over a mail data sink `W`.
pub struct Mail<W> {
    state: Session,
    write: EventualMail<W>,
}

impl<W> Mail<W> {
    pub closed spec fn session_model(&self) -> SessionModel {
        self.state@
    }

    /// The sink the mail data goes to.
    pub closed spec fn sink(&self) -> Option<W> {
        self.write.sink
    }

    /// The outcome of queueing, not yet looked at.
    pub closed spec fn queued(&self) -> Option<QueueResult> {
        self.write.queued
    }

    pub closed spec fn wf(&self) -> bool {
        self.state.wf()
    }

    /// A well-formed session is consistent: its buffers agree with how far
    /// the mail transaction has come.
    pub proof fn lemma_wf_consistent(&self)
        requires
            self.wf(),
        ensures
            crate::model::session::consistent(self.session_model()),
    {
        self.state.lemma_wf_consistent();
    }

    /// A new session, with no sink yet.
    pub fn new() -> (r: Self)
        ensures
            r.wf(),
            r.session_model().state == crate::model::session::SessionState::New,
            r.session_model().answers.len() == 0,
            r.sink() is None,
            r.queued() is None,
    {
        Self { state: Session::new(), write: EventualMail::new() }
    }

    /// The session.
    pub fn session(&self) -> (r: &Session)
        ensures
            r@ == self.session_model(),
    {
        &self.state
    }

    /// Names the session after the mail service.
    pub fn set_service_name(&mut self, name: &str)
        requires
            old(self).wf(),
        ensures
            final(self).wf(),
            final(self).session_model() == (SessionModel { name: name@, ..old(self).session_model() }),
            final(self).sink() == old(self).sink(),
            final(self).queued() == old(self).queued(),
    {
        self.state.set_name(name);
    }

    /// The next answer of the session. Where it accepts mail data, the
    /// service is asked with `mail` for a sink for the envelope; without
    /// one the transaction is cancelled and the peer told the mailbox is
    /// unavailable. Where it queues the mail, the sink is queued with
    /// `queue`.
    pub fn take_answer<FM: FnOnce(Envelope) -> Option<W>, FQ: FnOnce(W) -> QueueResult>(
        &mut self,
        mail: FM,
        queue: FQ,
    ) -> (r: Option<ClientControll>)
        requires
            old(self).wf(),
            old(self).session_model().answers.len() > 0 && old(self).session_model().answers[0] is QueueMail
                ==> old(self).sink() is Some,
            forall|e: Envelope| call_requires(mail, (e,)),
            forall|w: W| call_requires(queue, (w,)),
        ensures
            final(self).wf(),
            answered(*old(self), *final(self), mail, queue, r),
    {
        let ctrl = match self.state.answer() {
            None => return None,
            Some(ctrl) => ctrl,
        };
        match ctrl {
            ClientControll::AcceptData => {
                let envelope = self.state.extract_envelope();
                let write = mail(envelope);
                match write {
                    None => {
                        self.write.sink = None;
                        self.write.queued = None;
                        self.state.cancel();
                        Some(reply_mail_not_accepted())
                    },
                    Some(w) => {
                        self.write.sink = Some(w);
                        self.write.queued = None;
                        Some(ClientControll::AcceptData)
                    },
                }
            },
            ClientControll::QueueMail => {
                let sink = self.write.sink.take();
                match sink {
                    Some(w) => {
                        self.write.queued = Some(queue(w));
                    },
                    None => {
                        assert(false);
                    },
                }
                Some(ClientControll::QueueMail)
            },
            a => Some(a),
        }
    }

    /// Looks at the outcome of queueing: a mail that failed or was refused
    /// cancels the transaction and is answered; otherwise nothing is said.
    pub fn check_queue(&mut self) -> (r: Option<ClientControll>)
        requires
            old(self).wf(),
        ensures
            final(self).wf(),
            final(self).queued() is None,
            final(self).sink() == old(self).sink(),
            queue_checked(*old(self), *final(self), r),
    {
        match self.write.queued.take() {
            Some(QueueResult::Failed) => {
                self.state.cancel();
                Some(reply_mail_not_accepted())
            },
            Some(QueueResult::Refused) => {
                self.state.cancel();
                Some(reply_mail_queue_failed())
            },
            _ => None,
        }
    }

    /// Asks the service with `accept` whether it takes the recipient of an
    /// RCPT command; a recipient turned down is answered here, and the
    /// command goes no further.
    pub fn check_rcpt<FA: FnOnce(AcceptRecipientRequest) -> AcceptRecipientResult>(
        &self,
        ctrl: &ServerControll,
        accept: FA,
    ) -> (r: Option<ClientControll>)
        requires
            forall|q: AcceptRecipientRequest| call_requires(accept, (q,)),
        ensures
            match ctrl@ {
                SpecServerControll::Command(SpecCommand::Rcpt(p)) => exists|q: AcceptRecipientRequest, res: AcceptRecipientResult| {
                    &&& rcpt_request_of(q, self.session_model(), p)
                    &&& call_ensures(accept, (q,), res)
                    &&& (refused(res) ==> opt_controll(r) == Some(SpecClientControll::Reply(not_accepted())))
                    &&& (!refused(res) ==> r is None)
                    &&& ((res is Accepted || res is AcceptedWithNewPath) ==> r is None)
                },
                _ => r is None,
            },
    {
        match ctrl {
            ServerControll::Command(SmtpCommand::Rcpt(rcpt)) => {
                let request = self.state.extract_rcpt(rcpt);
                let result = accept(request);
                match result {
                    AcceptRecipientResult::Accepted(_) => None,
                    AcceptRecipientResult::AcceptedWithNewPath(_) => None,
                    _ => Some(reply_recipient_not_accepted()),
                }
            },
            _ => None,
        }
    }

    /// Moves the session on by the control; the answers come later.
    pub fn advance(&mut self, ctrl: ServerControll) -> (r: ClientControll)
        requires
            old(self).wf(),
        ensures
            final(self).wf(),
            final(self).session_model() == controll_step(old(self).session_model(), ctrl@, final(self).session_model().mailid),
            !greets(ctrl@) ==> final(self).session_model().mailid == old(self).session_model().mailid,
            final(self).sink() == old(self).sink(),
            final(self).queued() == old(self).queued(),
            r@ == SpecClientControll::Noop,
    {
        self.state.controll(ctrl);
        ClientControll::Noop
    }

    /// The work of a poll before the stream is read: an answer the session
    /// owes comes first; where none is owed, the outcome of queueing is
    /// looked at. `None` says that the next control is to be read.
    pub fn poll_pending<FM: FnOnce(Envelope) -> Option<W>, FQ: FnOnce(W) -> QueueResult>(
        &mut self,
        mail: FM,
        queue: FQ,
    ) -> (r: Option<ClientControll>)
        requires
            old(self).wf(),
            old(self).session_model().answers.len() > 0 && old(self).session_model().answers[0] is QueueMail
                ==> old(self).sink() is Some,
            forall|e: Envelope| call_requires(mail, (e,)),
            forall|w: W| call_requires(queue, (w,)),
        ensures
            final(self).wf(),
            old(self).session_model().answers.len() > 0 ==> answered(*old(self), *final(self), mail, queue, r),
            old(self).session_model().answers.len() == 0 ==> queue_checked(*old(self), *final(self), r),
    {
        if self.state.answer_count() > 0 {
            self.take_answer(mail, queue)
        } else {
            self.check_queue()
        }
    }

    /// Takes the control read from the stream: a recipient that the
    /// service turns down with `accept` is answered and goes no further;
    /// mail data is written to the sink with `write`, and is refused where
    /// there is no sink; then the session moves on by the control, and its
    /// answers come on the next polls.
    pub fn take_control<
        FA: FnOnce(AcceptRecipientRequest) -> AcceptRecipientResult,
        FW: FnOnce(W, Vec<u8>) -> W,
    >(&mut self, ctrl: ServerControll, accept: FA, write: FW) -> (r: Result<ClientControll, MailError>)
        requires
            old(self).wf(),
            forall|q: AcceptRecipientRequest| call_requires(accept, (q,)),
            forall|w: W, d: Vec<u8>| call_requires(write, (w, d)),
        ensures
            final(self).wf(),
            match ctrl@ {
                SpecServerControll::Command(SpecCommand::Rcpt(p)) => exists|q: AcceptRecipientRequest, res: AcceptRecipientResult| {
                    &&& rcpt_request_of(q, old(self).session_model(), p)
                    &&& call_ensures(accept, (q,), res)
                    &&& (refused(res) ==> r == Ok::<ClientControll, MailError>(ClientControll::Reply(SmtpReply::MailboxNotAvailableFailure))
                        && final(self).session_model() == old(self).session_model()
                        && final(self).sink() == old(self).sink()
                        && final(self).queued() == old(self).queued())
                    &&& (!refused(res) ==> r == Ok::<ClientControll, MailError>(ClientControll::Noop)
                        && advanced(*old(self), *final(self), ctrl@)
                        && final(self).sink() == old(self).sink())
                    &&& ((res is Accepted || res is AcceptedWithNewPath) ==> r == Ok::<ClientControll, MailError>(ClientControll::Noop)
                        && advanced(*old(self), *final(self), ctrl@))
                },
                SpecServerControll::DataChunk(b) => match old(self).sink() {
                    None => r == Err::<ClientControll, MailError>(MailError::NotConnected)
                        && final(self).session_model() == old(self).session_model()
                        && final(self).sink() == old(self).sink()
                        && final(self).queued() == old(self).queued(),
                    Some(w) => exists|d: Vec<u8>, w2: W| {
                        &&& d@ == b
                        &&& call_ensures(write, (w, d), w2)
                        &&& final(self).sink() == Some(w2)
                        &&& r == Ok::<ClientControll, MailError>(ClientControll::Noop)
                        &&& advanced(*old(self), *final(self), ctrl@)
                    },
                },
                _ => r == Ok::<ClientControll, MailError>(ClientControll::Noop)
                    && advanced(*old(self), *final(self), ctrl@)
                    && final(self).sink() == old(self).sink(),
            },
    {
        match self.check_rcpt(&ctrl, accept) {
            Some(_) => {
                return Ok(ClientControll::Reply(SmtpReply::MailboxNotAvailableFailure));
            },
            None => {},
        }
        if let ServerControll::DataChunk(bytes) = &ctrl {
            let data = bytes.clone();
            match self.write.sink.take() {
                None => {
                    return Err(MailError::NotConnected);
                },
                Some(w) => {
                    self.write.sink = Some(write(w, data));
                },
            }
        }
        self.state.controll(ctrl);
        Ok(ClientControll::Noop)
    }

    /// Takes the sink out, to write mail data to it.
    pub fn take_sink(&mut self) -> (r: Option<W>)
        ensures
            r == old(self).sink(),
            final(self).sink() is None,
            final(self).queued() == old(self).queued(),
            final(self).session_model() == old(self).session_model(),
            final(self).wf() == old(self).wf(),
    {
        self.write.sink.take()
    }

    /// Puts the sink back.
    pub fn put_sink(&mut self, sink: Option<W>)
        ensures
            final(self).sink() == sink,
            final(self).queued() == old(self).queued(),
            final(self).session_model() == old(self).session_model(),
            final(self).wf() == old(self).wf(),
    {
        self.write.sink = sink;
    }
}

} // verus!
