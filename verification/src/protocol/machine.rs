//! The session run over a stream of server controls: each control is
//! answered by what the session says.
use vstd::prelude::*;
use crate::model::controll::{ClientControll, ServerControll};
use crate::model::session::{Session, SessionModel, controll_step, greets};

verus! {

/// The stream and the session.
pub struct Machine<S> {
    stream: S,
    state: Session,
}

impl<S> Machine<S> {
    pub closed spec fn session_model(&self) -> SessionModel {
        self.state@
    }

    pub closed spec fn wf(&self) -> bool {
        self.state.wf()
    }

    /// A well-formed session is consistent: its buffers agree with how far
    /// the mail transaction has come.
    pub proof fn lemma_wf_consistent(&self)
        requires
            self.wf(),
        ensures
            crate::model::session::consistent(self.session_model()),
    {
        self.state.lemma_wf_consistent();
    }

    /// A new session under the given name.
    pub fn new(stream: S, name: String) -> (r: Self)
        ensures
            r.wf(),
            r.session_model().name == name@,
            r.session_model().state == crate::model::session::SessionState::New,
            r.session_model().answers.len() == 0,
    {
        let mut me = Self { stream, state: Session::new() };
        me.state.set_name(name.as_str());
        me
    }

    /// An answer still owed, if any.
    pub fn answer(&mut self) -> (r: Option<ClientControll>)
        requires
            old(self).wf(),
        ensures
            final(self).wf(),
            match r {
                Some(c) => old(self).session_model().answers.len() > 0
                    && c@ == old(self).session_model().answers[0]
                    && final(self).session_model() == (SessionModel {
                        answers: old(self).session_model().answers.drop_first(),
                        ..old(self).session_model()
                    }),
                None => old(self).session_model().answers.len() == 0
                    && final(self).session_model() == old(self).session_model(),
            },
    {
        self.state.answer()
    }

    /// Takes the next control and gives the first answer it brings, if any.
    pub fn controll(&mut self, ctrl: ServerControll) -> (r: Option<ClientControll>)
        requires
            old(self).wf(),
        ensures
            final(self).wf(),
            ({
                let m = controll_step(old(self).session_model(), ctrl@, final(self).session_model().mailid);
                match r {
                    Some(c) => m.answers.len() > 0 && c@ == m.answers[0]
                        && final(self).session_model() == (SessionModel { answers: m.answers.drop_first(), ..m }),
                    None => m.answers.len() == 0 && final(self).session_model() == m,
                }
            }),
            !greets(ctrl@) ==> final(self).session_model().mailid == old(self).session_model().mailid,
    {
        self.state.controll(ctrl);
        self.state.answer()
    }
}

} // verus!
