//! What the SMTP machine hands on once a mail is complete.
use vstd::prelude::*;
use crate::model::command::{SmtpConnection, SmtpHelo, SmtpMail, SmtpPath};

verus! {

/// A complete mail transaction.
pub fn new_mail(conn: SmtpConnection, helo: SmtpHelo, mail: SmtpMail, rcpt: Vec<SmtpPath>) -> (r: Mail)
    ensures
        r == (Mail { conn, helo, mail, rcpt }),
{
    Mail { conn, helo, mail, rcpt }
}

/// Something the machine asks to be done.
#[derive(Debug)]
pub enum Act {
    Mail(Mail),
}

/// A mail: who sent it, from where and to whom.
#[derive(Debug)]
pub struct Mail {
    pub conn: SmtpConnection,
    pub helo: SmtpHelo,
    pub mail: SmtpMail,
    pub rcpt: Vec<SmtpPath>,
}

/// Why an act was not done.
#[derive(Debug, Clone, Copy, PartialEq, Eq)]
pub enum ActError {
    Denied,
    Failed,
}

pub type ActResult = Result<Act, ActError>;

} // verus!
