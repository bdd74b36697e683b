//! The states of a mail transaction as the SMTP machine goes through them.
use vstd::prelude::*;
use crate::model::command::{SmtpConnection, SmtpHelo, SmtpMail, SmtpPath};

verus! {

/// Nobody has connected yet.
#[derive(Debug)]
pub struct Session;

/// A peer has connected.
#[derive(Debug)]
pub struct Conn {
    pub conn: SmtpConnection,
}

/// The peer has greeted.
#[derive(Debug)]
pub struct Helo {
    pub conn: SmtpConnection,
    pub helo: SmtpHelo,
}

/// The peer has named the sender.
#[derive(Debug)]
pub struct Mail {
    pub conn: SmtpConnection,
    pub helo: SmtpHelo,
    pub mail: SmtpMail,
}

/// The peer has named recipients.
#[derive(Debug)]
pub struct Rcpt {
    pub conn: SmtpConnection,
    pub helo: SmtpHelo,
    pub mail: SmtpMail,
    pub rcpt: Vec<SmtpPath>,
}

/// The mail data is coming.
#[derive(Debug)]
pub struct Data {
    pub conn: SmtpConnection,
    pub helo: SmtpHelo,
    pub mail: SmtpMail,
    pub rcpt: Vec<SmtpPath>,
}

/// The session is over.
#[derive(Debug)]
pub struct Closed;

} // verus!
