//! What a mail service is told of a mail transaction.
use vstd::prelude::*;
use crate::model::command::{SmtpHelo, SmtpMail, SmtpPath};

verus! {

/// The mail envelope before the mail data is sent.
#[derive(Debug, Clone)]
pub struct Envelope {
    /// The service name.
    pub name: String,
    /// The local server endpoint.
    pub local: Option<String>,
    /// The remote peer endpoint.
    pub peer: Option<String>,
    /// The greeting sent by the peer.
    pub helo: Option<SmtpHelo>,
    /// The MAIL FROM path sent by the peer.
    pub mail: Option<SmtpMail>,
    /// The unique identifier of the mail.
    pub id: String,
    /// The RCPT TO paths sent by the peer.
    pub rcpts: Vec<SmtpPath>,
}

/// A request to check whether mail is accepted for a recipient.
#[derive(Debug, Clone)]
pub struct AcceptRecipientRequest {
    /// The service name.
    pub name: String,
    /// The local server endpoint.
    pub local: Option<String>,
    /// The remote peer endpoint.
    pub peer: Option<String>,
    /// The greeting sent by the peer.
    pub helo: Option<SmtpHelo>,
    /// The MAIL FROM path sent by the peer.
    pub mail: Option<SmtpMail>,
    /// The unique identifier of the mail.
    pub id: String,
    /// The RCPT TO path to check.
    pub rcpt: SmtpPath,
}

/// The answer of a mail service about a recipient.
#[derive(Debug, Clone)]
pub enum AcceptRecipientResult {
    Failed,
    Rejected,
    RejectedWithNewPath(SmtpPath),
    AcceptedWithNewPath(SmtpPath),
    Accepted(SmtpPath),
}

/// The answer of a mail service about queueing a mail.
#[derive(Debug, Clone)]
pub enum QueueResult {
    QueuedWithId(String),
    Refused,
    Failed,
}

} // verus!
