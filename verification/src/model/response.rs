//! SMTP replies: each a code, a first line of text and further lines.
use vstd::prelude::*;
use vstd::string::*;
use crate::model::text::decimal;

verus! {

/// The first digit of a reply code.
#[derive(Debug, Clone, Copy, PartialEq, Eq)]
pub enum SmtpReplyClass {
    Info,
    Challenge,
    Error,
    Failure,
}

/// The second digit of a reply code.
#[derive(Debug, Clone, Copy, PartialEq, Eq)]
pub enum SmtpReplyCategory {
    Syntax,
    Information,
    Connections,
    Reserved3,
    Reserved4,
    System,
}

/// The third digit of a reply code.
#[derive(Debug, Clone, Copy, PartialEq, Eq)]
pub enum SmtpReplyDigit {
    D0,
    D1,
    D2,
    D3,
    D4,
    D5,
    D6,
    D7,
    D8,
    D9,
}

/// An SMTP reply. The suffix of each name tells its class:
/// `Info` 2xx, `Challenge` 3xx, `Error` 4xx, `Failure` 5xx.
#[derive(Debug, Clone, PartialEq, Eq)]
pub enum SmtpReply {
    /// Any other reply, by its digits, text and further lines.
    Custom(SmtpReplyClass, SmtpReplyCategory, SmtpReplyDigit, String, Vec<String>),
    /// 500
    CommandSyntaxFailure,
    /// 501
    ParameterSyntaxFailure,
    /// 502
    CommandNotImplementedFailure,
    /// 503
    CommandSequenceFailure,
    /// 504
    UnexpectedParameterFailure,
    /// 211
    StatusInfo(String),
    /// 214
    HelpInfo(String),
    /// 220 <domain> Service ready
    ServiceReadyInfo(String),
    /// 221 <domain> Service closing transmission channel
    ClosingConnectionInfo(String),
    /// 421 <domain> Service not available, closing transmission channel
    ServiceNotAvailableError(String),
    /// 521, RFC 7504
    MailNotAcceptedByHostFailure,
    /// 250, the first line is either Ok or the given text, the items follow
    OkInfo(String, Vec<String>),
    /// 250, the answer to HELO
    OkHeloInfo { local: String, remote: String },
    /// 250, the answer to EHLO, with the extensions as further lines
    OkEhloInfo { local: String, remote: String, extensions: Vec<String> },
    /// 250, the given text
    OkMessageInfo(String),
    /// 251 will forward to <forward-path>
    UserNotLocalInfo(String),
    /// 252 but will accept message and attempt delivery
    CannotVerifyUserInfo,
    /// 354 end with <CRLF>.<CRLF>
    StartMailInputChallenge,
    /// 450 Requested mail action not taken
    MailboxNotAvailableError,
    /// 451 Requested action aborted
    ProcesingError,
    /// 452 Requested action not taken
    StorageError,
    /// 455 the parameters given cannot be accomodated now
    ParametersNotAccommodatedError,
    /// 550 Requested action not taken: mailbox unavailable
    MailboxNotAvailableFailure,
    /// 551 please try <forward-path>
    UserNotLocalFailure(String),
    /// 552 Requested mail action aborted: exceeded storage allocation
    StorageFailure,
    /// 553 Requested action not taken: mailbox name not allowed
    MailboxNameInvalidFailure,
    /// 554 Transaction failed
    TransactionFailure,
    /// 555 MAIL FROM/RCPT TO parameters not recognized or not implemented
    UnknownMailParametersFailure,
    /// 556, RFC 7504
    MailNotAcceptedByDomainFailure,
}

pub open spec fn class_value(c: SmtpReplyClass) -> nat {
    match c {
        SmtpReplyClass::Info => 200,
        SmtpReplyClass::Challenge => 300,
        SmtpReplyClass::Error => 400,
        SmtpReplyClass::Failure => 500,
    }
}

pub open spec fn category_value(c: SmtpReplyCategory) -> nat {
    match c {
        SmtpReplyCategory::Syntax => 0,
        SmtpReplyCategory::Information => 10,
        SmtpReplyCategory::Connections => 20,
        SmtpReplyCategory::Reserved3 => 30,
        SmtpReplyCategory::Reserved4 => 40,
        SmtpReplyCategory::System => 50,
    }
}

pub open spec fn digit_value(d: SmtpReplyDigit) -> nat {
    match d {
        SmtpReplyDigit::D0 => 0,
        SmtpReplyDigit::D1 => 1,
        SmtpReplyDigit::D2 => 2,
        SmtpReplyDigit::D3 => 3,
        SmtpReplyDigit::D4 => 4,
        SmtpReplyDigit::D5 => 5,
        SmtpReplyDigit::D6 => 6,
        SmtpReplyDigit::D7 => 7,
        SmtpReplyDigit::D8 => 8,
        SmtpReplyDigit::D9 => 9,
    }
}

/// The model of a reply: its code, the text of its first line and the texts
/// of the further lines.
pub struct SpecReply {
    pub code: nat,
    pub text: Seq<char>,
    pub items: Seq<Seq<char>>,
}

pub open spec fn fixed(code: nat, text: Seq<char>) -> SpecReply {
    SpecReply { code, text, items: Seq::empty() }
}

impl View for SmtpReply {
    type V = SpecReply;

    open spec fn view(&self) -> SpecReply {
        match self {
            SmtpReply::Custom(c, k, d, t, i) => SpecReply {
                code: class_value(*c) + category_value(*k) + digit_value(*d),
                text: t@,
                items: i.deep_view(),
            },
            SmtpReply::CommandSyntaxFailure => fixed(500, "Syntax error, command unrecognized"@),
            SmtpReply::ParameterSyntaxFailure => fixed(501, "Syntax error in parameters or arguments"@),
            SmtpReply::CommandNotImplementedFailure => fixed(502, "Command not implemented"@),
            SmtpReply::CommandSequenceFailure => fixed(503, "Bad sequence of commands"@),
            SmtpReply::UnexpectedParameterFailure => fixed(504, "Command parameter not implemented"@),
            SmtpReply::StatusInfo(t) => fixed(211, t@),
            SmtpReply::HelpInfo(t) => fixed(214, t@),
            SmtpReply::ServiceReadyInfo(d) => fixed(220, d@ + " Service ready"@),
            SmtpReply::ClosingConnectionInfo(d) => fixed(221, d@ + " Service closing transmission channel"@),
            SmtpReply::ServiceNotAvailableError(d) => fixed(421, d@ + " Service not available, closing transmission channel"@),
            SmtpReply::MailNotAcceptedByHostFailure => fixed(521, "Host does not accept mail"@),
            SmtpReply::OkInfo(t, i) => SpecReply {
                code: 250,
                text: if t@.len() == 0 { "Ok"@ } else { t@ },
                items: i.deep_view(),
            },
            SmtpReply::OkHeloInfo { local, remote } => fixed(250, local@ + " greets "@ + remote@),
            SmtpReply::OkEhloInfo { local, remote, extensions } => SpecReply {
                code: 250,
                text: local@ + " greets "@ + remote@,
                items: extensions.deep_view(),
            },
            SmtpReply::OkMessageInfo(t) => fixed(250, t@),
            SmtpReply::UserNotLocalInfo(p) => fixed(251, "User not local, will forward to "@ + p@),
            SmtpReply::CannotVerifyUserInfo => fixed(252, "Cannot VFRY user, but will accept message and attempt delivery"@),
            SmtpReply::StartMailInputChallenge => fixed(354, "Start mail input, // end with <CRLF>.<CRLF>"@),
            SmtpReply::MailboxNotAvailableError => fixed(450, "Requested mail action not taken: mailbox unavailable"@),
            SmtpReply::ProcesingError => fixed(451, "Requested action aborted: error in processing"@),
            SmtpReply::StorageError => fixed(452, "Requested action not taken: insufficient system storage"@),
            SmtpReply::ParametersNotAccommodatedError => fixed(455, "Server unable to accommodate parameters"@),
            SmtpReply::MailboxNotAvailableFailure => fixed(550, "Requested action not taken: mailbox unavailable"@),
            SmtpReply::UserNotLocalFailure(p) => fixed(551, "User not local; please try "@ + p@),
            SmtpReply::StorageFailure => fixed(552, "Requested mail action aborted: exceeded storage allocation"@),
            SmtpReply::MailboxNameInvalidFailure => fixed(553, "Requested action not taken: mailbox name not allowed"@),
            SmtpReply::TransactionFailure => fixed(554, "Transaction failed"@),
            SmtpReply::UnknownMailParametersFailure => fixed(555, "MAIL FROM/RCPT TO parameters not recognized or not implemented"@),
            SmtpReply::MailNotAcceptedByDomainFailure => fixed(556, "Domain does not accept mail"@),
        }
    }
}

/// The last line of a reply: the code, a space and the text; the CR LF
/// that ends it is added by `reply_chars`.
pub open spec fn line_end(code: nat, text: Seq<char>) -> Seq<char> {
    decimal(code) + seq![' '] + text
}

/// A line followed by more lines: the code, a hyphen, the text and CR LF.
pub open spec fn line_continued(code: nat, text: Seq<char>) -> Seq<char> {
    decimal(code) + seq!['-'] + text + seq!['\r', '\n']
}

/// The lines of the further items, the last one marked as the end.
pub open spec fn item_lines(code: nat, items: Seq<Seq<char>>) -> Seq<char>
    decreases items.len(),
{
    if items.len() == 0 {
        Seq::empty()
    } else if items.len() == 1 {
        line_end(code, items[0])
    } else {
        line_continued(code, items[0]) + item_lines(code, items.drop_first())
    }
}

/// The text of a reply on the wire: its lines one after the other, each
/// ending in CR LF.
pub open spec fn reply_chars(r: SpecReply) -> Seq<char> {
    if r.items.len() == 0 {
        line_end(r.code, r.text) + seq!['\r', '\n']
    } else {
        line_continued(r.code, r.text) + item_lines(r.code, r.items) + seq!['\r', '\n']
    }
}

} // verus!
