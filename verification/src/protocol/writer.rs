//! Writing SMTP replies to the wire.
use vstd::prelude::*;
use vstd::string::*;
use vstd::utf8::encode_utf8;
use crate::model::response::{
    item_lines, line_continued, line_end, reply_chars, SmtpReply, SmtpReplyCategory, SmtpReplyClass,
    SmtpReplyDigit, class_value, category_value, digit_value,
};
use crate::model::text::{decimal, push_char, push_decimal, push_str, text_of};
use crate::grammar::text::lemma_encode_concat;

verus! {

/// Appends the UTF-8 bytes of a text to a buffer.
pub fn append_text(buf: &mut Vec<u8>, t: &str)
    ensures
        final(buf)@ == old(buf)@ + encode_utf8(t@),
{
    let bytes = t.as_bytes();
    let mut i: usize = 0;
    while i < bytes.len()
        invariant
            i <= bytes@.len(),
            bytes@ == encode_utf8(t@),
            buf@ == old(buf)@ + bytes@.subrange(0, i as int),
        decreases bytes@.len() - i,
    {
        buf.push(bytes[i]);
        i = i + 1;
        assert(buf@ =~= old(buf)@ + bytes@.subrange(0, i as int));
    }
    assert(bytes@.subrange(0, i as int) =~= bytes@);
}

/// Serializes replies.
pub struct SmtpSerializer;

/// Something that writes replies to a byte buffer.
pub trait SmtpAnswerSerializer {
    fn write(&self, buf: &mut Vec<u8>, answer: SmtpReply)
        ensures
            final(buf)@ == old(buf)@ + encode_utf8(reply_chars(answer@)),
    ;
}

fn class_code(c: SmtpReplyClass) -> (r: u16)
    ensures
        r == class_value(c),
{
    match c {
        SmtpReplyClass::Info => 200,
        SmtpReplyClass::Challenge => 300,
        SmtpReplyClass::Error => 400,
        SmtpReplyClass::Failure => 500,
    }
}

fn category_code(c: SmtpReplyCategory) -> (r: u16)
    ensures
        r == category_value(c),
{
    match c {
        SmtpReplyCategory::Syntax => 0,
        SmtpReplyCategory::Information => 10,
        SmtpReplyCategory::Connections => 20,
        SmtpReplyCategory::Reserved3 => 30,
        SmtpReplyCategory::Reserved4 => 40,
        SmtpReplyCategory::System => 50,
    }
}

fn digit_code(d: SmtpReplyDigit) -> (r: u16)
    ensures
        r == digit_value(d),
{
    match d {
        SmtpReplyDigit::D0 => 0,
        SmtpReplyDigit::D1 => 1,
        SmtpReplyDigit::D2 => 2,
        SmtpReplyDigit::D3 => 3,
        SmtpReplyDigit::D4 => 4,
        SmtpReplyDigit::D5 => 5,
        SmtpReplyDigit::D6 => 6,
        SmtpReplyDigit::D7 => 7,
        SmtpReplyDigit::D8 => 8,
        SmtpReplyDigit::D9 => 9,
    }
}

fn concat(a: &str, b: &str) -> (r: String)
    ensures
        r@ == a@ + b@,
{
    let mut s = text_of(a);
    push_str(&mut s, b);
    s
}

fn copy_texts(v: &Vec<String>) -> (r: Vec<String>)
    ensures
        r.deep_view() == v.deep_view(),
{
    let mut out: Vec<String> = Vec::new();
    let mut i: usize = 0;
    assert(out.deep_view() =~= v.deep_view().subrange(0, 0));
    while i < v.len()
        invariant
            i <= v.len(),
            out.deep_view() == v.deep_view().subrange(0, i as int),
        decreases v.len() - i,
    {
        let ghost before = out.deep_view();
        let c = v[i].clone();
        assert(c@ == v.deep_view()[i as int]);
        out.push(c);
        i = i + 1;
        assert(out.deep_view() =~= before.push(c@));
        assert(out.deep_view() =~= v.deep_view().subrange(0, i as int));
    }
    assert(v.deep_view().subrange(0, i as int) =~= v.deep_view());
    out
}

impl SmtpSerializer {
    pub fn answer_serializer() -> (r: SmtpSerializer)
        ensures
            r == SmtpSerializer,
    {
        SmtpSerializer
    }

    /// The reply code.
    pub fn reply_code(&self, reply: &SmtpReply) -> (r: u16)
        ensures
            r == reply@.code,
    {
        match reply {
            SmtpReply::Custom(class, category, digit, _, _) => {
                class_code(*class) + category_code(*category) + digit_code(*digit)
            },
            SmtpReply::CommandSyntaxFailure => 500,
            SmtpReply::ParameterSyntaxFailure => 501,
            SmtpReply::CommandNotImplementedFailure => 502,
            SmtpReply::CommandSequenceFailure => 503,
            SmtpReply::UnexpectedParameterFailure => 504,
            SmtpReply::StatusInfo(_) => 211,
            SmtpReply::HelpInfo(_) => 214,
            SmtpReply::ServiceReadyInfo(_) => 220,
            SmtpReply::ClosingConnectionInfo(_) => 221,
            SmtpReply::ServiceNotAvailableError(_) => 421,
            SmtpReply::MailNotAcceptedByHostFailure => 521,
            SmtpReply::OkInfo(_, _) => 250,
            SmtpReply::OkHeloInfo { .. } => 250,
            SmtpReply::OkEhloInfo { .. } => 250,
            SmtpReply::OkMessageInfo(_) => 250,
            SmtpReply::UserNotLocalInfo(_) => 251,
            SmtpReply::CannotVerifyUserInfo => 252,
            SmtpReply::StartMailInputChallenge => 354,
            SmtpReply::MailboxNotAvailableError => 450,
            SmtpReply::ProcesingError => 451,
            SmtpReply::StorageError => 452,
            SmtpReply::ParametersNotAccommodatedError => 455,
            SmtpReply::MailboxNotAvailableFailure => 550,
            SmtpReply::UserNotLocalFailure(_) => 551,
            SmtpReply::StorageFailure => 552,
            SmtpReply::MailboxNameInvalidFailure => 553,
            SmtpReply::TransactionFailure => 554,
            SmtpReply::UnknownMailParametersFailure => 555,
            SmtpReply::MailNotAcceptedByDomainFailure => 556,
        }
    }

    /// The text of the first line of the reply.
    pub fn reply_text(&self, reply: &SmtpReply) -> (r: String)
        ensures
            r@ == reply@.text,
    {
        match reply {
            SmtpReply::Custom(_, _, _, text, _) => text.clone(),
            SmtpReply::CommandSyntaxFailure => text_of("Syntax error, command unrecognized"),
            SmtpReply::ParameterSyntaxFailure => text_of("Syntax error in parameters or arguments"),
            SmtpReply::CommandNotImplementedFailure => text_of("Command not implemented"),
            SmtpReply::CommandSequenceFailure => text_of("Bad sequence of commands"),
            SmtpReply::UnexpectedParameterFailure => text_of("Command parameter not implemented"),
            SmtpReply::StatusInfo(text) => text.clone(),
            SmtpReply::HelpInfo(text) => text.clone(),
            SmtpReply::ServiceReadyInfo(domain) => concat(domain.as_str(), " Service ready"),
            SmtpReply::ClosingConnectionInfo(domain) => concat(domain.as_str(), " Service closing transmission channel"),
            SmtpReply::ServiceNotAvailableError(domain) => concat(domain.as_str(), " Service not available, closing transmission channel"),
            SmtpReply::MailNotAcceptedByHostFailure => text_of("Host does not accept mail"),
            SmtpReply::OkInfo(text, _) => {
                if text.as_str().is_empty() {
                    text_of("Ok")
                } else {
                    text.clone()
                }
            },
            SmtpReply::OkHeloInfo { local, remote } | SmtpReply::OkEhloInfo { local, remote, .. } => {
                let mut s = concat(local.as_str(), " greets ");
                push_str(&mut s, remote.as_str());
                s
            },
            SmtpReply::OkMessageInfo(text) => text.clone(),
            SmtpReply::UserNotLocalInfo(path) => concat("User not local, will forward to ", path.as_str()),
            SmtpReply::CannotVerifyUserInfo => text_of("Cannot VFRY user, but will accept message and attempt delivery"),
            SmtpReply::StartMailInputChallenge => text_of("Start mail input, // end with <CRLF>.<CRLF>"),
            SmtpReply::MailboxNotAvailableError => text_of("Requested mail action not taken: mailbox unavailable"),
            SmtpReply::ProcesingError => text_of("Requested action aborted: error in processing"),
            SmtpReply::StorageError => text_of("Requested action not taken: insufficient system storage"),
            SmtpReply::ParametersNotAccommodatedError => text_of("Server unable to accommodate parameters"),
            SmtpReply::MailboxNotAvailableFailure => text_of("Requested action not taken: mailbox unavailable"),
            SmtpReply::UserNotLocalFailure(path) => concat("User not local; please try ", path.as_str()),
            SmtpReply::StorageFailure => text_of("Requested mail action aborted: exceeded storage allocation"),
            SmtpReply::MailboxNameInvalidFailure => text_of("Requested action not taken: mailbox name not allowed"),
            SmtpReply::TransactionFailure => text_of("Transaction failed"),
            SmtpReply::UnknownMailParametersFailure => text_of("MAIL FROM/RCPT TO parameters not recognized or not implemented"),
            SmtpReply::MailNotAcceptedByDomainFailure => text_of("Domain does not accept mail"),
        }
    }

    /// The texts of the further lines of the reply.
    pub fn reply_items(&self, reply: &SmtpReply) -> (r: Vec<String>)
        ensures
            r.deep_view() == reply@.items,
    {
        match reply {
            SmtpReply::Custom(_, _, _, _, items) => copy_texts(items),
            SmtpReply::OkInfo(_, items) => copy_texts(items),
            SmtpReply::OkEhloInfo { extensions, .. } => copy_texts(extensions),
            _ => {
                let v: Vec<String> = Vec::new();
                assert(v.deep_view() =~= Seq::<Seq<char>>::empty());
                v
            },
        }
    }

    /// Writes the reply: its lines, then CR LF.
    pub fn write_reply(&self, buf: &mut Vec<u8>, reply: SmtpReply)
        ensures
            final(buf)@ == old(buf)@ + encode_utf8(reply_chars(reply@)),
    {
        let code = self.reply_code(&reply);
        let text = self.reply_text(&reply);
        let items = self.reply_items(&reply);
        let ghost start = buf@;
        let ghost iv = items.deep_view();
        let ghost written: Seq<char>;
        if items.len() == 0 {
            self.write_reply_end(buf, code, text.as_str());
            proof {
                written = line_end(code as nat, text@);
            }
        } else {
            self.write_reply_continued(buf, code, text.as_str());
            let ghost head = line_continued(code as nat, text@);
            let ghost mut pre: Seq<char> = Seq::empty();
            let n = items.len();
            let mut i: usize = 0;
            assert(iv.skip(0) =~= iv);
            assert(head + pre =~= head);
            while i < n
                invariant
                    i <= n,
                    n == items.len(),
                    n > 0,
                    iv == items.deep_view(),
                    buf@ == start + encode_utf8(head + pre),
                    pre + item_lines(code as nat, iv.skip(i as int)) == item_lines(code as nat, iv),
                decreases n - i,
            {
                let ghost before = buf@;
                let ghost rest = iv.skip(i as int);
                assert(rest.drop_first() =~= iv.skip(i + 1));
                let ghost line;
                if i == n - 1 {
                    self.write_reply_end(buf, code, items[i].as_str());
                    proof {
                        line = line_end(code as nat, iv[i as int]);
                    }
                } else {
                    self.write_reply_continued(buf, code, items[i].as_str());
                    proof {
                        line = line_continued(code as nat, iv[i as int]);
                    }
                }
                proof {
                    lemma_encode_concat(head + pre, line);
                    assert(head + pre + line =~= head + (pre + line));
                    if i == n - 1 {
                        assert(iv.skip(i + 1) =~= Seq::<Seq<char>>::empty());
                    }
                    assert(pre + line + item_lines(code as nat, iv.skip(i + 1)) =~= pre + item_lines(code as nat, rest));
                    pre = pre + line;
                }
                i = i + 1;
            }
            proof {
                assert(iv.skip(n as int) =~= Seq::<Seq<char>>::empty());
                assert(pre + Seq::<char>::empty() =~= pre);
                written = head + pre;
            }
        }
        assert(buf@ == start + encode_utf8(written));
        append_text(buf, "\r\n");
        proof {
            reveal_strlit("\r\n");
            assert("\r\n"@ =~= seq!['\r', '\n']);
            lemma_encode_concat(written, seq!['\r', '\n']);
            assert(written + seq!['\r', '\n'] =~= reply_chars(reply@));
            assert(buf@ =~= start + encode_utf8(written + seq!['\r', '\n']));
        }
    }

    /// Writes the last line of a reply.
    pub fn write_reply_end(&self, buf: &mut Vec<u8>, code: u16, text: &str)
        ensures
            final(buf)@ == old(buf)@ + encode_utf8(line_end(code as nat, text@)),
    {
        let mut s = String::new();
        push_decimal(&mut s, code as u32);
        push_char(&mut s, ' ');
        push_str(&mut s, text);
        assert(s@ =~= line_end(code as nat, text@));
        append_text(buf, s.as_str());
    }

    /// Writes a line of a reply that more lines follow, with its CR LF.
    pub fn write_reply_continued(&self, buf: &mut Vec<u8>, code: u16, text: &str)
        ensures
            final(buf)@ == old(buf)@ + encode_utf8(line_continued(code as nat, text@)),
    {
        let mut s = String::new();
        push_decimal(&mut s, code as u32);
        push_char(&mut s, '-');
        push_str(&mut s, text);
        push_char(&mut s, '\r');
        push_char(&mut s, '\n');
        assert(s@ =~= line_continued(code as nat, text@));
        append_text(buf, s.as_str());
    }
}

impl SmtpAnswerSerializer for SmtpSerializer {
    fn write(&self, buf: &mut Vec<u8>, answer: SmtpReply) {
        self.write_reply(buf, answer)
    }
}

} // verus!
