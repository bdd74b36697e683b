//! The reply writer handed to the codec.
use vstd::prelude::*;
use vstd::utf8::encode_utf8;
use crate::model::response::{SmtpReply, reply_chars};
use crate::protocol::writer::SmtpSerializer;

verus! {

/// Writes an SMTP reply to a buffer.
pub trait SmtpAnswerWriter {
    fn write(&self, buf: &mut Vec<u8>, answer: SmtpReply)
        ensures
            final(buf)@ == old(buf)@ + encode_utf8(reply_chars(answer@)),
    ;
}

/// The reply writer that puts each reply in its wire form.
#[derive(Debug, Clone, Copy, PartialEq, Eq)]
pub struct SmtpWriter;

impl SmtpWriter {
    /// The writer to hand to a codec.
    pub fn answer_writer() -> (r: SmtpWriter)
        ensures
            r == SmtpWriter,
    {
        SmtpWriter
    }
}

impl SmtpAnswerWriter for SmtpWriter {
    fn write(&self, buf: &mut Vec<u8>, answer: SmtpReply) {
        SmtpSerializer::answer_serializer().write_reply(buf, answer)
    }
}

} // verus!
