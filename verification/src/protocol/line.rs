//! A codec that cuts the byte stream into lines, each ending with LF.
use vstd::prelude::*;
use vstd::utf8::{valid_utf8, decode_utf8, encode_utf8, decode_utf8_encode_utf8};
use vstd::slice::{slice_subrange, slice_to_vec};
use crate::model::command::{SmtpCommand, SpecCommand};
use crate::model::controll::{ClientControll, ServerControll, SpecServerControll};
use crate::model::response::reply_chars;
use crate::protocol::smtp::{utf8_string, BYTE_LF, control_bytes, opt_view};
use crate::protocol::writer::SmtpSerializer;

verus! {

/// The line codec; its model is how far the buffer was searched already.
pub struct LineCodec {
    next_index: usize,
}

impl View for LineCodec {
    type V = nat;

    closed spec fn view(&self) -> nat {
        self.next_index as nat
    }
}

/// The position of the first LF at or after `from`, if any.
pub open spec fn first_lf(buf: Seq<u8>, from: int) -> Option<int> {
    if exists|i: int| from <= i < buf.len() && buf[i] == BYTE_LF {
        Some(choose|i: int| from <= i < buf.len() && buf[i] == BYTE_LF
            && forall|j: int| from <= j < i ==> buf[j] != BYTE_LF)
    } else {
        None
    }
}

/// The control made of a line: a command to be read later where the
/// line is UTF-8 text, else invalid input.
pub open spec fn text_line(line: Seq<u8>) -> SpecServerControll {
    if valid_utf8(line) {
        SpecServerControll::Command(SpecCommand::Unknown(decode_utf8(line)))
    } else {
        SpecServerControll::Invalid(line)
    }
}

impl LineCodec {
    pub fn new() -> (r: Self)
        ensures
            r@ == 0,
    {
        LineCodec { next_index: 0 }
    }

    /// Takes the first line from the buffer, if a whole line is there.
    pub fn decode(&mut self, buf: &mut Vec<u8>) -> (r: Option<ServerControll>)
        requires
            old(self)@ <= old(buf)@.len(),
        ensures
            match first_lf(old(buf)@, old(self)@ as int) {
                Some(i) => {
                    &&& opt_view(r) == Some(text_line(old(buf)@.subrange(0, i + 1)))
                    &&& final(buf)@ == old(buf)@.subrange(i + 1, old(buf)@.len() as int)
                    &&& final(self)@ == 0
                },
                None => {
                    &&& r is None
                    &&& final(buf)@ == old(buf)@
                    &&& final(self)@ == old(buf)@.len()
                },
            },
            control_bytes(opt_view(r)) + final(buf)@ == old(buf)@,
    {
        let n = buf.len();
        let mut i = self.next_index;
        while i < n && buf[i] != BYTE_LF
            invariant
                n == buf@.len(),
                old(self)@ <= i <= n,
                buf@ == old(buf)@,
                forall|j: int| old(self)@ <= j < i ==> buf@[j] != BYTE_LF,
            decreases n - i,
        {
            i = i + 1;
        }
        if i == n {
            self.next_index = n;
            return None;
        }
        let ghost before = buf@;
        assert(forall|j: int| old(self)@ <= j < i ==> before[j] != BYTE_LF);
        proof {
            let k = choose|k: int| old(self)@ <= k < before.len() && before[k] == BYTE_LF
                && forall|j: int| old(self)@ <= j < k ==> before[j] != BYTE_LF;
            assert(before[i as int] == BYTE_LF);
            if k < i {
                assert(before[k] != BYTE_LF);
            }
            if k > i {
                assert(before[i as int] != BYTE_LF);
            }
            assert(k == i);
        }
        let line = slice_to_vec(slice_subrange(buf.as_slice(), 0, i + 1));
        let rest = slice_to_vec(slice_subrange(buf.as_slice(), i + 1, n));
        *buf = rest;
        self.next_index = 0;
        let ghost lb = line@;
        let copy = line.clone();
        assert(copy@ == lb);
        let ctrl = match utf8_string(copy) {
            Some(text) => ServerControll::Command(SmtpCommand::Unknown(text)),
            None => ServerControll::Invalid(line),
        };
        proof {
            if valid_utf8(lb) {
                decode_utf8_encode_utf8(lb);
            }
            assert(lb + buf@ =~= before);
        }
        Some(ctrl)
    }

    /// Writes a control towards the client; only replies put bytes on the wire.
    pub fn encode(&mut self, item: ClientControll, buf: &mut Vec<u8>)
        ensures
            match item {
                ClientControll::Reply(reply) => final(buf)@ == old(buf)@ + encode_utf8(reply_chars(reply@)),
                _ => final(buf)@ == old(buf)@,
            },
            final(self)@ == old(self)@,
    {
        match item {
            ClientControll::Reply(reply) => {
                SmtpSerializer::answer_serializer().write_reply(buf, reply);
            },
            _ => {},
        }
    }
}

} // verus!
