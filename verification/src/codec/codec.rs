//! The SMTP codec: turns the bytes that come in on a connection into the
//! items of the session, with the mail data cut at the lone dot, and the
//! replies into bytes.
use vstd::prelude::*;
use vstd::string::*;
use vstd::utf8::{valid_utf8, decode_utf8, encode_utf8, decode_utf8_encode_utf8};
use vstd::slice::{slice_subrange, slice_to_vec};
use crate::grammar::rules;
use crate::grammar::text::byte_pos;
use crate::model::command::{SmtpCommand, SmtpInput, SpecCommand, SpecInput, input_at, input_len};
use crate::model::response::{SmtpReply, reply_chars};
use crate::protocol::smtp::{find_at, first_dot, lone_dot, regex_find_at, utf8_string};
use crate::codec::parser::{SmtpParser, SmtpSessionParser};
use crate::codec::writer::{SmtpWriter, SmtpAnswerWriter};

verus! {

/// The end of mail data: a dot alone on its line.
pub open spec fn dot_pattern() -> Seq<char> {
    "\r\n\\.\r\n"@
}

/// What the codec holds: the items read and not yet handed out, whether
/// mail data is being read, the position in the stream and whether the
/// peer has gone.
pub struct CodecModel {
    pub requests: Seq<SpecInput>,
    pub streaming: bool,
    pub pos: int,
    pub closed: bool,
}

/// Whether an item asks the codec to go on with the next one.
#[derive(Debug, Clone, Copy, PartialEq, Eq)]
pub enum InputFlow {
    Stop,
    Continue,
}

/// The codec with other flags.
pub open spec fn with_flags(m: CodecModel, streaming: bool, closed: bool) -> CodecModel {
    CodecModel { requests: m.requests, streaming: streaming, pos: m.pos, closed: closed }
}

/// The item put at the current stream position and queued; the position
/// moves past it.
pub open spec fn queue_spec(m: CodecModel, inp: SpecInput) -> CodecModel {
    CodecModel {
        requests: m.requests.push(input_at(inp, m.pos)),
        streaming: m.streaming,
        pos: m.pos + input_len(inp),
        closed: m.closed,
    }
}

/// One item taken in: whether to stop after it, and the codec after it.
pub open spec fn process_spec(m: CodecModel, inp: SpecInput) -> (bool, CodecModel) {
    match inp {
        SpecInput::Command(_, _, SpecCommand::Data) => {
            let m1 = queue_spec(m, inp);
            if m.streaming {
                (true, m1)
            } else {
                (true, with_flags(queue_spec(m1, SpecInput::StreamStart(0)), true, m.closed))
            }
        },
        SpecInput::StreamStart(_) => {
            if m.streaming {
                (false, m)
            } else {
                (false, queue_spec(with_flags(m, true, m.closed), inp))
            }
        },
        SpecInput::StreamEnd(_) => (false, queue_spec(with_flags(m, false, m.closed), inp)),
        SpecInput::Disconnect => (false, queue_spec(with_flags(m, false, true), inp)),
        SpecInput::Incomplete(_, _, _) => (true, m),
        _ => (false, queue_spec(m, inp)),
    }
}

/// Items taken in one after another until one asks to stop.
pub open spec fn process_all(m: CodecModel, v: Seq<SpecInput>) -> CodecModel
    decreases v.len(),
{
    if v.len() == 0 {
        m
    } else {
        let (stop, m1) = process_spec(m, v[0]);
        if stop {
            m1
        } else {
            process_all(m1, v.drop_first())
        }
    }
}

/// What the codec makes of a buffer of bytes: the codec after it and the
/// bytes left for next time.
pub open spec fn decode_buffer_spec(m: CodecModel, bytes: Seq<u8>) -> (CodecModel, Seq<u8>) {
    let n = bytes.len() as int;
    if m.streaming {
        match regex_find_at(dot_pattern(), bytes, 0) {
            Some((s, e)) => {
                let m1 = process_spec(m, SpecInput::StreamData(0, s, bytes.take(s))).1;
                (process_spec(m1, SpecInput::StreamEnd(0)).1, bytes.skip(e))
            },
            None => (process_spec(m, SpecInput::StreamData(0, n, bytes)).1, Seq::empty()),
        }
    } else if !valid_utf8(bytes) {
        (process_spec(m, SpecInput::Invalid(0, n, bytes)).1, Seq::empty())
    } else {
        match rules::parse_session(decode_utf8(bytes)) {
            None => (process_spec(m, SpecInput::Invalid(0, n, bytes)).1, Seq::empty()),
            Some(v) => {
                let m1 = process_all(m, v);
                (m1, bytes.skip(m1.pos - m.pos))
            },
        }
    }
}

/// The first item read, taken from the queue.
pub open spec fn dequeue_spec(m: CodecModel) -> (Option<SpecInput>, CodecModel) {
    if m.requests.len() == 0 {
        (None, m)
    } else {
        (Some(m.requests[0]), CodecModel { requests: m.requests.drop_first(), ..m })
    }
}

/// One call of `decode`: the item handed out, the codec and the bytes left.
pub open spec fn decode_spec(m: CodecModel, bytes: Seq<u8>) -> (Option<SpecInput>, CodecModel, Seq<u8>) {
    let (m1, rest) = if bytes.len() > 0 { decode_buffer_spec(m, bytes) } else { (m, bytes) };
    let (o, m2) = dequeue_spec(m1);
    (o, m2, rest)
}

/// The codec could not finish the stream.
#[derive(Debug, Clone, Copy, PartialEq, Eq)]
pub enum CodecError {
    /// The stream ended with bytes that make no item.
    BytesRemaining,
}

/// One call of `decode_eof`.
pub open spec fn decode_eof_spec(m: CodecModel, bytes: Seq<u8>) -> (Result<Option<SpecInput>, CodecError>, CodecModel, Seq<u8>) {
    let (o, m1, rest) = decode_spec(m, bytes);
    if o is Some {
        (Ok(o), m1, rest)
    } else if rest.len() > 0 {
        (Err(CodecError::BytesRemaining), m1, rest)
    } else if m1.closed {
        (Ok(None), m1, rest)
    } else {
        let (o2, m2) = dequeue_spec(process_spec(m1, SpecInput::Disconnect).1);
        (Ok(o2), m2, rest)
    }
}

pub open spec fn opt_input(o: Option<SmtpInput>) -> Option<SpecInput> {
    match o {
        Some(i) => Some(i@),
        None => None,
    }
}

/// The sum of the lengths of the items.
pub open spec fn lens_sum(v: Seq<SpecInput>) -> int
    decreases v.len(),
{
    if v.len() == 0 {
        0
    } else {
        input_len(v[0]) + lens_sum(v.drop_first())
    }
}

/// Items that tile a byte range take up its length, each at least a byte.
pub proof fn lemma_tiles_lens(v: Seq<SpecInput>, s: int, e: int)
    requires
        rules::tiles(v, s, e),
    ensures
        e - s == lens_sum(v),
        s <= e,
        forall|k: int| 0 <= k < v.len() ==> input_len(#[trigger] v[k]) > 0,
    decreases v.len(),
{
    if v.len() > 0 {
        lemma_tiles_lens(v.drop_first(), s + input_len(v[0]), e);
        assert forall|k: int| 0 <= k < v.len() implies input_len(#[trigger] v[k]) > 0 by {
            if k > 0 {
                assert(v[k] == v.drop_first()[k - 1]);
            }
        }
    }
}

/// Taking in an item moves the position by nothing or by its length, and
/// closes the codec only on a disconnection.
pub proof fn lemma_process_bounds(m: CodecModel, inp: SpecInput)
    ensures
        process_spec(m, inp).1.pos == m.pos || process_spec(m, inp).1.pos == m.pos + input_len(inp),
        process_spec(m, inp).1.closed == (m.closed || inp is Disconnect),
{
}

/// The lone dot lies within the bytes, where it is found.
pub open spec fn dot_within(bytes: Seq<u8>) -> bool {
    regex_find_at(dot_pattern(), bytes, 0) matches Some((s, e)) ==> 0 <= s <= e <= bytes.len()
}

/// The first lone dot lies within the bytes and is CR LF . CR LF.
pub proof fn lemma_first_dot_bounds(h: Seq<u8>, i: int)
    requires
        0 <= i,
    ensures
        first_dot(h, i) matches Some((s, e)) ==> i <= s && e == s + 5 && e <= h.len() && h.subrange(s, e) == lone_dot(),
    decreases h.len() - i,
{
    if i + 5 <= h.len() && h.subrange(i, i + 5) != lone_dot() {
        lemma_first_dot_bounds(h, i + 1);
    }
}

/// Mail data passes through whole: while the codec reads mail data, the
/// bytes before the lone dot come out as one piece of data at the stream
/// position, the end of the data follows right after it, and the bytes
/// after the dot are kept for later; without a dot all the bytes come out
/// as data and mail data goes on.
#[verifier::rlimit(40)]
pub proof fn lemma_mail_data_kept(m: CodecModel, bytes: Seq<u8>)
    requires
        m.streaming,
        dot_within(bytes),
    ensures
        ({
            let (m1, rest) = decode_buffer_spec(m, bytes);
            match regex_find_at(dot_pattern(), bytes, 0) {
                Some((s, e)) => {
                    &&& m1.requests == m.requests + seq![
                        SpecInput::StreamData(m.pos, s, bytes.take(s)),
                        SpecInput::StreamEnd(m.pos + s),
                    ]
                    &&& !m1.streaming
                    &&& bytes == bytes.take(s) + bytes.subrange(s, e) + rest
                },
                None => {
                    &&& m1.requests == m.requests.push(SpecInput::StreamData(m.pos, bytes.len() as int, bytes))
                    &&& m1.streaming
                    &&& rest.len() == 0
                },
            }
        }),
{
    let (m1, rest) = decode_buffer_spec(m, bytes);
    match regex_find_at(dot_pattern(), bytes, 0) {
        Some((s, e)) => {
            assert(m1.requests =~= m.requests + seq![
                SpecInput::StreamData(m.pos, s, bytes.take(s)),
                SpecInput::StreamEnd(m.pos + s),
            ]);
            assert(bytes =~= bytes.take(s) + bytes.subrange(s, e) + rest);
        },
        None => {},
    }
}

/// A DATA command switches the codec to mail data: the command is queued
/// at the stream position, followed by the start of the data where the
/// codec was not reading data yet, and the items after it wait.
pub proof fn lemma_data_starts_stream(m: CodecModel, b: int, l: int)
    ensures
        ({
            let (stop, m1) = process_spec(m, SpecInput::Command(b, l, SpecCommand::Data));
            &&& stop
            &&& m1.streaming
            &&& m1.requests == if m.streaming {
                m.requests.push(SpecInput::Command(m.pos, l, SpecCommand::Data))
            } else {
                m.requests + seq![SpecInput::Command(m.pos, l, SpecCommand::Data), SpecInput::StreamStart(m.pos + l)]
            }
        }),
{
    let m1 = process_spec(m, SpecInput::Command(b, l, SpecCommand::Data)).1;
    if !m.streaming {
        assert(m1.requests =~= m.requests + seq![
            SpecInput::Command(m.pos, l, SpecCommand::Data),
            SpecInput::StreamStart(m.pos + l),
        ]);
    }
}

/// Items come out in the order they went in: the item handed out is the
/// oldest, and the others stay as they were.
pub proof fn lemma_dequeue_in_order(m: CodecModel)
    ensures
        ({
            let (o, m1) = dequeue_spec(m);
            &&& o is Some <==> m.requests.len() > 0
            &&& (o matches Some(i) ==> seq![i] + m1.requests == m.requests)
            &&& (o is None ==> m1 == m)
        }),
{
    let (o, m1) = dequeue_spec(m);
    if let Some(i) = o {
        assert(seq![i] + m1.requests =~= m.requests);
    }
}

/// With lengths that are all positive, the items taken in before a stop
/// are a first part of the list, and the position moves past exactly them.
pub proof fn lemma_process_all_prefix(m: CodecModel, v: Seq<SpecInput>)
    requires
        forall|k: int| 0 <= k < v.len() ==> input_len(#[trigger] v[k]) > 0,
    ensures
        exists|k: int| 0 <= k <= v.len() && #[trigger] process_all(m, v).pos == m.pos + lens_sum(v.take(k)),
    decreases v.len(),
{
    if v.len() == 0 {
        assert(v.take(0) =~= Seq::<SpecInput>::empty());
        assert(process_all(m, v).pos == m.pos + lens_sum(v.take(0)));
    } else {
        let (stop, m1) = process_spec(m, v[0]);
        lemma_process_bounds(m, v[0]);
        assert(input_len(v[0]) > 0);
        assert(v.take(0) =~= Seq::<SpecInput>::empty());
        assert(v.take(1).drop_first() =~= Seq::<SpecInput>::empty());
        assert(v.take(1)[0] == v[0]);
        assert(lens_sum(v.take(1).drop_first()) == 0);
        assert(lens_sum(v.take(1)) == input_len(v[0]));
        if stop {
            if m1.pos == m.pos {
                assert(process_all(m, v).pos == m.pos + lens_sum(v.take(0)));
            } else {
                assert(process_all(m, v).pos == m.pos + lens_sum(v.take(1)));
            }
        } else {
            let w = v.drop_first();
            assert forall|k: int| 0 <= k < w.len() implies input_len(#[trigger] w[k]) > 0 by {
                assert(w[k] == v[k + 1]);
            }
            lemma_process_all_prefix(m1, w);
            let k = choose|k: int| 0 <= k <= w.len() && #[trigger] process_all(m1, w).pos == m1.pos + lens_sum(w.take(k));
            assert(v.take(k + 1).drop_first() =~= w.take(k));
            assert(v.take(k + 1)[0] == v[0]);
            assert(process_all(m, v).pos == m.pos + lens_sum(v.take(k + 1)));
        }
    }
}

/// Where items tile a byte range, each starts after the lengths of those
/// before it.
pub proof fn lemma_tiles_pos(v: Seq<SpecInput>, s: int, e: int, k: int)
    requires
        rules::tiles(v, s, e),
        0 <= k < v.len(),
    ensures
        rules::input_pos(v[k]) == s + lens_sum(v.take(k)),
    decreases k,
{
    assert(v.take(0) =~= Seq::<SpecInput>::empty());
    if k > 0 {
        let w = v.drop_first();
        lemma_tiles_pos(w, s + input_len(v[0]), e, k - 1);
        assert(w[k - 1] == v[k]);
        assert(v.take(k).drop_first() =~= w.take(k - 1));
        assert(v.take(k)[0] == v[0]);
    }
}

/// The lengths of a first part and of the rest add up to the whole.
pub proof fn lemma_lens_split(v: Seq<SpecInput>, k: int)
    requires
        0 <= k <= v.len(),
    ensures
        lens_sum(v) == lens_sum(v.take(k)) + lens_sum(v.skip(k)),
    decreases k,
{
    if k == 0 {
        assert(v.take(0) =~= Seq::<SpecInput>::empty());
        assert(v.skip(0) =~= v);
    } else {
        let w = v.drop_first();
        lemma_lens_split(w, k - 1);
        assert(v.take(k).drop_first() =~= w.take(k - 1));
        assert(v.take(k)[0] == v[0]);
        assert(v.skip(k) =~= w.skip(k - 1));
    }
}

/// Lengths that are all positive add up to no less than nothing.
pub proof fn lemma_lens_nonneg(v: Seq<SpecInput>)
    requires
        forall|k: int| 0 <= k < v.len() ==> input_len(#[trigger] v[k]) > 0,
    ensures
        lens_sum(v) >= 0,
    decreases v.len(),
{
    if v.len() > 0 {
        let w = v.drop_first();
        assert forall|k: int| 0 <= k < w.len() implies input_len(#[trigger] w[k]) > 0 by {
            assert(w[k] == v[k + 1]);
        }
        lemma_lens_nonneg(w);
        assert(input_len(v[0]) > 0);
    }
}

/// Command lines are read once each: where the text has no leading white
/// space, the position moves past the items taken in, exactly as many
/// bytes as they take, and the bytes kept for later start where the first
/// item not taken in starts; no byte is lost or read twice.
pub proof fn lemma_commands_read_once(m: CodecModel, bytes: Seq<u8>, v: Seq<SpecInput>)
    requires
        !m.streaming,
        valid_utf8(bytes),
        rules::parse_session(decode_utf8(bytes)) == Some(v),
        rules::ws_end(decode_utf8(bytes), 0) == 0,
    ensures
        ({
            let (m1, rest) = decode_buffer_spec(m, bytes);
            exists|k: int| {
                &&& 0 <= k <= v.len()
                &&& #[trigger] lens_sum(v.take(k)) == m1.pos - m.pos
                &&& 0 <= m1.pos - m.pos <= bytes.len()
                &&& rest == bytes.skip(m1.pos - m.pos)
                &&& bytes.take(m1.pos - m.pos) + rest == bytes
                &&& (k < v.len() ==> rules::input_pos(v[k]) == m1.pos - m.pos)
            }
        }),
{
    let text = decode_utf8(bytes);
    decode_utf8_encode_utf8(bytes);
    rules::lemma_inputs_tile(text, 0);
    assert(text.take(0) =~= Seq::<char>::empty());
    assert(text.take(text.len() as int) =~= text);
    assert(rules::tiles(v, 0, bytes.len() as int));
    lemma_tiles_lens(v, 0, bytes.len() as int);
    lemma_process_all_prefix(m, v);
    let m1 = process_all(m, v);
    let k = choose|k: int| 0 <= k <= v.len() && #[trigger] process_all(m, v).pos == m.pos + lens_sum(v.take(k));
    lemma_lens_split(v, k);
    assert(v.take(k).len() == k);
    assert forall|j: int| 0 <= j < v.skip(k).len() implies input_len(#[trigger] v.skip(k)[j]) > 0 by {
        assert(v.skip(k)[j] == v[j + k]);
    }
    assert forall|j: int| 0 <= j < v.take(k).len() implies input_len(#[trigger] v.take(k)[j]) > 0 by {
        assert(v.take(k)[j] == v[j]);
    }
    lemma_lens_nonneg(v.skip(k));
    lemma_lens_nonneg(v.take(k));
    if k < v.len() {
        lemma_tiles_pos(v, 0, bytes.len() as int, k);
    }
    let (m2, rest) = decode_buffer_spec(m, bytes);
    assert(m2 == m1);
    assert(bytes.take(m1.pos - m.pos) + rest =~= bytes);
}

/// Items one after the other from `pos` on, each where the one before
/// ends.
pub open spec fn placed(v: Seq<SpecInput>, pos: int) -> Seq<SpecInput>
    decreases v.len(),
{
    if v.len() == 0 {
        Seq::empty()
    } else {
        seq![input_at(v[0], pos)] + placed(v.drop_first(), pos + input_len(v[0]))
    }
}

/// An item that is neither DATA, nor an incomplete line, nor part of the
/// stream framing: the codec takes it in and goes on.
pub open spec fn plain_item(i: SpecInput) -> bool {
    match i {
        SpecInput::Command(_, _, c) => !(c is Data),
        SpecInput::Invalid(_, _, _) => true,
        SpecInput::Blank(_, _, _) => true,
        _ => false,
    }
}

/// Commands read are handed on as they are, in order: plain items are all
/// queued, each at the stream position where the one before ends, and the
/// position moves past all of them.
pub proof fn lemma_plain_items_queued(m: CodecModel, v: Seq<SpecInput>)
    requires
        forall|k: int| 0 <= k < v.len() ==> plain_item(#[trigger] v[k]),
    ensures
        process_all(m, v) == (CodecModel {
            requests: m.requests + placed(v, m.pos),
            pos: m.pos + lens_sum(v),
            ..m
        }),
    decreases v.len(),
{
    if v.len() == 0 {
        assert(m.requests + placed(v, m.pos) =~= m.requests);
    } else {
        assert(plain_item(v[0]));
        let m1 = queue_spec(m, v[0]);
        assert(process_spec(m, v[0]) == (false, m1));
        let w = v.drop_first();
        assert forall|k: int| 0 <= k < w.len() implies plain_item(#[trigger] w[k]) by {
            assert(w[k] == v[k + 1]);
        }
        lemma_plain_items_queued(m1, w);
        assert(m.requests + placed(v, m.pos) =~= m1.requests + placed(w, m1.pos));
    }
}

/// The SMTP codec over a session parser and a reply writer.
pub struct SmtpCodec {
    requests: Vec<SmtpInput>,
    parser: SmtpParser,
    writer: SmtpWriter,
    streaming_data: bool,
    stream_pos: usize,
    closed: bool,
}

impl View for SmtpCodec {
    type V = CodecModel;

    closed spec fn view(&self) -> CodecModel {
        CodecModel {
            requests: self.requests.deep_view(),
            streaming: self.streaming_data,
            pos: self.stream_pos as int,
            closed: self.closed,
        }
    }
}

impl SmtpCodec {
    /// The position in the stream: the bytes the items taken in stand for.
    pub fn position(&self) -> (r: usize)
        ensures
            r == self@.pos,
    {
        self.stream_pos
    }

    pub fn new(parser: SmtpParser, writer: SmtpWriter) -> (r: Self)
        ensures
            r@ == (CodecModel { requests: Seq::empty(), streaming: false, pos: 0, closed: false }),
    {
        let r = Self {
            requests: Vec::new(),
            parser,
            writer,
            streaming_data: false,
            stream_pos: 0,
            closed: false,
        };
        assert(r@.requests =~= Seq::<SpecInput>::empty());
        r
    }

    fn dequeue_input(&mut self) -> (r: Option<SmtpInput>)
        ensures
            (opt_input(r), final(self)@) == dequeue_spec(old(self)@),
    {
        if self.requests.len() == 0 {
            None
        } else {
            let ghost before = self.requests.deep_view();
            let inp = self.requests.remove(0);
            assert(self.requests.deep_view() =~= before.drop_first());
            Some(inp)
        }
    }

    fn queue_input(&mut self, inp: SmtpInput) -> (r: InputFlow)
        requires
            old(self)@.pos + input_len(inp@) <= usize::MAX,
            input_len(inp@) >= 0,
        ensures
            r == InputFlow::Continue,
            final(self)@ == queue_spec(old(self)@, inp@),
    {
        let inp = inp.pos(self.stream_pos);
        self.stream_pos = self.stream_pos + inp.len();
        let ghost before = self.requests.deep_view();
        let ghost item = inp@;
        self.requests.push(inp);
        assert(self.requests.deep_view() =~= before.push(item));
        InputFlow::Continue
    }

    fn process_input(&mut self, inp: SmtpInput) -> (r: InputFlow)
        requires
            !old(self)@.closed,
            old(self)@.pos + input_len(inp@) <= usize::MAX,
            input_len(inp@) >= 0,
        ensures
            (r == InputFlow::Stop, final(self)@) == process_spec(old(self)@, inp@),
    {
        match &inp {
            SmtpInput::Command(_, _, SmtpCommand::Data) => {
                self.queue_input(inp);
                if !self.streaming_data {
                    self.queue_input(SmtpInput::StreamStart(0));
                    self.streaming_data = true;
                }
                InputFlow::Stop
            },
            SmtpInput::StreamStart(_) => {
                if self.streaming_data {
                    InputFlow::Continue
                } else {
                    self.streaming_data = true;
                    self.queue_input(inp)
                }
            },
            SmtpInput::StreamEnd(_) => {
                self.streaming_data = false;
                self.queue_input(inp)
            },
            SmtpInput::Disconnect => {
                self.streaming_data = false;
                self.closed = true;
                self.queue_input(inp)
            },
            SmtpInput::Incomplete(_, _, _) => InputFlow::Stop,
            _ => self.queue_input(inp),
        }
    }
    /// Takes in the items that a buffer of bytes makes; the bytes that make
    /// no item yet stay in the buffer.
    fn decode_buffer(&mut self, buf: &mut Vec<u8>)
        requires
            !old(self)@.closed,
            old(self)@.pos + old(buf)@.len() <= usize::MAX,
        ensures
            (final(self)@, final(buf)@) == decode_buffer_spec(old(self)@, old(buf)@),
            old(self)@.streaming ==> regex_find_at(dot_pattern(), old(buf)@, 0) == first_dot(old(buf)@, 0),
    {
        let ghost m0 = self@;
        let mut bytes: Vec<u8> = Vec::new();
        std::mem::swap(&mut bytes, buf);
        let n = bytes.len();
        if self.streaming_data {
            match find_at("\r\n\\.\r\n", bytes.as_slice(), 0) {
                Some((start, end)) => {
                    let chunk = slice_to_vec(slice_subrange(bytes.as_slice(), 0, start));
                    assert(chunk@ =~= bytes@.take(start as int));
                    self.process_input(SmtpInput::StreamData(0, start, chunk));
                    self.process_input(SmtpInput::StreamEnd(0));
                    let rest = slice_to_vec(slice_subrange(bytes.as_slice(), end, n));
                    assert(rest@ =~= bytes@.skip(end as int));
                    *buf = rest;
                },
                None => {
                    self.process_input(SmtpInput::StreamData(0, n, bytes));
                    assert(buf@ =~= Seq::<u8>::empty());
                },
            }
        } else {
            let copy = slice_to_vec(bytes.as_slice());
            match utf8_string(copy) {
                None => {
                    self.process_input(SmtpInput::Invalid(0, n, bytes));
                    assert(buf@ =~= Seq::<u8>::empty());
                },
                Some(text) => {
                    proof {
                        decode_utf8_encode_utf8(bytes@);
                    }
                    match self.parser.session(text.as_str()) {
                        Err(_) => {
                            self.process_input(SmtpInput::Invalid(0, n, bytes));
                            assert(buf@ =~= Seq::<u8>::empty());
                        },
                        Ok(inputs) => {
                            let ghost v = inputs.deep_view();
                            let ghost s0 = byte_pos(text@, rules::ws_end(text@, 0));
                            let ghost e0 = n as int;
                            proof {
                                lemma_tiles_lens(v, s0, e0);
                                assert(s0 >= 0);
                            }
                            let parser_offset = self.stream_pos;
                            let mut rest = inputs;
                            let mut stopped = false;
                            let ghost mut tp: int = s0;
                            while !stopped && rest.len() > 0
                                invariant
                                    m0.pos + n <= usize::MAX,
                                    parser_offset == m0.pos,
                                    0 <= s0 <= tp <= e0,
                                    e0 == n,
                                    self@.pos >= m0.pos,
                                    self@.pos - m0.pos <= tp - s0,
                                    !self@.closed,
                                    rules::tiles(rest.deep_view(), tp, e0),
                                    stopped ==> self@ == process_all(m0, v),
                                    !stopped ==> process_all(self@, rest.deep_view()) == process_all(m0, v),
                                decreases rest.len(),
                            {
                                let ghost rv = rest.deep_view();
                                let ghost mm = self@;
                                proof {
                                    lemma_tiles_lens(rv, tp, e0);
                                }
                                let inp = rest.remove(0);
                                assert(rest.deep_view() =~= rv.drop_first());
                                assert(inp@ == rv[0]);
                                proof {
                                    lemma_process_bounds(mm, inp@);
                                    assert(input_len(rv[0]) > 0);
                                    assert(rules::tiles(rv.drop_first(), tp + input_len(rv[0]), e0));
                                    lemma_tiles_lens(rv.drop_first(), tp + input_len(rv[0]), e0);
                                }
                                let flow = self.process_input(inp);
                                proof {
                                    tp = tp + input_len(rv[0]);
                                    lemma_tiles_lens(rest.deep_view(), tp, e0);
                                }
                                match flow {
                                    InputFlow::Stop => {
                                        stopped = true;
                                    },
                                    InputFlow::Continue => {},
                                }
                            }
                            proof {
                                if !stopped {
                                    assert(rest.deep_view().len() == 0);
                                }
                            }
                            let used = self.stream_pos - parser_offset;
                            let tail = slice_to_vec(slice_subrange(bytes.as_slice(), used, n));
                            assert(tail@ =~= bytes@.skip(used as int));
                            *buf = tail;
                        },
                    }
                },
            }
        }
    }

    /// Reads the next item: what the buffer holds is taken in first.
    pub fn decode(&mut self, buf: &mut Vec<u8>) -> (r: Option<SmtpInput>)
        requires
            old(buf)@.len() > 0 ==> !old(self)@.closed,
            old(self)@.pos + old(buf)@.len() <= usize::MAX,
        ensures
            (opt_input(r), final(self)@, final(buf)@) == decode_spec(old(self)@, old(buf)@),
            old(self)@.streaming && old(buf)@.len() > 0 ==> regex_find_at(dot_pattern(), old(buf)@, 0)
                == first_dot(old(buf)@, 0),
    {
        if buf.len() > 0 {
            self.decode_buffer(buf);
        }
        self.dequeue_input()
    }

    /// Reads the next item at the end of the stream: where nothing is left,
    /// a peer that has not said goodbye is taken as disconnected.
    pub fn decode_eof(&mut self, buf: &mut Vec<u8>) -> (r: Result<Option<SmtpInput>, CodecError>)
        requires
            old(buf)@.len() > 0 ==> !old(self)@.closed,
            old(self)@.pos + old(buf)@.len() <= usize::MAX,
        ensures
            (match r {
                Ok(o) => Ok(opt_input(o)),
                Err(e) => Err(e),
            }, final(self)@, final(buf)@) == decode_eof_spec(old(self)@, old(buf)@),
            old(self)@.streaming && old(buf)@.len() > 0 ==> regex_find_at(dot_pattern(), old(buf)@, 0)
                == first_dot(old(buf)@, 0),
    {
        match self.decode(buf) {
            Some(input) => Ok(Some(input)),
            None => {
                if buf.len() > 0 {
                    Err(CodecError::BytesRemaining)
                } else if self.closed {
                    Ok(None)
                } else {
                    self.process_input(SmtpInput::Disconnect);
                    Ok(self.dequeue_input())
                }
            },
        }
    }

    /// Writes a reply.
    pub fn encode(&mut self, reply: SmtpReply, buf: &mut Vec<u8>)
        ensures
            final(buf)@ == old(buf)@ + encode_utf8(reply_chars(reply@)),
            final(self)@ == old(self)@,
    {
        self.writer.write(buf, reply)
    }
}

} // verus!
