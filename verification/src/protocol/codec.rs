//! A codec that turns the bytes of a connection into commands: the
//! connection itself first, then each command line read, and replies into
//! bytes.
use vstd::prelude::*;
use vstd::string::*;
use vstd::utf8::{valid_utf8, decode_utf8, encode_utf8, decode_utf8_encode_utf8};
use vstd::slice::{slice_subrange, slice_to_vec};
use crate::codec::codec::{lemma_tiles_lens};
use crate::codec::parser::{SmtpParser, SmtpSessionParser};
use crate::grammar::rules;
use crate::grammar::text::byte_pos;
use crate::model::command::{SmtpCommand, SmtpInput, SpecCommand, SpecInput, input_len, opt_text};
use crate::model::response::{SmtpReply, reply_chars};
use crate::protocol::smtp::utf8_string;
use crate::protocol::writer::SmtpSerializer;
use crate::model::text::{push_str, text_of};

verus! {

/// What `std` writes with `{:?}` for the error of reading the bytes as
/// UTF-8 text.
pub uninterp spec fn utf8_error_text(bytes: Seq<u8>) -> Seq<char>;

/// The error of reading bytes as UTF-8 text, in its debug form.
///
/// Calls `std::str::from_utf8`; where it fails, as its documentation says
/// it does exactly on bytes that are not UTF-8, the `Utf8Error` is formatted
/// with `{:?}`, and the text is named `utf8_error_text` of the bytes.
#[verifier::external_body]
fn utf8_error_debug(bytes: &[u8]) -> (r: Option<String>)
    ensures
        r is Some <==> !valid_utf8(bytes@),
        r matches Some(t) ==> t@ == utf8_error_text(bytes@),
{
    match std::str::from_utf8(bytes) {
        Err(e) => Some(format!("{:?}", e)),
        Ok(_) => None,
    }
}

/// The message for bytes that are not UTF-8 text.
pub open spec fn input_error_text(bytes: Seq<u8>) -> Seq<char> {
    "input error: "@ + utf8_error_text(bytes)
}

/// What the codec reads: the connection, a command, input that could not
/// be read, or the end of the connection.
#[derive(Debug, Clone, PartialEq, Eq)]
pub enum CommandFrame {
    Connect { local_addr: Option<String>, peer_addr: Option<String> },
    Command(SmtpCommand),
    Invalid(String),
    Disconnect,
}

pub enum SpecFrame {
    Connect { local_addr: Option<Seq<char>>, peer_addr: Option<Seq<char>> },
    Command(SpecCommand),
    Invalid(Seq<char>),
    Disconnect,
}

impl View for CommandFrame {
    type V = SpecFrame;

    open spec fn view(&self) -> SpecFrame {
        match self {
            CommandFrame::Connect { local_addr, peer_addr } => SpecFrame::Connect {
                local_addr: opt_text(*local_addr),
                peer_addr: opt_text(*peer_addr),
            },
            CommandFrame::Command(c) => SpecFrame::Command(c@),
            CommandFrame::Invalid(t) => SpecFrame::Invalid(t@),
            CommandFrame::Disconnect => SpecFrame::Disconnect,
        }
    }
}

impl DeepView for CommandFrame {
    type V = SpecFrame;

    open spec fn deep_view(&self) -> SpecFrame {
        self@
    }
}

/// The commands among the items read, in order.
pub open spec fn command_frames(v: Seq<SpecInput>) -> Seq<SpecFrame>
    decreases v.len(),
{
    if v.len() == 0 {
        Seq::empty()
    } else {
        let rest = command_frames(v.drop_first());
        match v[0] {
            SpecInput::Command(_, _, c) => seq![SpecFrame::Command(c)] + rest,
            _ => rest,
        }
    }
}

/// Where reading stopped: after the last item read whole, or at the start
/// of an incomplete line.
pub open spec fn end_pos(v: Seq<SpecInput>, pos: int) -> int
    decreases v.len(),
{
    if v.len() == 0 {
        pos
    } else {
        let p = match v[0] {
            SpecInput::Command(b, l, _) => b + l,
            SpecInput::Blank(b, l, _) => b + l,
            SpecInput::Invalid(b, l, _) => b + l,
            SpecInput::Incomplete(b, _, _) => b,
            _ => pos,
        };
        end_pos(v.drop_first(), p)
    }
}

/// Over items that tile a range and that the grammar reads, reading stops
/// at the end of the range, or at the start of a last incomplete line.
pub proof fn lemma_end_pos(v: Seq<SpecInput>, s: int, e: int, pos: int)
    requires
        v.len() > 0,
        rules::tiles(v, s, e),
        forall|k: int| 0 <= k < v.len() ==> rules::grammar_item(#[trigger] v[k]),
    ensures
        end_pos(v, pos) == if v.last() is Incomplete { rules::input_pos(v.last()) } else { e },
    decreases v.len(),
{
    assert(rules::grammar_item(v[0]));
    let w = v.drop_first();
    let p = match v[0] {
        SpecInput::Command(b, l, _) => b + l,
        SpecInput::Blank(b, l, _) => b + l,
        SpecInput::Invalid(b, l, _) => b + l,
        SpecInput::Incomplete(b, _, _) => b,
        _ => pos,
    };
    assert(rules::tiles(w, s + input_len(v[0]), e));
    assert(end_pos(v, pos) == end_pos(w, p));
    if v.len() == 1 {
        assert(w.len() == 0);
        assert(s + input_len(v[0]) == e);
        assert(end_pos(w, p) == p);
        assert(v.last() == v[0]);
    } else {
        assert forall|k: int| 0 <= k < w.len() implies rules::grammar_item(#[trigger] w[k]) by {
            assert(w[k] == v[k + 1]);
        }
        lemma_end_pos(w, s + input_len(v[0]), e, p);
        assert(w.last() == v.last());
    }
}

/// Only an incomplete last line is kept: reading text that the session
/// grammar reads gives back nothing, or the incomplete line it ends with,
/// from its first byte.
pub proof fn lemma_only_incomplete_kept(bytes: Seq<u8>, v: Seq<SpecInput>)
    requires
        valid_utf8(bytes),
        rules::parse_session(decode_utf8(bytes)) == Some(v),
    ensures
        read_spec(bytes).1 == if v.last() is Incomplete {
            bytes.skip(rules::input_pos(v.last()))
        } else {
            Seq::<u8>::empty()
        },
{
    let text = decode_utf8(bytes);
    decode_utf8_encode_utf8(bytes);
    let p = rules::ws_end(text, 0);
    rules::lemma_ws_end_bounds(text, 0);
    rules::lemma_inputs_tile(text, p);
    rules::lemma_inputs_kinds(text, p);
    assert(text.take(text.len() as int) =~= text);
    assert(rules::tiles(v, byte_pos(text, p), bytes.len() as int));
    lemma_end_pos(v, byte_pos(text, p), bytes.len() as int, 0);
    if !(v.last() is Incomplete) {
        assert(bytes.skip(bytes.len() as int) =~= Seq::<u8>::empty());
    }
}

/// What the codec holds: the frames read and not yet handed out, whether
/// the connection frame went out, whether the connection ended, and the
/// two ends.
pub struct CommandCodecModel {
    pub requests: Seq<SpecFrame>,
    pub initialized: bool,
    pub closed: bool,
    pub local_addr: Option<Seq<char>>,
    pub peer_addr: Option<Seq<char>>,
}

/// What the codec makes of a buffer: the frames it adds and the bytes it
/// gives back.
pub open spec fn read_spec(bytes: Seq<u8>) -> (Seq<SpecFrame>, Seq<u8>) {
    if !valid_utf8(bytes) {
        (seq![SpecFrame::Invalid(input_error_text(bytes))], Seq::empty())
    } else {
        let text = decode_utf8(bytes);
        match rules::parse_session(text) {
            None => (seq![SpecFrame::Invalid(text)], Seq::empty()),
            Some(v) => (command_frames(v), bytes.skip(end_pos(v, 0))),
        }
    }
}

/// One call of `decode`: the frame handed out, the codec and the bytes left.
pub open spec fn command_decode_spec(m: CommandCodecModel, bytes: Seq<u8>) -> (Option<SpecFrame>, CommandCodecModel, Seq<u8>) {
    let q0 = if m.initialized {
        m.requests
    } else {
        m.requests.push(SpecFrame::Connect { local_addr: m.local_addr, peer_addr: m.peer_addr })
    };
    let (q1, rest) = if bytes.len() > 0 {
        let (f, r) = read_spec(bytes);
        (q0 + f, r)
    } else {
        (q0, bytes)
    };
    let m1 = CommandCodecModel { requests: q1, initialized: true, ..m };
    if q1.len() == 0 {
        (None, m1, rest)
    } else {
        (Some(q1[0]), CommandCodecModel { requests: q1.drop_first(), ..m1 }, rest)
    }
}

pub open spec fn opt_frame(o: Option<CommandFrame>) -> Option<SpecFrame> {
    match o {
        Some(f) => Some(f@),
        None => None,
    }
}

/// The end of the stream: what `decode` hands out, else the end of the
/// connection, once, where no bytes are left.
pub open spec fn command_decode_eof_spec(m: CommandCodecModel, bytes: Seq<u8>) -> (Result<Option<SpecFrame>, ()>, CommandCodecModel, Seq<u8>) {
    let (o, m1, rest) = command_decode_spec(m, bytes);
    if o is Some {
        (Ok(o), m1, rest)
    } else if rest.len() > 0 {
        (Err(()), m1, rest)
    } else if m1.closed {
        (Ok(None), m1, rest)
    } else {
        (Ok(Some(SpecFrame::Disconnect)), CommandCodecModel { closed: true, ..m1 }, rest)
    }
}

/// No connection frame among the frames.
pub open spec fn no_connect(q: Seq<SpecFrame>) -> bool {
    forall|k: int| 0 <= k < q.len() ==> !(#[trigger] q[k] is Connect)
}

/// What a codec hands out over calls of `decode`, one buffer per call.
pub open spec fn decode_outputs(m: CommandCodecModel, bufs: Seq<Seq<u8>>) -> Seq<Option<SpecFrame>>
    decreases bufs.len(),
{
    if bufs.len() == 0 {
        Seq::empty()
    } else {
        let (o, m1, _rest) = command_decode_spec(m, bufs[0]);
        seq![o] + decode_outputs(m1, bufs.drop_first())
    }
}

/// One output for each call.
pub proof fn lemma_decode_outputs_len(m: CommandCodecModel, bufs: Seq<Seq<u8>>)
    ensures
        decode_outputs(m, bufs).len() == bufs.len(),
    decreases bufs.len(),
{
    if bufs.len() > 0 {
        let (_o, m1, _rest) = command_decode_spec(m, bufs[0]);
        lemma_decode_outputs_len(m1, bufs.drop_first());
    }
}

/// The commands read are no connection frames.
pub proof fn lemma_command_frames_no_connect(v: Seq<SpecInput>)
    ensures
        no_connect(command_frames(v)),
    decreases v.len(),
{
    if v.len() > 0 {
        lemma_command_frames_no_connect(v.drop_first());
        let rest = command_frames(v.drop_first());
        match v[0] {
            SpecInput::Command(_, _, c) => {
                assert forall|k: int| 0 <= k < command_frames(v).len() implies !(#[trigger] command_frames(v)[k] is Connect) by {
                    if k > 0 {
                        assert(command_frames(v)[k] == rest[k - 1]);
                    }
                }
            },
            _ => {},
        }
    }
}

/// Whether an item read is a command.
pub open spec fn command_item() -> spec_fn(SpecInput) -> bool {
    |i: SpecInput| i is Command
}

/// The command items among the items read, in order.
pub open spec fn commands_of(v: Seq<SpecInput>) -> Seq<SpecInput> {
    v.filter(command_item())
}

/// A single item is kept by the filter exactly when it is a command.
proof fn lemma_commands_of_one(x: SpecInput)
    ensures
        commands_of(seq![x]) == if x is Command { seq![x] } else { Seq::<SpecInput>::empty() },
{
    reveal_with_fuel(Seq::filter, 2);
    assert(seq![x].drop_last() =~= Seq::<SpecInput>::empty());
    assert(seq![x].last() == x);
}

/// The frames made of the items read are their commands, every one of
/// them, in the order read: as many frames as command items, the `k`-th
/// frame holding the `k`-th command.
pub proof fn lemma_command_frames_are_commands(v: Seq<SpecInput>)
    ensures
        command_frames(v).len() == commands_of(v).len(),
        forall|k: int| 0 <= k < commands_of(v).len()
            ==> #[trigger] command_frames(v)[k] == SpecFrame::Command(commands_of(v)[k]->Command_2),
    decreases v.len(),
{
    if v.len() > 0 {
        let w = v.drop_first();
        lemma_command_frames_are_commands(w);
        assert(v =~= seq![v[0]] + w);
        Seq::filter_distributes_over_add(seq![v[0]], w, command_item());
        lemma_commands_of_one(v[0]);
        let cv = commands_of(v);
        let cw = commands_of(w);
        let fv = command_frames(v);
        let fw = command_frames(w);
        match v[0] {
            SpecInput::Command(_, _, c) => {
                assert(cv =~= seq![v[0]] + cw);
                assert(fv =~= seq![SpecFrame::Command(c)] + fw);
                assert forall|k: int| 0 <= k < cv.len()
                    implies #[trigger] fv[k] == SpecFrame::Command(cv[k]->Command_2) by {
                    if k > 0 {
                        assert(fv[k] == fw[k - 1]);
                        assert(cv[k] == cw[k - 1]);
                    }
                }
            },
            _ => {
                assert(cv =~= cw);
                assert(fv == fw);
            },
        }
    }
}

/// What the codec adds for a buffer of text that the session grammar
/// reads is exactly the commands read from it: one frame per command
/// item, all of them, in order, the `k`-th frame holding the `k`-th
/// command.
pub proof fn lemma_read_gives_every_command(bytes: Seq<u8>, v: Seq<SpecInput>)
    requires
        valid_utf8(bytes),
        rules::parse_session(decode_utf8(bytes)) == Some(v),
    ensures
        read_spec(bytes).0.len() == commands_of(v).len(),
        forall|k: int| 0 <= k < commands_of(v).len()
            ==> #[trigger] read_spec(bytes).0[k] == SpecFrame::Command(commands_of(v)[k]->Command_2),
{
    lemma_command_frames_are_commands(v);
}

/// Once the connection frame is out, no call hands it out again.
pub proof fn lemma_no_connect_after(m: CommandCodecModel, bufs: Seq<Seq<u8>>)
    requires
        m.initialized,
        no_connect(m.requests),
    ensures
        forall|i: int| 0 <= i < bufs.len() ==> !(#[trigger] decode_outputs(m, bufs)[i] matches Some(SpecFrame::Connect { .. })),
    decreases bufs.len(),
{
    if bufs.len() > 0 {
        let b = bufs[0];
        let (o, m1, _rest) = command_decode_spec(m, b);
        let q1 = if b.len() > 0 { m.requests + read_spec(b).0 } else { m.requests };
        if b.len() > 0 {
            if valid_utf8(b) {
                if let Some(v) = rules::parse_session(decode_utf8(b)) {
                    lemma_command_frames_no_connect(v);
                }
            }
            assert forall|k: int| 0 <= k < q1.len() implies !(#[trigger] q1[k] is Connect) by {
                if k >= m.requests.len() {
                    assert(q1[k] == read_spec(b).0[k - m.requests.len()]);
                }
            }
        }
        assert(no_connect(q1));
        if q1.len() > 0 {
            assert(!(q1[0] is Connect));
            assert forall|k: int| 0 <= k < m1.requests.len() implies !(#[trigger] m1.requests[k] is Connect) by {
                assert(m1.requests[k] == q1[k + 1]);
            }
        }
        lemma_no_connect_after(m1, bufs.drop_first());
        lemma_decode_outputs_len(m1, bufs.drop_first());
        let out = decode_outputs(m, bufs);
        assert forall|i: int| 0 <= i < bufs.len() implies !(#[trigger] out[i] matches Some(SpecFrame::Connect { .. })) by {
            if i > 0 {
                assert(out[i] == decode_outputs(m1, bufs.drop_first())[i - 1]);
            }
        }
    }
}

/// The connection comes first, and once: a new codec hands out the
/// connection frame on its first call, whatever the buffer, and never again.
pub proof fn lemma_connect_once(local_addr: Option<Seq<char>>, peer_addr: Option<Seq<char>>, bufs: Seq<Seq<u8>>)
    requires
        bufs.len() > 0,
    ensures
        ({
            let m0 = CommandCodecModel { requests: Seq::empty(), initialized: false, closed: false, local_addr, peer_addr };
            let out = decode_outputs(m0, bufs);
            &&& out[0] == Some(SpecFrame::Connect { local_addr, peer_addr })
            &&& forall|i: int| 1 <= i < bufs.len() ==> !(#[trigger] out[i] matches Some(SpecFrame::Connect { .. }))
        }),
{
    let m0 = CommandCodecModel { requests: Seq::empty(), initialized: false, closed: false, local_addr, peer_addr };
    let b = bufs[0];
    let (o, m1, _rest) = command_decode_spec(m0, b);
    let q0 = m0.requests.push(SpecFrame::Connect { local_addr, peer_addr });
    let q1 = if b.len() > 0 { q0 + read_spec(b).0 } else { q0 };
    if b.len() > 0 {
        if valid_utf8(b) {
            if let Some(v) = rules::parse_session(decode_utf8(b)) {
                lemma_command_frames_no_connect(v);
            }
        }
        assert(q1[0] == SpecFrame::Connect { local_addr, peer_addr });
        assert forall|k: int| 0 <= k < m1.requests.len() implies !(#[trigger] m1.requests[k] is Connect) by {
            assert(m1.requests[k] == read_spec(b).0[k]);
        }
    } else {
        assert(m1.requests.len() == 0);
    }
    lemma_no_connect_after(m1, bufs.drop_first());
    lemma_decode_outputs_len(m1, bufs.drop_first());
    let out = decode_outputs(m0, bufs);
    assert forall|i: int| 1 <= i < bufs.len() implies !(#[trigger] out[i] matches Some(SpecFrame::Connect { .. })) by {
        assert(out[i] == decode_outputs(m1, bufs.drop_first())[i - 1]);
    }
}

/// Why the codec could not finish the stream.
#[derive(Debug, Clone, Copy, PartialEq, Eq)]
pub enum CommandCodecError {
    /// The stream ended with bytes that make no command.
    BytesRemaining,
}

/// The command codec of a connection.
pub struct SmtpCodec {
    requests: Vec<CommandFrame>,
    parser: SmtpParser,
    serializer: SmtpSerializer,
    local_addr: Option<String>,
    peer_addr: Option<String>,
    initialized: bool,
    closed: bool,
}

impl View for SmtpCodec {
    type V = CommandCodecModel;

    closed spec fn view(&self) -> CommandCodecModel {
        CommandCodecModel {
            requests: self.requests.deep_view(),
            initialized: self.initialized,
            closed: self.closed,
            local_addr: opt_text(self.local_addr),
            peer_addr: opt_text(self.peer_addr),
        }
    }
}

fn copy_opt(o: &Option<String>) -> (r: Option<String>)
    ensures
        opt_text(r) == opt_text(*o),
{
    match o {
        Some(s) => Some(s.clone()),
        None => None,
    }
}

impl SmtpCodec {
    pub fn new(parser: SmtpParser, serializer: SmtpSerializer, local_addr: Option<String>, peer_addr: Option<String>) -> (r: Self)
        ensures
            r@ == (CommandCodecModel {
                requests: Seq::empty(),
                initialized: false,
                closed: false,
                local_addr: opt_text(local_addr),
                peer_addr: opt_text(peer_addr),
            }),
    {
        let r = Self { requests: Vec::new(), serializer, parser, local_addr, peer_addr, initialized: false, closed: false };
        assert(r.requests.deep_view() =~= Seq::<SpecFrame>::empty());
        r
    }

    fn push(&mut self, f: CommandFrame)
        ensures
            final(self)@ == (CommandCodecModel { requests: old(self)@.requests.push(f@), ..old(self)@ }),
    {
        let ghost before = self.requests.deep_view();
        let ghost fv = f@;
        self.requests.push(f);
        assert(self.requests.deep_view() =~= before.push(fv));
    }

    /// Reads the commands a buffer holds; an incomplete line stays in it.
    fn read(&mut self, buf: &mut Vec<u8>)
        ensures
            final(self)@ == (CommandCodecModel { requests: old(self)@.requests + read_spec(old(buf)@).0, ..old(self)@ }),
            final(buf)@ == read_spec(old(buf)@).1,
    {
        let mut bytes: Vec<u8> = Vec::new();
        std::mem::swap(&mut bytes, buf);
        let n = bytes.len();
        let ghost r0 = self@.requests;
        let copy = slice_to_vec(bytes.as_slice());
        match utf8_string(copy) {
            None => {
                let mut msg = text_of("input error: ");
                match utf8_error_debug(bytes.as_slice()) {
                    Some(t) => push_str(&mut msg, t.as_str()),
                    None => {
                        assert(false);
                    },
                }
                self.push(CommandFrame::Invalid(msg));
                assert(self@.requests =~= r0 + read_spec(bytes@).0);
                assert(buf@ =~= Seq::<u8>::empty());
            },
            Some(text) => {
                proof {
                    decode_utf8_encode_utf8(bytes@);
                }
                match self.parser.session(text.as_str()) {
                    Err(_) => {
                        let s = text_of(text.as_str());
                        self.push(CommandFrame::Invalid(s));
                        assert(self@.requests =~= r0 + read_spec(bytes@).0);
                        assert(buf@ =~= Seq::<u8>::empty());
                    },
                    Ok(inputs) => {
                        let ghost v = inputs.deep_view();
                        let ghost s0 = byte_pos(text@, rules::ws_end(text@, 0));
                        let ghost e0 = n as int;
                        proof {
                            lemma_tiles_lens(v, s0, e0);
                        }
                        let mut pos: usize = 0;
                        let mut rest = inputs;
                        let ghost mut tp: int = s0;
                        while rest.len() > 0
                            invariant
                                0 <= tp <= e0,
                                e0 == n,
                                pos <= n,
                                rules::tiles(rest.deep_view(), tp, e0),
                                self@.requests + command_frames(rest.deep_view()) == r0 + command_frames(v),
                                end_pos(rest.deep_view(), pos as int) == end_pos(v, 0),
                                self@.initialized == old(self)@.initialized,
                                self@.closed == old(self)@.closed,
                                self@.local_addr == old(self)@.local_addr,
                                self@.peer_addr == old(self)@.peer_addr,
                            decreases rest.len(),
                        {
                            let ghost rv = rest.deep_view();
                            proof {
                                lemma_tiles_lens(rv, tp, e0);
                                assert(rules::tiles(rv.drop_first(), tp + input_len(rv[0]), e0));
                                lemma_tiles_lens(rv.drop_first(), tp + input_len(rv[0]), e0);
                            }
                            let inp = rest.remove(0);
                            assert(rest.deep_view() =~= rv.drop_first());
                            assert(inp@ == rv[0]);
                            let ghost rq = self@.requests;
                            match inp {
                                SmtpInput::Command(b, l, c) => {
                                    pos = b + l;
                                    self.push(CommandFrame::Command(c));
                                    assert(self@.requests + command_frames(rest.deep_view()) =~= rq + command_frames(rv));
                                },
                                SmtpInput::Blank(b, l, _) => {
                                    pos = b + l;
                                },
                                SmtpInput::Invalid(b, l, _) => {
                                    pos = b + l;
                                },
                                SmtpInput::Incomplete(b, _, _) => {
                                    pos = b;
                                },
                                _ => {},
                            }
                            proof {
                                tp = tp + input_len(rv[0]);
                            }
                        }
                        let tail = slice_to_vec(slice_subrange(bytes.as_slice(), pos, n));
                        assert(tail@ =~= bytes@.skip(pos as int));
                        assert(self@.requests =~= r0 + command_frames(v));
                        *buf = tail;
                    },
                }
            },
        }
    }

    /// Reads the next command: the connection comes first; what the buffer
    /// holds is read next.
    pub fn decode(&mut self, buf: &mut Vec<u8>) -> (r: Option<CommandFrame>)
        ensures
            (opt_frame(r), final(self)@, final(buf)@) == command_decode_spec(old(self)@, old(buf)@),
    {
        if !self.initialized {
            let f = CommandFrame::Connect { local_addr: copy_opt(&self.local_addr), peer_addr: copy_opt(&self.peer_addr) };
            self.push(f);
            self.initialized = true;
        }
        if buf.len() > 0 {
            self.read(buf);
        }
        if self.requests.len() == 0 {
            None
        } else {
            let ghost before = self.requests.deep_view();
            let f = self.requests.remove(0);
            assert(self.requests.deep_view() =~= before.drop_first());
            Some(f)
        }
    }

    /// Reads the next command at the end of the stream: where nothing is
    /// left, the end of the connection is handed out once.
    pub fn decode_eof(&mut self, buf: &mut Vec<u8>) -> (r: Result<Option<CommandFrame>, CommandCodecError>)
        ensures
            (match r {
                Ok(o) => Ok(opt_frame(o)),
                Err(_) => Err(()),
            }, final(self)@, final(buf)@) == command_decode_eof_spec(old(self)@, old(buf)@),
    {
        match self.decode(buf) {
            Some(frame) => Ok(Some(frame)),
            None => {
                if buf.len() > 0 {
                    Err(CommandCodecError::BytesRemaining)
                } else if self.closed {
                    Ok(None)
                } else {
                    self.closed = true;
                    Ok(Some(CommandFrame::Disconnect))
                }
            },
        }
    }

    /// Writes a reply.
    pub fn encode(&mut self, reply: SmtpReply, buf: &mut Vec<u8>)
        ensures
            final(buf)@ == old(buf)@ + encode_utf8(reply_chars(reply@)),
            final(self)@ == old(self)@,
    {
        self.serializer.write_reply(buf, reply)
    }
}

} // verus!
