//! A low level SMTP codec: it cuts a byte stream into command lines and
//! mail data, keeping the bytes it is not yet sure of in the buffer.
use vstd::prelude::*;
use vstd::string::*;
use vstd::utf8::{valid_utf8, decode_utf8, encode_utf8, decode_utf8_encode_utf8};
use vstd::slice::{slice_subrange, slice_to_vec};
use crate::model::command::{SmtpCommand, SpecCommand};
use crate::model::controll::{ClientControll, ServerControll, SpecServerControll};
use crate::model::response::reply_chars;
use crate::protocol::writer::SmtpSerializer;

verus! {

/// The byte of a dot.
pub const BYTE_DOT: u8 = 46;
/// The byte of a carriage return.
pub const BYTE_CR: u8 = 13;
/// The byte of a line feed.
pub const BYTE_LF: u8 = 10;

/// What the bytes at the start of mail data say about its end.
#[derive(Debug, Clone, Copy, PartialEq, Eq)]
pub enum DotState {
    /// More bytes are needed.
    Wait,
    /// The data ending dot line was found, taking this many bytes.
    End(usize),
    /// An escaping dot was found at this position.
    Escape(usize),
    /// A line feed can be consumed.
    LF,
    /// A carriage return and a line feed can be consumed.
    CRLF,
    /// No dot matters here.
    GoOn,
}

/// The meaning of the bytes `b` at the start of mail data; `nl` tells
/// whether they start a new line.
pub open spec fn dot_state(b: Seq<u8>, nl: bool) -> DotState {
    if b.len() == 0 {
        DotState::Wait
    } else if nl {
        if b[0] == BYTE_DOT {
            if b.len() < 2 { DotState::Wait }
            else if b[1] == BYTE_LF { DotState::End(2) }
            else if b[1] == BYTE_CR {
                if b.len() < 3 { DotState::Wait }
                else if b[2] == BYTE_LF { DotState::End(3) }
                else { DotState::Escape(0) }
            } else { DotState::Escape(0) }
        } else if b[0] == BYTE_LF {
            DotState::LF
        } else if b[0] == BYTE_CR {
            if b.len() < 2 { DotState::Wait }
            else if b[1] == BYTE_LF { DotState::CRLF }
            else { DotState::GoOn }
        } else {
            DotState::GoOn
        }
    } else {
        if b[0] == BYTE_LF {
            if b.len() < 2 { DotState::Wait }
            else if b[1] == BYTE_DOT {
                if b.len() < 3 { DotState::Wait }
                else if b[2] == BYTE_LF { DotState::End(3) }
                else if b[2] == BYTE_CR {
                    if b.len() < 4 { DotState::Wait }
                    else if b[3] == BYTE_LF { DotState::End(4) }
                    else { DotState::Escape(1) }
                } else { DotState::Escape(1) }
            } else { DotState::LF }
        } else if b[0] == BYTE_CR {
            if b.len() < 2 { DotState::Wait }
            else if b[1] == BYTE_LF {
                if b.len() < 3 { DotState::Wait }
                else if b[2] == BYTE_DOT {
                    if b.len() < 4 { DotState::Wait }
                    else if b[3] == BYTE_LF { DotState::End(4) }
                    else if b[3] == BYTE_CR {
                        if b.len() < 5 { DotState::Wait }
                        else if b[4] == BYTE_LF { DotState::End(5) }
                        else { DotState::Escape(2) }
                    } else { DotState::Escape(2) }
                } else { DotState::CRLF }
            } else { DotState::GoOn }
        } else {
            DotState::GoOn
        }
    }
}

/// Reads the CR LF DOT CR LF situation at the start of `b`. `nl` tells
/// whether `b` starts a new line, as right after the DATA command line.
pub fn dotstate(b: &[u8], nl: bool) -> (r: DotState)
    ensures
        r == dot_state(b@, nl),
{
    let n = b.len();
    if n == 0 {
        return DotState::Wait;
    }
    if nl {
        if b[0] == BYTE_DOT {
            if n < 2 { DotState::Wait }
            else if b[1] == BYTE_LF { DotState::End(2) }
            else if b[1] == BYTE_CR {
                if n < 3 { DotState::Wait }
                else if b[2] == BYTE_LF { DotState::End(3) }
                else { DotState::Escape(0) }
            } else { DotState::Escape(0) }
        } else if b[0] == BYTE_LF {
            DotState::LF
        } else if b[0] == BYTE_CR {
            if n < 2 { DotState::Wait }
            else if b[1] == BYTE_LF { DotState::CRLF }
            else { DotState::GoOn }
        } else {
            DotState::GoOn
        }
    } else {
        if b[0] == BYTE_LF {
            if n < 2 { DotState::Wait }
            else if b[1] == BYTE_DOT {
                if n < 3 { DotState::Wait }
                else if b[2] == BYTE_LF { DotState::End(3) }
                else if b[2] == BYTE_CR {
                    if n < 4 { DotState::Wait }
                    else if b[3] == BYTE_LF { DotState::End(4) }
                    else { DotState::Escape(1) }
                } else { DotState::Escape(1) }
            } else { DotState::LF }
        } else if b[0] == BYTE_CR {
            if n < 2 { DotState::Wait }
            else if b[1] == BYTE_LF {
                if n < 3 { DotState::Wait }
                else if b[2] == BYTE_DOT {
                    if n < 4 { DotState::Wait }
                    else if b[3] == BYTE_LF { DotState::End(4) }
                    else if b[3] == BYTE_CR {
                        if n < 5 { DotState::Wait }
                        else if b[4] == BYTE_LF { DotState::End(5) }
                        else { DotState::Escape(2) }
                    } else { DotState::Escape(2) }
                } else { DotState::CRLF }
            } else { DotState::GoOn }
        } else {
            DotState::GoOn
        }
    }
}

/// Once the bytes at hand decide the dot situation, more bytes do not
/// change it.
pub proof fn lemma_dot_state_stable(b: Seq<u8>, more: Seq<u8>, nl: bool)
    requires
        !(dot_state(b, nl) is Wait),
    ensures
        dot_state(b + more, nl) == dot_state(b, nl),
{
    let c = b + more;
    assert(forall|i: int| 0 <= i < b.len() ==> c[i] == b[i]);
}

/// A data ending found by `dot_state` is a line holding only a dot, right
/// at the start or right after the line break that it begins with.
pub proof fn lemma_dot_state_end(b: Seq<u8>, nl: bool)
    requires
        dot_state(b, nl) is End,
    ensures
        ({
            let n = dot_state(b, nl)->End_0 as int;
            &&& n <= b.len()
            &&& b[n - 1] == BYTE_LF
            &&& nl ==> b[0] == BYTE_DOT
            &&& !nl ==> (b[0] == BYTE_LF && b[1] == BYTE_DOT) || (b[0] == BYTE_CR && b[1] == BYTE_LF && b[2] == BYTE_DOT)
        }),
{
}

/// `dot_state` reports what is really at the start of the bytes: an
/// escaping dot only where a dot opens a line, a line feed only where one
/// stands, a CR LF pair only where both stand; and a line break at the
/// start of a new line is handed on as data, whatever follows it.
pub proof fn lemma_dot_state_marks(b: Seq<u8>, nl: bool)
    ensures
        dot_state(b, nl) matches DotState::Escape(p) ==> {
            &&& 0 <= p < b.len()
            &&& b[p as int] == BYTE_DOT
            &&& p + 1 < b.len()
            &&& b[p + 1] != BYTE_LF
            &&& (p == 0 ==> nl)
            &&& (p > 0 ==> b[p - 1] == BYTE_LF)
        },
        dot_state(b, nl) is LF ==> b.len() >= 1 && b[0] == BYTE_LF,
        dot_state(b, nl) is CRLF ==> b.len() >= 2 && b[0] == BYTE_CR && b[1] == BYTE_LF,
        dot_state(b, nl) is GoOn ==> b.len() >= 1 && b[0] != BYTE_LF && (nl ==> b[0] != BYTE_DOT),
        nl && b.len() >= 1 && b[0] == BYTE_LF ==> dot_state(b, nl) == DotState::LF,
        nl && b.len() >= 2 && b[0] == BYTE_CR && b[1] == BYTE_LF ==> dot_state(b, nl) == DotState::CRLF,
        nl && b.len() >= 1 && b[0] != BYTE_DOT && b[0] != BYTE_LF && b[0] != BYTE_CR
            ==> dot_state(b, nl) == DotState::GoOn,
{
}

} // verus!

verus! {

/* Searching with regular expressions */

/// Where the `regex` crate first finds the pattern in the haystack, at or
/// after `start`: the byte positions where the match starts and ends.
pub uninterp spec fn regex_find_at(pattern: Seq<char>, haystack: Seq<u8>, start: int) -> Option<(int, int)>;

/// Whether the `regex` crate finds the pattern anywhere in the haystack.
pub uninterp spec fn regex_matches(pattern: Seq<char>, haystack: Seq<u8>) -> bool;

/// The first LF at or after `i`.
pub open spec fn lf_from(h: Seq<u8>, i: int) -> Option<int>
    decreases h.len() - i,
{
    if i < 0 || i >= h.len() {
        None
    } else if h[i] == 10 {
        Some(i)
    } else {
        lf_from(h, i + 1)
    }
}

/// The first line break at or after `start`: CR LF, or LF alone; no
/// match where no LF follows.
pub open spec fn first_line_break(h: Seq<u8>, start: int) -> Option<(int, int)> {
    match lf_from(h, start) {
        None => None,
        Some(j) => if j - 1 >= start && h[j - 1] == 13 {
            Some((j - 1, j + 1))
        } else {
            Some((j, j + 1))
        },
    }
}

/// Where mail data is cut first at or after `i`: at CR LF, at LF, or at a
/// CR that ends the buffer.
pub open spec fn first_data_break(h: Seq<u8>, i: int) -> Option<(int, int)>
    decreases h.len() - i,
{
    if i < 0 || i >= h.len() {
        None
    } else if h[i] == 10 {
        Some((i, i + 1))
    } else if h[i] == 13 && i + 1 < h.len() && h[i + 1] == 10 {
        Some((i, i + 2))
    } else if h[i] == 13 && i + 1 == h.len() {
        Some((i, i + 1))
    } else {
        first_data_break(h, i + 1)
    }
}

/// A cut of mail data found from `i` on lies at `i` or after it.
pub proof fn lemma_first_data_break_from(h: Seq<u8>, i: int)
    ensures
        first_data_break(h, i) matches Some((a, b)) ==> i <= a < b <= h.len(),
    decreases h.len() - i,
{
    if 0 <= i < h.len() && h[i] != 10 && !(h[i] == 13 && i + 1 < h.len() && h[i + 1] == 10) && !(h[i] == 13 && i + 1 == h.len()) {
        lemma_first_data_break_from(h, i + 1);
    }
}

/// The bytes of a line holding only a dot, with the line break before it.
pub open spec fn lone_dot() -> Seq<u8> {
    seq![13u8, 10u8, 46u8, 13u8, 10u8]
}

/// The first CR LF . CR LF at or after `i`.
pub open spec fn first_dot(h: Seq<u8>, i: int) -> Option<(int, int)>
    decreases h.len() - i,
{
    if i < 0 || i + 5 > h.len() {
        None
    } else if h.subrange(i, i + 5) == lone_dot() {
        Some((i, i + 5))
    } else {
        first_dot(h, i + 1)
    }
}

pub open spec fn opt_span(r: Option<(usize, usize)>) -> Option<(int, int)> {
    match r {
        Some((a, b)) => Some((a as int, b as int)),
        None => None,
    }
}

/// Searches the haystack for the pattern from `start` on.
///
/// Compiles the pattern with `regex::bytes::Regex::new` and calls
/// `Regex::find_at`; gives the start and end of the match. The result is
/// named `regex_find_at` of the arguments, and lies between `start` and the
/// end of the haystack. For the two literal patterns that the codecs use,
/// the regex documentation's leftmost-first match is stated: the first line
/// break (CR LF, or LF), the first cut of mail data (CR LF, LF, or a CR
/// ending the haystack) and the first CR LF . CR LF at or after `start`.
#[verifier::external_body]
pub(crate) fn find_at(pattern: &str, haystack: &[u8], start: usize) -> (r: Option<(usize, usize)>)
    requires
        start <= haystack@.len(),
    ensures
        match r {
            Some((a, b)) => regex_find_at(pattern@, haystack@, start as int) == Some((a as int, b as int)),
            None => regex_find_at(pattern@, haystack@, start as int) is None,
        },
        r matches Some((a, b)) ==> start <= a <= b <= haystack@.len(),
        pattern@ == line_break_pattern() ==> opt_span(r) == first_line_break(haystack@, start as int),
        pattern@ == nl_pattern() ==> opt_span(r) == first_data_break(haystack@, start as int),
        pattern@ == crate::codec::codec::dot_pattern() ==> opt_span(r) == first_dot(haystack@, start as int),
{
    match regex::bytes::Regex::new(pattern) {
        Ok(re) => re.find_at(haystack, start).map(|m| (m.start(), m.end())),
        Err(_) => None,
    }
}

/// Whether the pattern matches the haystack.
///
/// Compiles the pattern with `regex::bytes::Regex::new` and calls
/// `Regex::is_match`; the result is named `regex_matches` of the arguments
/// and nothing more is claimed of it.
#[verifier::external_body]
fn is_match(pattern: &str, haystack: &[u8]) -> (r: bool)
    ensures
        r == regex_matches(pattern@, haystack@),
{
    match regex::bytes::Regex::new(pattern) {
        Ok(re) => re.is_match(haystack),
        Err(_) => false,
    }
}

/// Reads bytes as UTF-8 text.
///
/// Calls `String::from_utf8`, which, as its documentation says, gives the
/// text that the bytes encode where they are valid UTF-8, and an error
/// otherwise.
#[verifier::external_body]
pub(crate) fn utf8_string(bytes: Vec<u8>) -> (r: Option<String>)
    ensures
        r is Some <==> valid_utf8(bytes@),
        r matches Some(s) ==> s@ == decode_utf8(bytes@),
{
    String::from_utf8(bytes).ok()
}

/* The codec */

/// Where mail data is cut: at CR LF, at LF, or before a CR at the end of
/// the buffer, which is kept back until the next byte shows what it is.
pub open spec fn nl_pattern() -> Seq<char> {
    "\r?\n|\r$"@
}

/// The end of a command line: CR LF or LF. A CR at the end of the buffer
/// is not certain yet and waits for the next byte.
pub open spec fn line_break_pattern() -> Seq<char> {
    "\r?\n"@
}

/// A command line starts with four letters followed by a line break or a space.
pub open spec fn sanity_pattern() -> Seq<char> {
    "(?i)^[a-z]{4}(\r?\n| )"@
}

/// Where the codec stands.
#[derive(Debug, Clone, Copy, PartialEq, Eq)]
pub enum State {
    /// Reading command lines: the bytes up to the head are done, those up
    /// to the tail were searched for a line break already.
    Line(usize, usize),
    /// Reading mail data: whether a new line starts, and the bytes done.
    Data(bool, usize),
}

/// The codec; its model is where it stands.
pub struct SmtpCodec {
    state: State,
}

impl View for SmtpCodec {
    type V = State;

    closed spec fn view(&self) -> State {
        self.state
    }
}

/// The control made of a line: a command to be read later where the line
/// passes the sanity check and is UTF-8 text, else invalid input.
pub open spec fn line_control(line: Seq<u8>, sane: bool) -> SpecServerControll {
    if sane && valid_utf8(line) {
        SpecServerControll::Command(SpecCommand::Unknown(decode_utf8(line)))
    } else {
        SpecServerControll::Invalid(line)
    }
}

/// One step of reading command lines.
pub open spec fn decode_line_spec(buf: Seq<u8>, tail: int) -> (Option<SpecServerControll>, State) {
    match regex_find_at(line_break_pattern(), buf, tail) {
        None => (None, State::Line(0, buf.len() as usize)),
        Some((_, end)) => {
            let line = buf.subrange(0, end);
            (Some(line_control(line, regex_matches(sanity_pattern(), line))), State::Line(end as usize, end as usize))
        },
    }
}

/// One step of reading mail data.
pub open spec fn decode_data_spec(buf: Seq<u8>, nl: bool, pos: usize) -> (Option<SpecServerControll>, State) {
    if buf.len() == 0 {
        (None, State::Data(nl, pos))
    } else {
        match dot_state(buf, nl) {
            DotState::Wait => (None, State::Data(nl, pos)),
            DotState::End(end) => (Some(SpecServerControll::FinalDot(buf.subrange(0, end as int))), State::Line(end, end)),
            DotState::Escape(p) => if p == 0 {
                (Some(SpecServerControll::EscapeDot(buf.subrange(0, 1))), State::Data(false, 1))
            } else {
                (Some(SpecServerControll::DataChunk(buf.subrange(0, p as int))), State::Data(true, p))
            },
            DotState::LF => (Some(SpecServerControll::DataChunk(seq![BYTE_LF])), State::Data(true, 1)),
            DotState::CRLF => (Some(SpecServerControll::DataChunk(seq![BYTE_CR, BYTE_LF])), State::Data(true, 2)),
            DotState::GoOn => match regex_find_at(nl_pattern(), buf, 0) {
                Some((start, _)) => (Some(SpecServerControll::DataChunk(buf.subrange(0, start))), State::Data(false, start as usize)),
                None => (Some(SpecServerControll::DataChunk(buf)), State::Data(false, buf.len() as usize)),
            },
        }
    }
}

/// The position that a state says is done.
pub open spec fn state_pos(s: State) -> int {
    match s {
        State::Line(h, _) => h as int,
        State::Data(_, p) => p as int,
    }
}

/// The buffer and state after dropping the bytes done.
pub open spec fn adjust_spec(buf: Seq<u8>, state: State) -> (Seq<u8>, State) {
    match state {
        State::Line(head, tail) => (buf.subrange(head as int, buf.len() as int), State::Line(0, (tail - head) as usize)),
        State::Data(nl, pos) => (buf.subrange(pos as int, buf.len() as int), State::Data(nl, 0)),
    }
}

/// Where the state fits the buffer: nothing is done yet and the positions
/// lie within it.
pub open spec fn fits(state: State, buf: Seq<u8>) -> bool {
    match state {
        State::Line(head, tail) => head == 0 && tail <= buf.len(),
        State::Data(_, pos) => pos <= buf.len(),
    }
}

/// The step that `decode_either` takes, before the bytes done are dropped.
pub open spec fn decode_spec(buf: Seq<u8>, state: State) -> (Option<SpecServerControll>, State) {
    match state {
        State::Data(nl, pos) => decode_data_spec(buf, nl, pos),
        State::Line(_, tail) => decode_line_spec(buf, tail as int),
    }
}

/// The input bytes that a control stands for.
pub open spec fn control_bytes(c: Option<SpecServerControll>) -> Seq<u8> {
    match c {
        Some(SpecServerControll::Command(SpecCommand::Unknown(line))) => encode_utf8(line),
        Some(SpecServerControll::Invalid(b)) => b,
        Some(SpecServerControll::DataChunk(b)) => b,
        Some(SpecServerControll::FinalDot(b)) => b,
        Some(SpecServerControll::EscapeDot(b)) => b,
        _ => Seq::empty(),
    }
}

pub open spec fn opt_view(c: Option<ServerControll>) -> Option<SpecServerControll> {
    match c {
        Some(x) => Some(x@),
        None => None,
    }
}

fn prefix(buf: &[u8], end: usize) -> (r: Vec<u8>)
    requires
        end <= buf@.len(),
    ensures
        r@ == buf@.subrange(0, end as int),
{
    slice_to_vec(slice_subrange(buf, 0, end))
}

/// The control made of a line, given whether the line passes the sanity
/// check.
pub fn line_control_of(line: Vec<u8>, sane: bool) -> (r: ServerControll)
    ensures
        r@ == line_control(line@, sane),
{
    if !sane {
        return ServerControll::Invalid(line);
    }
    let ghost bytes = line@;
    let copy = line.clone();
    assert(copy@ == bytes);
    match utf8_string(copy) {
        Some(text) => ServerControll::Command(SmtpCommand::Unknown(text)),
        None => ServerControll::Invalid(line),
    }
}

impl SmtpCodec {
    pub fn new() -> (r: Self)
        ensures
            r@ == State::Line(0, 0),
    {
        SmtpCodec { state: State::Line(0, 0) }
    }

    /// One step of reading command lines: a line up to and with its line
    /// break, if there is one after `tail`.
    pub fn decode_line(&self, buf: &[u8], tail: usize) -> (r: (Option<ServerControll>, State))
        requires
            tail <= buf@.len(),
        ensures
            (opt_view(r.0), r.1) == decode_line_spec(buf@, tail as int),
            r.1 matches State::Line(h, t) ==> h <= t <= buf@.len(),
            regex_find_at(line_break_pattern(), buf@, tail as int) matches Some((a, b)) ==> tail <= a <= b <= buf@.len(),
            regex_find_at(line_break_pattern(), buf@, tail as int) == first_line_break(buf@, tail as int),
    {
        proof {
            reveal_strlit("\r?\n");
        }
        match find_at("\r?\n", buf, tail) {
            None => (None, State::Line(0, buf.len())),
            Some((_, end)) => {
                let line = prefix(buf, end);
                let sane = is_match("(?i)^[a-z]{4}(\r?\n| )", line.as_slice());
                (Some(line_control_of(line, sane)), State::Line(end, end))
            },
        }
    }

    /// One step of reading mail data: nothing while the bytes at hand do
    /// not decide, else a piece of the buffer from its start, at least a
    /// byte, up to the new position.
    pub fn decode_data(&self, buf: &[u8], nl: bool, pos: usize) -> (r: (Option<ServerControll>, State))
        ensures
            (opt_view(r.0), r.1) == decode_data_spec(buf@, nl, pos),
            r.1 matches State::Line(h, t) ==> h <= t <= buf@.len(),
            r.0 is None ==> r.1 == State::Data(nl, pos),
            r.0 is Some ==> 1 <= state_pos(r.1) <= buf@.len()
                && control_bytes(opt_view(r.0)) == buf@.take(state_pos(r.1)),
            buf@.len() > 0 && dot_state(buf@, nl) is GoOn ==> (regex_find_at(nl_pattern(), buf@, 0) matches Some((a, b))
                ==> 0 <= a <= b <= buf@.len()),
            buf@.len() > 0 && dot_state(buf@, nl) is GoOn ==> regex_find_at(nl_pattern(), buf@, 0)
                == first_data_break(buf@, 0),
    {
        if buf.len() == 0 {
            return (None, State::Data(nl, pos));
        }
        match dotstate(buf, nl) {
            DotState::Wait => (None, State::Data(nl, pos)),
            DotState::End(end) => {
                assert(buf@.take(end as int) =~= buf@.subrange(0, end as int));
                (Some(ServerControll::FinalDot(prefix(buf, end))), State::Line(end, end))
            },
            DotState::Escape(p) => {
                if p == 0 {
                    assert(buf@.take(1) =~= buf@.subrange(0, 1));
                    (Some(ServerControll::EscapeDot(prefix(buf, 1))), State::Data(false, 1))
                } else {
                    assert(buf@.take(p as int) =~= buf@.subrange(0, p as int));
                    (Some(ServerControll::DataChunk(prefix(buf, p))), State::Data(true, p))
                }
            },
            DotState::LF => {
                let mut v: Vec<u8> = Vec::new();
                v.push(BYTE_LF);
                assert(v@ =~= seq![BYTE_LF]);
                assert(buf@.take(1) =~= seq![BYTE_LF]);
                (Some(ServerControll::DataChunk(v)), State::Data(true, 1))
            },
            DotState::CRLF => {
                let mut v: Vec<u8> = Vec::new();
                v.push(BYTE_CR);
                v.push(BYTE_LF);
                assert(v@ =~= seq![BYTE_CR, BYTE_LF]);
                assert(buf@.take(2) =~= seq![BYTE_CR, BYTE_LF]);
                (Some(ServerControll::DataChunk(v)), State::Data(true, 2))
            },
            DotState::GoOn => match find_at("\r?\n|\r$", buf, 0) {
                Some((start, _)) => {
                    proof {
                        lemma_first_data_break_from(buf@, 1);
                        assert(start >= 1);
                    }
                    assert(buf@.take(start as int) =~= buf@.subrange(0, start as int));
                    (Some(ServerControll::DataChunk(prefix(buf, start))), State::Data(false, start))
                },
                None => {
                    assert(buf@.subrange(0, buf@.len() as int) =~= buf@);
                    assert(buf@.take(buf@.len() as int) =~= buf@);
                    (Some(ServerControll::DataChunk(prefix(buf, buf.len()))), State::Data(false, buf.len()))
                },
            },
        }
    }

    /// Drops the bytes done from the buffer and keeps the state relative
    /// to what remains.
    pub fn adjust(&mut self, buf: &mut Vec<u8>, state: State)
        requires
            match state {
                State::Line(head, tail) => head <= tail <= old(buf)@.len(),
                State::Data(_, pos) => pos <= old(buf)@.len(),
            },
        ensures
            (final(buf)@, final(self)@) == adjust_spec(old(buf)@, state),
    {
        let n = buf.len();
        match state {
            State::Line(head, tail) => {
                let rest = slice_to_vec(slice_subrange(buf.as_slice(), head, n));
                *buf = rest;
                self.state = State::Line(0, tail - head);
            },
            State::Data(nl, pos) => {
                let rest = slice_to_vec(slice_subrange(buf.as_slice(), pos, n));
                *buf = rest;
                self.state = State::Data(nl, 0);
            },
        }
    }

    /// Whether the buffer suits where the codec stands, as `decode_either`
    /// asks.
    pub fn fits_buffer(&self, buf: &[u8]) -> (r: bool)
        ensures
            r == fits(self@, buf@),
    {
        match self.state {
            State::Line(head, tail) => head == 0 && tail <= buf.len(),
            State::Data(_, pos) => pos <= buf.len(),
        }
    }

    /// Reads what the buffer holds next: a command line or a piece of mail
    /// data, or nothing while more bytes are needed. What was read is taken
    /// from the buffer.
    pub fn decode_either(&mut self, buf: &mut Vec<u8>) -> (r: Option<ServerControll>)
        requires
            fits(old(self)@, old(buf)@),
        ensures
            opt_view(r) == decode_spec(old(buf)@, old(self)@).0,
            (final(buf)@, final(self)@) == adjust_spec(old(buf)@, decode_spec(old(buf)@, old(self)@).1),
            fits(final(self)@, final(buf)@),
            !(old(self)@ matches State::Data(_, p) && p > 0) ==> control_bytes(opt_view(r)) + final(buf)@ == old(buf)@,
            old(self)@ matches State::Line(_, t) ==> regex_find_at(line_break_pattern(), old(buf)@, t as int)
                == first_line_break(old(buf)@, t as int),
            old(self)@ matches State::Data(nl, _) && old(buf)@.len() > 0 && dot_state(old(buf)@, nl) is GoOn
                ==> regex_find_at(nl_pattern(), old(buf)@, 0) == first_data_break(old(buf)@, 0),
    {
        let (ctrl, state) = match self.state {
            State::Data(nl, pos) => self.decode_data(buf.as_slice(), nl, pos),
            State::Line(_, tail) => self.decode_line(buf.as_slice(), tail),
        };
        let ghost before = buf@;
        let total = buf.len();
        self.adjust(buf, state);
        proof {
            let c = opt_view(ctrl);
            let n = before.len() as int;
            assert(n == total);
            if !(old(self)@ matches State::Data(_, p) && p > 0) {
                match old(self)@ {
                    State::Line(_, tail) => {
                        match regex_find_at(line_break_pattern(), before, tail as int) {
                            None => {
                                assert(buf@ =~= before);
                                assert(control_bytes(c) + buf@ == before);
                            },
                            Some((_, end)) => {
                                let line = before.subrange(0, end);
                                if c matches Some(SpecServerControll::Command(_)) {
                                    decode_utf8_encode_utf8(line);
                                }
                                assert(control_bytes(c) == line);
                                assert(line + before.subrange(end, n) =~= before);
                                assert(state == State::Line(end as usize, end as usize));
                                assert(0 <= end <= n);
                                assert((end as usize) as int == end);
                                assert(buf@ == before.subrange(end, n));
                                assert(control_bytes(c) + buf@ == before);
                            },
                        }
                    },
                    State::Data(nl, pos) => {
                        if n == 0 {
                            assert(buf@ =~= before);
                                assert(control_bytes(c) + buf@ == before);
                        } else {
                            match dot_state(before, nl) {
                                DotState::Wait => {
                                    assert(buf@ =~= before);
                                assert(control_bytes(c) + buf@ == before);
                                },
                                DotState::End(end) => {
                                    assert(before.subrange(0, end as int) + before.subrange(end as int, n) =~= before);
                                assert(control_bytes(c) + buf@ == before);
                                },
                                DotState::Escape(k) => {
                                    if k == 0 {
                                        assert(before.subrange(0, 1) + before.subrange(1, n) =~= before);
                                assert(control_bytes(c) + buf@ == before);
                                    } else {
                                        assert(before.subrange(0, k as int) + before.subrange(k as int, n) =~= before);
                                assert(control_bytes(c) + buf@ == before);
                                    }
                                },
                                DotState::LF => {
                                    assert(seq![BYTE_LF] + before.subrange(1, n) =~= before);
                                assert(control_bytes(c) + buf@ == before);
                                },
                                DotState::CRLF => {
                                    assert(seq![BYTE_CR, BYTE_LF] + before.subrange(2, n) =~= before);
                                assert(control_bytes(c) + buf@ == before);
                                },
                                DotState::GoOn => {
                                    match regex_find_at(nl_pattern(), before, 0) {
                                        Some((start, _)) => {
                                            assert(before.subrange(0, start) + before.subrange(start, n) =~= before);
                                            assert(state == State::Data(false, start as usize));
                                            assert(0 <= start <= n);
                                            assert((start as usize) as int == start);
                                            assert(buf@ == before.subrange(start, n));
                                assert(control_bytes(c) + buf@ == before);
                                        },
                                        None => {
                                            assert(before + before.subrange(n, n) =~= before);
                                assert(control_bytes(c) + buf@ == before);
                                        },
                                    }
                                },
                            }
                        }
                    },
                }
            }
        }
        ctrl
    }

    /// Writes a control towards the client: a reply goes out on the wire;
    /// the acceptance of mail data switches the codec to reading data.
    pub fn encode(&mut self, item: ClientControll, buf: &mut Vec<u8>)
        ensures
            match item {
                ClientControll::Reply(reply) => final(buf)@ == old(buf)@ + encode_utf8(reply_chars(reply@)),
                _ => final(buf)@ == old(buf)@,
            },
            match (item, old(self)@) {
                (ClientControll::AcceptData, State::Line(_, tail)) => final(self)@ == State::Data(true, tail),
                _ => final(self)@ == old(self)@,
            },
    {
        match item {
            ClientControll::AcceptData => {
                if let State::Line(_, tail) = self.state {
                    self.state = State::Data(true, tail);
                }
            },
            ClientControll::Reply(reply) => {
                SmtpSerializer::answer_serializer().write_reply(buf, reply);
            },
            _ => {},
        }
    }
}

} // verus!
