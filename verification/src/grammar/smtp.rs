//! The SMTP parser: each function follows the rule of the same name in
//! `rules` and is proved to give exactly what that rule gives.
use vstd::prelude::*;
use vstd::string::*;
use crate::grammar::rules;
use crate::model::command::{SmtpAddress, SmtpCommand, SmtpHelo, SmtpHost, SmtpInput, SmtpMail, SmtpPath, SpecInput};
use crate::grammar::text::{byte_pos, decode_chars, lemma_byte_pos_mono, lemma_bytes_between};
use vstd::utf8::encode_utf8;
use vstd::slice::{slice_subrange, slice_to_vec};
use crate::model::text::{push_char, text_of};

verus! {

/// An exec result of a rule against the rule's own result.
pub open spec fn same<T: View>(r: Option<(T, usize)>, q: Option<(T::V, int)>) -> bool {
    match r {
        Some((v, e)) => q == Some((v@, e as int)),
        None => q is None,
    }
}

/// An exec end position against a rule's end position.
pub open spec fn same_end(r: Option<usize>, q: Option<int>) -> bool {
    match r {
        Some(e) => q == Some(e as int),
        None => q is None,
    }
}

fn at(s: &Vec<char>, p: usize, c: char) -> (r: bool)
    ensures
        r == rules::at(s@, p as int, c),
{
    p < s.len() && s[p] == c
}

fn is_digit(c: char) -> (r: bool)
    ensures
        r == rules::is_digit(c),
{
    '0' <= c && c <= '9'
}

fn is_alnum(c: char) -> (r: bool)
    ensures
        r == rules::is_alnum(c),
{
    ('0' <= c && c <= '9') || ('a' <= c && c <= 'z') || ('A' <= c && c <= 'Z')
}

fn digit_at(s: &Vec<char>, p: usize) -> (r: bool)
    ensures
        r == rules::digit_at(s@, p as int),
{
    p < s.len() && is_digit(s[p])
}

fn in_range(s: &Vec<char>, p: usize, lo: char, hi: char) -> (r: bool)
    ensures
        r == rules::in_range(s@, p as int, lo, hi),
{
    p < s.len() && lo <= s[p] && s[p] <= hi
}

fn ascii_fold(c: char) -> (r: u32)
    ensures
        r == rules::ascii_fold(c),
{
    if 'A' <= c && c <= 'Z' {
        c as u32 + 32
    } else {
        c as u32
    }
}

/// `i(lit)`
fn keyword(s: &Vec<char>, p: usize, lit: &str) -> (r: Option<usize>)
    ensures
        same_end(r, rules::keyword(s@, p as int, lit@)),
        r matches Some(e) ==> p <= e <= s.len(),
{
    let n = lit.unicode_len();
    if p > s.len() || n > s.len() - p {
        return None;
    }
    let mut k: usize = 0;
    while k < n
        invariant
            n == lit@.len(),
            p + n <= s.len(),
            k <= n,
            forall|j: int| 0 <= j < k ==> #[trigger] rules::ascii_fold(s@[p + j]) == rules::ascii_fold(lit@[j]),
        decreases n - k,
    {
        if ascii_fold(s[p + k]) != ascii_fold(lit.get_char(k)) {
            assert(rules::ascii_fold(s@[p + k as int]) != rules::ascii_fold(lit@[k as int]));
            return None;
        }
        k = k + 1;
    }
    Some(p + n)
}

/// `NL`
fn nl(s: &Vec<char>, p: usize) -> (r: Option<usize>)
    requires
        p <= s.len(),
    ensures
        same_end(r, rules::nl(s@, p as int)),
        r matches Some(e) ==> p < e <= s.len(),
{
    if at(s, p, '\r') && at(s, p + 1, '\n') {
        Some(p + 2)
    } else if at(s, p, '\n') {
        Some(p + 1)
    } else {
        None
    }
}

/// The end of `WS*`.
fn ws_end(s: &Vec<char>, p: usize) -> (r: usize)
    requires
        p <= s.len(),
    ensures
        r == rules::ws_end(s@, p as int),
        p <= r <= s.len(),
{
    let mut i = p;
    while i < s.len() && (s[i] == ' ' || s[i] == '\t')
        invariant
            p <= i <= s.len(),
            rules::ws_end(s@, i as int) == rules::ws_end(s@, p as int),
        decreases s.len() - i,
    {
        i = i + 1;
    }
    i
}

fn digits_end(s: &Vec<char>, p: usize) -> (r: usize)
    requires
        p <= s.len(),
    ensures
        r == rules::digits_end(s@, p as int),
        p <= r <= s.len(),
{
    let mut i = p;
    while i < s.len() && is_digit(s[i])
        invariant
            p <= i <= s.len(),
            rules::digits_end(s@, i as int) == rules::digits_end(s@, p as int),
        decreases s.len() - i,
    {
        i = i + 1;
    }
    i
}

fn label_chars_end(s: &Vec<char>, p: usize) -> (r: usize)
    requires
        p <= s.len(),
    ensures
        r == rules::label_chars_end(s@, p as int),
        p <= r <= s.len(),
{
    let mut i = p;
    while i < s.len() && (is_alnum(s[i]) || s[i] == '-')
        invariant
            p <= i <= s.len(),
            rules::label_chars_end(s@, i as int) == rules::label_chars_end(s@, p as int),
        decreases s.len() - i,
    {
        i = i + 1;
    }
    i
}

fn ipv6_chars_end(s: &Vec<char>, p: usize) -> (r: usize)
    requires
        p <= s.len(),
    ensures
        r == rules::ipv6_chars_end(s@, p as int),
        p <= r <= s.len(),
{
    let mut i = p;
    while i < s.len() && (is_digit(s[i]) || ('a' <= s[i] && s[i] <= 'f') || ('A' <= s[i] && s[i] <= 'F')
        || s[i] == ':' || s[i] == '.')
        invariant
            p <= i <= s.len(),
            rules::ipv6_chars_end(s@, i as int) == rules::ipv6_chars_end(s@, p as int),
        decreases s.len() - i,
    {
        i = i + 1;
    }
    i
}

fn line_end(s: &Vec<char>, p: usize) -> (r: usize)
    requires
        p <= s.len(),
    ensures
        r == rules::line_end(s@, p as int),
        p <= r <= s.len(),
{
    let mut i = p;
    while i < s.len() && s[i] != '\n'
        invariant
            p <= i <= s.len(),
            rules::line_end(s@, i as int) == rules::line_end(s@, p as int),
        decreases s.len() - i,
    {
        i = i + 1;
    }
    i
}

/// The characters from `b` to `e` as a string.
fn substring(s: &Vec<char>, b: usize, e: usize) -> (r: String)
    requires
        b <= e <= s.len(),
    ensures
        r@ == s@.subrange(b as int, e as int),
{
    let mut t = String::new();
    let mut i = b;
    while i < e
        invariant
            b <= i <= e <= s.len(),
            t@ == s@.subrange(b as int, i as int),
        decreases e - i,
    {
        push_char(&mut t, s[i]);
        i = i + 1;
        assert(t@ =~= s@.subrange(b as int, i as int));
    }
    t
}

/* Strings */

fn is_regular(c: char) -> (r: bool)
    ensures
        r == rules::is_regular(c),
{
    c == '-' || c == '!' || c == '#' || c == '$' || c == '%' || c == '&' || c == '\'' || c == '*'
        || c == '+' || c == '`' || c == '/' || is_alnum(c) || c == '=' || c == '?' || c == '~'
        || c == '^' || c == '_' || c == '{' || c == '}' || c == '|'
}

fn char_special(s: &Vec<char>, p: usize) -> (r: Option<(char, usize)>)
    requires
        p <= s.len(),
    ensures
        r == (match rules::char_special(s@, p as int) {
            Some((c, e)) => Some((c, e as usize)),
            None => None::<(char, usize)>,
        }),
        r matches Some((c, e)) ==> p < e <= s.len(),
{
    if at(s, p, '\\') && p + 1 < s.len() {
        Some((s[p + 1], p + 2))
    } else {
        None
    }
}

fn char_plain(s: &Vec<char>, p: usize) -> (r: Option<(char, usize)>)
    requires
        p <= s.len(),
    ensures
        r == (match rules::char_plain(s@, p as int) {
            Some((c, e)) => Some((c, e as usize)),
            None => None::<(char, usize)>,
        }),
        r matches Some((c, e)) ==> p < e <= s.len(),
{
    if p < s.len() && is_regular(s[p]) {
        Some((s[p], p + 1))
    } else {
        char_special(s, p)
    }
}

fn char_quoted(s: &Vec<char>, p: usize) -> (r: Option<(char, usize)>)
    requires
        p <= s.len(),
    ensures
        r == (match rules::char_quoted(s@, p as int) {
            Some((c, e)) => Some((c, e as usize)),
            None => None::<(char, usize)>,
        }),
        r matches Some((c, e)) ==> p < e <= s.len(),
{
    if p < s.len() && !(s[p] == '"' || s[p] == '\\' || s[p] == '\r' || s[p] == '\n') {
        Some((s[p], p + 1))
    } else {
        char_special(s, p)
    }
}

/// `char*`
fn plain_chars(s: &Vec<char>, p: usize) -> (r: (String, usize))
    requires
        p <= s.len(),
    ensures
        r.0@ == rules::plain_chars(s@, p as int).0,
        r.1 == rules::plain_chars(s@, p as int).1,
        p <= r.1 <= s.len(),
{
    let mut acc = String::new();
    let mut i = p;
    loop
        invariant
            p <= i <= s.len(),
            acc@ + rules::plain_chars(s@, i as int).0 == rules::plain_chars(s@, p as int).0,
            rules::plain_chars(s@, i as int).1 == rules::plain_chars(s@, p as int).1,
        ensures
            p <= i <= s.len(),
            acc@ == rules::plain_chars(s@, p as int).0,
            i == rules::plain_chars(s@, p as int).1,
        decreases s.len() - i,
    {
        match char_plain(s, i) {
            Some((c, e)) => {
                let ghost before = acc@;
                push_char(&mut acc, c);
                assert(acc@ + rules::plain_chars(s@, e as int).0 =~= before + rules::plain_chars(s@, i as int).0);
                i = e;
            },
            None => {
                assert(acc@ + Seq::<char>::empty() =~= acc@);
                break;
            },
        }
    }
    (acc, i)
}

/// `qchar*`
fn quoted_chars(s: &Vec<char>, p: usize) -> (r: (String, usize))
    requires
        p <= s.len(),
    ensures
        r.0@ == rules::quoted_chars(s@, p as int).0,
        r.1 == rules::quoted_chars(s@, p as int).1,
        p <= r.1 <= s.len(),
{
    let mut acc = String::new();
    let mut i = p;
    loop
        invariant
            p <= i <= s.len(),
            acc@ + rules::quoted_chars(s@, i as int).0 == rules::quoted_chars(s@, p as int).0,
            rules::quoted_chars(s@, i as int).1 == rules::quoted_chars(s@, p as int).1,
        ensures
            p <= i <= s.len(),
            acc@ == rules::quoted_chars(s@, p as int).0,
            i == rules::quoted_chars(s@, p as int).1,
        decreases s.len() - i,
    {
        match char_quoted(s, i) {
            Some((c, e)) => {
                let ghost before = acc@;
                push_char(&mut acc, c);
                assert(acc@ + rules::quoted_chars(s@, e as int).0 =~= before + rules::quoted_chars(s@, i as int).0);
                i = e;
            },
            None => {
                assert(acc@ + Seq::<char>::empty() =~= acc@);
                break;
            },
        }
    }
    (acc, i)
}

/// `str`
fn string(s: &Vec<char>, p: usize) -> (r: (String, usize))
    requires
        p <= s.len(),
    ensures
        r.0@ == rules::string(s@, p as int).0,
        r.1 == rules::string(s@, p as int).1,
        p <= r.1 <= s.len(),
{
    if at(s, p, '"') {
        let (q, e) = quoted_chars(s, p + 1);
        if at(s, e, '"') {
            return (q, e + 1);
        }
    }
    plain_chars(s, p)
}

} // verus!

verus! {

/// Reads an IPv6 address in the standard library's way.
///
/// Calls `FromStr` of `core::net::Ipv6Addr` on the text and gives the
/// address as a number; the result is named `ipv6_value` of the text and
/// nothing more is claimed of it.
#[verifier::external_body]
fn parse_ipv6(text: &str) -> (r: Option<u128>)
    ensures
        r == rules::ipv6_value(text@),
{
    match text.parse::<core::net::Ipv6Addr>() {
        Ok(a) => Some(u128::from(a)),
        Err(_) => None,
    }
}

} // verus!

verus! {

/* Hosts */

/// `label`
fn label(s: &Vec<char>, p: usize) -> (r: Option<usize>)
    requires
        p <= s.len(),
    ensures
        same_end(r, rules::label(s@, p as int)),
        r matches Some(e) ==> p < e <= s.len(),
{
    if p < s.len() && is_alnum(s[p]) {
        Some(label_chars_end(s, p + 1))
    } else {
        None
    }
}

/// `("." label)*`
fn domain_rest(s: &Vec<char>, p: usize) -> (r: usize)
    requires
        p <= s.len(),
    ensures
        r == rules::domain_rest(s@, p as int),
        p <= r <= s.len(),
{
    let mut i = p;
    loop
        invariant
            p <= i <= s.len(),
            rules::domain_rest(s@, i as int) == rules::domain_rest(s@, p as int),
        ensures
            p <= i <= s.len(),
            i == rules::domain_rest(s@, p as int),
        decreases s.len() - i,
    {
        if at(s, i, '.') {
            match label(s, i + 1) {
                Some(e) => {
                    i = e;
                },
                None => {
                    break;
                },
            }
        } else {
            break;
        }
    }
    i
}

/// `host_domain`
fn host_domain(s: &Vec<char>, p: usize) -> (r: Option<(SmtpHost, usize)>)
    requires
        p <= s.len(),
    ensures
        same(r, rules::host_domain(s@, p as int)),
        r matches Some((h, e)) ==> p < e <= s.len(),
{
    match label(s, p) {
        Some(e) => {
            let r = domain_rest(s, e);
            Some((SmtpHost::Domain(substring(s, p, r)), r))
        },
        None => None,
    }
}

proof fn lemma_digits(s: Seq<char>, p: int, i: int)
    requires
        0 <= p <= i < rules::digits_end(s, p),
    ensures
        rules::is_digit(s[i]),
    decreases i - p,
{
    if i > p {
        lemma_digits(s, p + 1, i);
    }
}

/// The value of the decimal digits from `a` to `b`, where it fits in 32 bits.
fn decimal_run(s: &Vec<char>, a: usize, b: usize) -> (r: Option<u32>)
    requires
        a <= b <= s.len(),
        forall|i: int| a <= i < b ==> rules::is_digit(#[trigger] s@[i]),
    ensures
        r matches Some(v) ==> v == rules::decimal_value(s@.subrange(a as int, b as int)),
        r is None ==> rules::decimal_value(s@.subrange(a as int, b as int)) > u32::MAX,
{
    let mut v: u64 = 0;
    let mut big = false;
    let mut i = a;
    assert(s@.subrange(a as int, a as int) =~= Seq::<char>::empty());
    while i < b
        invariant
            a <= i <= b <= s.len(),
            forall|j: int| a <= j < b ==> rules::is_digit(#[trigger] s@[j]),
            !big ==> v == rules::decimal_value(s@.subrange(a as int, i as int)) && v <= u32::MAX,
            big ==> rules::decimal_value(s@.subrange(a as int, i as int)) > u32::MAX,
        decreases b - i,
    {
        let d = (s[i] as u32 - '0' as u32) as u64;
        assert(s@.subrange(a as int, i + 1).drop_last() =~= s@.subrange(a as int, i as int));
        assert(rules::is_digit(s@[i as int]));
        if !big {
            let nv = v * 10 + d;
            if nv > 0xffff_ffff {
                big = true;
            } else {
                v = nv;
            }
        }
        i = i + 1;
    }
    if big {
        None
    } else {
        Some(v as u32)
    }
}

/// `host_numeric`
fn host_numeric(s: &Vec<char>, p: usize) -> (r: Option<(SmtpHost, usize)>)
    requires
        p <= s.len(),
    ensures
        same(r, rules::host_numeric(s@, p as int)),
        r matches Some((h, e)) ==> p < e <= s.len(),
{
    if !at(s, p, '#') {
        return None;
    }
    let e = digits_end(s, p + 1);
    if e <= p + 1 {
        return None;
    }
    proof {
        assert forall|i: int| p + 1 <= i < e implies rules::is_digit(#[trigger] s@[i]) by {
            lemma_digits(s@, p + 1, i);
        }
    }
    match decimal_run(s, p + 1, e) {
        Some(v) => Some((SmtpHost::Ipv4(v), e)),
        None => Some((SmtpHost::Invalid { label: text_of("numeric"), literal: substring(s, p + 1, e) }, e)),
    }
}

/// `ipv4part`
fn ipv4_part(s: &Vec<char>, p: usize) -> (r: Option<usize>)
    requires
        p <= s.len(),
    ensures
        same_end(r, rules::ipv4_part(s@, p as int)),
        r matches Some(e) ==> p < e <= s.len() && e - p <= 3
            && forall|i: int| p <= i < e ==> rules::is_digit(#[trigger] s@[i]),
{
    if at(s, p, '2') && at(s, p + 1, '5') && in_range(s, p + 2, '0', '5') {
        Some(p + 3)
    } else if at(s, p, '2') && in_range(s, p + 1, '0', '4') && digit_at(s, p + 2) {
        Some(p + 3)
    } else if in_range(s, p, '0', '1') && digit_at(s, p + 1) {
        if digit_at(s, p + 2) {
            Some(p + 3)
        } else {
            Some(p + 2)
        }
    } else if digit_at(s, p) {
        if digit_at(s, p + 1) {
            Some(p + 2)
        } else {
            Some(p + 1)
        }
    } else {
        None
    }
}

/// `ipv4addr`
fn ipv4_addr(s: &Vec<char>, p: usize) -> (r: Option<(usize, usize, usize, usize)>)
    requires
        p <= s.len(),
    ensures
        r matches Some(o) ==> rules::ipv4_addr(s@, p as int) == Some((o.0 as int, o.1 as int, o.2 as int, o.3 as int)),
        r is None ==> rules::ipv4_addr(s@, p as int) is None,
        r matches Some(o) ==> p < o.0 < o.1 < o.2 < o.3 <= s.len()
            && o.0 - p <= 3 && o.1 - o.0 <= 4 && o.2 - o.1 <= 4 && o.3 - o.2 <= 4
            && forall|i: int| p <= i < o.0 ==> rules::is_digit(#[trigger] s@[i]),
        r matches Some(o) ==> forall|i: int| o.0 + 1 <= i < o.1 ==> rules::is_digit(#[trigger] s@[i]),
        r matches Some(o) ==> forall|i: int| o.1 + 1 <= i < o.2 ==> rules::is_digit(#[trigger] s@[i]),
        r matches Some(o) ==> forall|i: int| o.2 + 1 <= i < o.3 ==> rules::is_digit(#[trigger] s@[i]),
{
    let e1 = match ipv4_part(s, p) {
        Some(e) => e,
        None => return None,
    };
    if !at(s, e1, '.') {
        return None;
    }
    let e2 = match ipv4_part(s, e1 + 1) {
        Some(e) => e,
        None => return None,
    };
    if !at(s, e2, '.') {
        return None;
    }
    let e3 = match ipv4_part(s, e2 + 1) {
        Some(e) => e,
        None => return None,
    };
    if !at(s, e3, '.') {
        return None;
    }
    let e4 = match ipv4_part(s, e3 + 1) {
        Some(e) => e,
        None => return None,
    };
    Some((e1, e2, e3, e4))
}

/// The value of an octet of at most three digits.
fn octet(s: &Vec<char>, a: usize, b: usize) -> (r: u64)
    requires
        a < b <= s.len(),
        b - a <= 3,
        forall|i: int| a <= i < b ==> rules::is_digit(#[trigger] s@[i]),
    ensures
        r == rules::octet_value(s@, a as int, b as int),
        r <= 999,
{
    let d0 = (s[a] as u32 - '0' as u32) as u64;
    let ghost sub = s@.subrange(a as int, b as int);
    assert(rules::is_digit(s@[a as int]));
    reveal_with_fuel(rules::decimal_value, 4);
    assert(sub.take(0) =~= Seq::<char>::empty());
    if b - a == 1 {
        assert(sub.drop_last() =~= Seq::<char>::empty());
        d0
    } else {
        assert(rules::is_digit(s@[a + 1]));
        let d1 = (s[a + 1] as u32 - '0' as u32) as u64;
        if b - a == 2 {
            assert(sub.drop_last().drop_last() =~= Seq::<char>::empty());
            d0 * 10 + d1
        } else {
            assert(rules::is_digit(s@[a + 2]));
            let d2 = (s[a + 2] as u32 - '0' as u32) as u64;
            assert(sub.drop_last().drop_last().drop_last() =~= Seq::<char>::empty());
            d0 * 100 + d1 * 10 + d2
        }
    }
}

fn octet_ok(s: &Vec<char>, a: usize, b: usize) -> (r: bool)
    requires
        a < b <= s.len(),
    ensures
        r == rules::octet_ok(s@, a as int, b as int),
{
    b - a == 1 || s[a] != '0'
}

/// `host_ipv4`
fn host_ipv4(s: &Vec<char>, p: usize) -> (r: Option<(SmtpHost, usize)>)
    requires
        p <= s.len(),
    ensures
        same(r, rules::host_ipv4(s@, p as int)),
        r matches Some((h, e)) ==> p < e <= s.len(),
{
    if !at(s, p, '[') {
        return None;
    }
    let o = match ipv4_addr(s, p + 1) {
        Some(o) => o,
        None => return None,
    };
    if !at(s, o.3, ']') {
        return None;
    }
    if octet_ok(s, p + 1, o.0) && octet_ok(s, o.0 + 1, o.1) && octet_ok(s, o.1 + 1, o.2) && octet_ok(s, o.2 + 1, o.3) {
        let v = octet(s, p + 1, o.0) * 0x100_0000 + octet(s, o.0 + 1, o.1) * 0x1_0000
            + octet(s, o.1 + 1, o.2) * 0x100 + octet(s, o.2 + 1, o.3);
        Some((SmtpHost::Ipv4(v as u32), o.3 + 1))
    } else {
        Some((SmtpHost::Invalid { label: text_of("ipv4"), literal: substring(s, p + 1, o.3) }, o.3 + 1))
    }
}

/// `host_ipv6`
fn host_ipv6(s: &Vec<char>, p: usize) -> (r: Option<(SmtpHost, usize)>)
    requires
        p <= s.len(),
    ensures
        same(r, rules::host_ipv6(s@, p as int)),
        r matches Some((h, e)) ==> p < e <= s.len(),
{
    proof {
        reveal_strlit("IPv6");
    }
    match keyword(s, p, "IPv6") {
        Some(q) => {
            if !at(s, q, ':') {
                return None;
            }
            let e = ipv6_chars_end(s, q + 1);
            if e <= q + 1 {
                return None;
            }
            let text = substring(s, q + 1, e);
            match parse_ipv6(text.as_str()) {
                Some(v) => Some((SmtpHost::Ipv6(v), e)),
                None => Some((SmtpHost::Invalid { label: substring(s, p, q), literal: text }, e)),
            }
        },
        None => None,
    }
}

/// `host_other`
fn host_other(s: &Vec<char>, p: usize) -> (r: Option<(SmtpHost, usize)>)
    requires
        p <= s.len(),
    ensures
        same(r, rules::host_other(s@, p as int)),
        r matches Some((h, e)) ==> p < e <= s.len(),
{
    let (l, e1) = string(s, p);
    if at(s, e1, ':') {
        let (t, e2) = string(s, e1 + 1);
        Some((SmtpHost::Other { label: l, literal: t }, e2))
    } else {
        None
    }
}

/// `host`
pub fn host_at(s: &Vec<char>, p: usize) -> (r: Option<(SmtpHost, usize)>)
    requires
        p <= s.len(),
    ensures
        same(r, rules::host(s@, p as int)),
        r matches Some((h, e)) ==> p < e <= s.len(),
{
    if let Some(r) = host_numeric(s, p) {
        return Some(r);
    }
    if let Some(r) = host_ipv4(s, p) {
        return Some(r);
    }
    if let Some(r) = host_ipv6(s, p) {
        return Some(r);
    }
    if let Some(r) = host_other(s, p) {
        return Some(r);
    }
    host_domain(s, p)
}

} // verus!

verus! {

/* Paths */

/// `address`
fn address(s: &Vec<char>, p: usize) -> (r: Option<(SmtpAddress, usize)>)
    requires
        p <= s.len(),
    ensures
        same(r, rules::address(s@, p as int)),
        r matches Some((a, e)) ==> p < e <= s.len(),
{
    let (n, e1) = string(s, p);
    if at(s, e1, '@') {
        match host_at(s, e1 + 1) {
            Some((h, e)) => Some((SmtpAddress::Mailbox(n, h), e)),
            None => None,
        }
    } else {
        None
    }
}

/// `athost`
fn at_host(s: &Vec<char>, p: usize) -> (r: Option<(SmtpHost, usize)>)
    requires
        p <= s.len(),
    ensures
        same(r, rules::at_host(s@, p as int)),
        r matches Some((h, e)) ==> p < e <= s.len(),
{
    if at(s, p, '@') {
        match host_at(s, p + 1) {
            Some((h, e)) => {
                if (at(s, e, ',') && at(s, e + 1, '@')) || at(s, e, ':') {
                    Some((h, e + 1))
                } else {
                    None
                }
            },
            None => None,
        }
    } else {
        None
    }
}

/// `athost*`
fn at_hosts(s: &Vec<char>, p: usize) -> (r: (Vec<SmtpHost>, usize))
    requires
        p <= s.len(),
    ensures
        r.0.deep_view() == rules::at_hosts(s@, p as int).0,
        r.1 == rules::at_hosts(s@, p as int).1,
        p <= r.1 <= s.len(),
{
    let mut acc: Vec<SmtpHost> = Vec::new();
    let mut i = p;
    assert(acc.deep_view() =~= Seq::<crate::model::command::SpecHost>::empty());
    loop
        invariant
            p <= i <= s.len(),
            acc.deep_view() + rules::at_hosts(s@, i as int).0 == rules::at_hosts(s@, p as int).0,
            rules::at_hosts(s@, i as int).1 == rules::at_hosts(s@, p as int).1,
        ensures
            p <= i <= s.len(),
            acc.deep_view() == rules::at_hosts(s@, p as int).0,
            i == rules::at_hosts(s@, p as int).1,
        decreases s.len() - i,
    {
        match at_host(s, i) {
            Some((h, e)) => {
                let ghost before = acc.deep_view();
                let ghost hv = h@;
                acc.push(h);
                assert(acc.deep_view() =~= before.push(hv));
                assert(acc.deep_view() + rules::at_hosts(s@, e as int).0 =~= before + rules::at_hosts(s@, i as int).0);
                i = e;
            },
            None => {
                assert(acc.deep_view() + Seq::<crate::model::command::SpecHost>::empty() =~= acc.deep_view());
                break;
            },
        }
    }
    (acc, i)
}

fn path_relay(s: &Vec<char>, p: usize) -> (r: Option<(SmtpPath, usize)>)
    requires
        p <= s.len(),
    ensures
        same(r, rules::path_relay(s@, p as int)),
        r matches Some((a, e)) ==> p < e <= s.len(),
{
    if !at(s, p, '<') {
        return None;
    }
    let (hs, q) = at_hosts(s, p + 1);
    if hs.len() == 0 {
        return None;
    }
    match address(s, q) {
        Some((a, e)) => {
            if at(s, e, '>') {
                Some((SmtpPath::Relay(hs, a), e + 1))
            } else {
                None
            }
        },
        None => None,
    }
}

fn path_direct(s: &Vec<char>, p: usize) -> (r: Option<(SmtpPath, usize)>)
    requires
        p <= s.len(),
    ensures
        same(r, rules::path_direct(s@, p as int)),
        r matches Some((a, e)) ==> p < e <= s.len(),
{
    if !at(s, p, '<') {
        return None;
    }
    match address(s, p + 1) {
        Some((a, e)) => {
            if at(s, e, '>') {
                Some((SmtpPath::Direct(a), e + 1))
            } else {
                None
            }
        },
        None => None,
    }
}

/// `path_forward`
fn path_forward(s: &Vec<char>, p: usize) -> (r: Option<(SmtpPath, usize)>)
    requires
        p <= s.len(),
    ensures
        same(r, rules::path_forward(s@, p as int)),
        r matches Some((a, e)) ==> p < e <= s.len(),
{
    if let Some(r) = path_relay(s, p) {
        return Some(r);
    }
    if let Some(r) = path_direct(s, p) {
        return Some(r);
    }
    match keyword(s, p, "<postmaster>") {
        Some(e) => {
            proof {
                reveal_strlit("<postmaster>");
            }
            Some((SmtpPath::Postmaster, e))
        },
        None => None,
    }
}

/// `path_reverse`
fn path_reverse(s: &Vec<char>, p: usize) -> (r: Option<(SmtpPath, usize)>)
    requires
        p <= s.len(),
    ensures
        same(r, rules::path_reverse(s@, p as int)),
        r matches Some((a, e)) ==> p < e <= s.len(),
{
    if let Some(r) = path_relay(s, p) {
        return Some(r);
    }
    if let Some(r) = path_direct(s, p) {
        return Some(r);
    }
    if at(s, p, '<') && at(s, p + 1, '>') {
        Some((SmtpPath::Null, p + 2))
    } else {
        None
    }
}

} // verus!

verus! {

/* Commands */

/// `strparam`
fn str_param(s: &Vec<char>, p: usize) -> (r: Option<(String, usize)>)
    requires
        p <= s.len(),
    ensures
        same(r, rules::str_param(s@, p as int)),
        r matches Some((t, e)) ==> p < e <= s.len(),
{
    if at(s, p, ' ') {
        Some(string(s, p + 1))
    } else {
        None
    }
}

/// `strparam*`
fn str_params(s: &Vec<char>, p: usize) -> (r: (Vec<String>, usize))
    requires
        p <= s.len(),
    ensures
        r.0.deep_view() == rules::str_params(s@, p as int).0,
        r.1 == rules::str_params(s@, p as int).1,
        p <= r.1 <= s.len(),
{
    let mut acc: Vec<String> = Vec::new();
    let mut i = p;
    assert(acc.deep_view() =~= Seq::<Seq<char>>::empty());
    loop
        invariant
            p <= i <= s.len(),
            acc.deep_view() + rules::str_params(s@, i as int).0 == rules::str_params(s@, p as int).0,
            rules::str_params(s@, i as int).1 == rules::str_params(s@, p as int).1,
        ensures
            p <= i <= s.len(),
            acc.deep_view() == rules::str_params(s@, p as int).0,
            i == rules::str_params(s@, p as int).1,
        decreases s.len() - i,
    {
        match str_param(s, i) {
            Some((t, e)) => {
                let ghost before = acc.deep_view();
                let ghost tv = t@;
                acc.push(t);
                assert(acc.deep_view() =~= before.push(tv));
                assert(acc.deep_view() + rules::str_params(s@, e as int).0 =~= before + rules::str_params(s@, i as int).0);
                i = e;
            },
            None => {
                assert(acc.deep_view() + Seq::<Seq<char>>::empty() =~= acc.deep_view());
                break;
            },
        }
    }
    (acc, i)
}

/// `i(lit) NL`
fn word_end(s: &Vec<char>, p: usize, lit: &str) -> (r: Option<usize>)
    requires
        p <= s.len(),
    ensures
        same_end(r, rules::word_end(s@, p as int, lit@)),
        r matches Some(e) ==> p < e <= s.len(),
{
    match keyword(s, p, lit) {
        Some(q) => nl(s, q),
        None => None,
    }
}

fn mail_of(k: &rules::MailKind, path: SmtpPath) -> (r: SmtpMail)
    ensures
        r@ == rules::mail_of(*k, path@),
{
    match k {
        rules::MailKind::Mail => SmtpMail::Mail(path),
        rules::MailKind::Send => SmtpMail::Send(path),
        rules::MailKind::Soml => SmtpMail::Soml(path),
        rules::MailKind::Saml => SmtpMail::Saml(path),
    }
}

fn cmd_mail(s: &Vec<char>, p: usize, k: rules::MailKind) -> (r: Option<(SmtpCommand, usize)>)
    requires
        p <= s.len(),
    ensures
        same(r, rules::cmd_mail(s@, p as int, k)),
        r matches Some((c, e)) ==> p < e <= s.len(),
{
    proof {
        reveal_strlit("mail from:");
        reveal_strlit("send from:");
        reveal_strlit("soml from:");
        reveal_strlit("saml from:");
    }
    let lit = match k {
        rules::MailKind::Mail => "mail from:",
        rules::MailKind::Send => "send from:",
        rules::MailKind::Soml => "soml from:",
        rules::MailKind::Saml => "saml from:",
    };
    assert(lit@ == rules::mail_keyword(k));
    match keyword(s, p, lit) {
        Some(q) => match path_reverse(s, q) {
            Some((path, r)) => match nl(s, r) {
                Some(e) => Some((SmtpCommand::Mail(mail_of(&k, path)), e)),
                None => None,
            },
            None => None,
        },
        None => None,
    }
}

fn cmd_rcpt(s: &Vec<char>, p: usize) -> (r: Option<(SmtpCommand, usize)>)
    requires
        p <= s.len(),
    ensures
        same(r, rules::cmd_rcpt(s@, p as int)),
        r matches Some((c, e)) ==> p < e <= s.len(),
{
    match keyword(s, p, "rcpt to:") {
        Some(q) => match path_forward(s, q) {
            Some((path, r)) => match nl(s, r) {
                Some(e) => Some((SmtpCommand::Rcpt(path), e)),
                None => None,
            },
            None => None,
        },
        None => None,
    }
}

fn cmd_helo(s: &Vec<char>, p: usize, extended: bool) -> (r: Option<(SmtpCommand, usize)>)
    requires
        p <= s.len(),
    ensures
        same(r, rules::cmd_helo(s@, p as int, extended)),
        r matches Some((c, e)) ==> p < e <= s.len(),
{
    let lit = if extended { "ehlo" } else { "helo" };
    match keyword(s, p, lit) {
        Some(q) => {
            if !at(s, q, ' ') {
                return None;
            }
            match host_at(s, q + 1) {
                Some((h, r)) => match nl(s, r) {
                    Some(e) => Some((SmtpCommand::Helo(if extended { SmtpHelo::Ehlo(h) } else { SmtpHelo::Helo(h) }), e)),
                    None => None,
                },
                None => None,
            }
        },
        None => None,
    }
}

fn cmd_param(s: &Vec<char>, p: usize, expand: bool) -> (r: Option<(SmtpCommand, usize)>)
    requires
        p <= s.len(),
    ensures
        same(r, rules::cmd_param(s@, p as int, expand)),
        r matches Some((c, e)) ==> p < e <= s.len(),
{
    let lit = if expand { "expn" } else { "vrfy" };
    match keyword(s, p, lit) {
        Some(q) => match str_param(s, q) {
            Some((t, r)) => match nl(s, r) {
                Some(e) => Some((if expand { SmtpCommand::Expn(t) } else { SmtpCommand::Vrfy(t) }, e)),
                None => None,
            },
            None => None,
        },
        None => None,
    }
}

fn cmd_params(s: &Vec<char>, p: usize, help: bool) -> (r: Option<(SmtpCommand, usize)>)
    requires
        p <= s.len(),
    ensures
        same(r, rules::cmd_params(s@, p as int, help)),
        r matches Some((c, e)) ==> p < e <= s.len(),
{
    let lit = if help { "help" } else { "noop" };
    match keyword(s, p, lit) {
        Some(q) => {
            let (ts, r) = str_params(s, q);
            match nl(s, r) {
                Some(e) => Some((if help { SmtpCommand::Help(ts) } else { SmtpCommand::Noop(ts) }, e)),
                None => None,
            }
        },
        None => None,
    }
}

/// `command`
pub fn command_at(s: &Vec<char>, p: usize) -> (r: Option<(SmtpCommand, usize)>)
    requires
        p <= s.len(),
    ensures
        same(r, rules::command(s@, p as int)),
        r matches Some((c, e)) ==> p < e <= s.len(),
{
    if let Some(e) = word_end(s, p, "starttls") {
        return Some((SmtpCommand::StartTls, e));
    }
    if let Some(r) = cmd_helo(s, p, false) {
        return Some(r);
    }
    if let Some(r) = cmd_helo(s, p, true) {
        return Some(r);
    }
    if let Some(r) = cmd_mail(s, p, rules::MailKind::Mail) {
        return Some(r);
    }
    if let Some(r) = cmd_mail(s, p, rules::MailKind::Send) {
        return Some(r);
    }
    if let Some(r) = cmd_mail(s, p, rules::MailKind::Soml) {
        return Some(r);
    }
    if let Some(r) = cmd_mail(s, p, rules::MailKind::Saml) {
        return Some(r);
    }
    if let Some(r) = cmd_rcpt(s, p) {
        return Some(r);
    }
    if let Some(e) = word_end(s, p, "data") {
        return Some((SmtpCommand::Data, e));
    }
    if let Some(e) = word_end(s, p, "rset") {
        return Some((SmtpCommand::Rset, e));
    }
    if let Some(e) = word_end(s, p, "quit") {
        return Some((SmtpCommand::Quit, e));
    }
    if let Some(r) = cmd_params(s, p, false) {
        return Some(r);
    }
    if let Some(e) = word_end(s, p, "turn") {
        return Some((SmtpCommand::Turn, e));
    }
    if let Some(r) = cmd_param(s, p, false) {
        return Some(r);
    }
    if let Some(r) = cmd_param(s, p, true) {
        return Some(r);
    }
    cmd_params(s, p, true)
}

} // verus!

verus! {

/* Sessions */

/// No item but the last is an incomplete line.
pub open spec fn incomplete_only_last(v: Seq<SpecInput>) -> bool {
    forall|k: int| 0 <= k < v.len() - 1 ==> !(#[trigger] v[k] is Incomplete)
}

/// The input characters together with what ties them to the input bytes.
pub open spec fn decoded(s: Seq<char>, offs: Seq<usize>, bytes: Seq<u8>) -> bool {
    &&& offs.len() == s.len() + 1
    &&& forall|i: int| 0 <= i <= s.len() ==> #[trigger] offs[i] == byte_pos(s, i)
    &&& bytes == encode_utf8(s)
}

/// `NL / WS* NL`
fn blank_line(s: &Vec<char>, p: usize) -> (r: Option<usize>)
    requires
        p <= s.len(),
    ensures
        same_end(r, rules::blank_line(s@, p as int)),
        r matches Some(e) ==> p < e <= s.len(),
{
    match nl(s, p) {
        Some(e) => Some(e),
        None => nl(s, ws_end(s, p)),
    }
}

/// `"\n" / (!"\n" [_])+ "\n"`
fn invalid_line(s: &Vec<char>, p: usize) -> (r: Option<usize>)
    requires
        p <= s.len(),
    ensures
        same_end(r, rules::invalid_line(s@, p as int)),
        r matches Some(e) ==> p < e <= s.len(),
{
    if at(s, p, '\n') {
        Some(p + 1)
    } else {
        let e = line_end(s, p);
        if e > p && at(s, e, '\n') {
            Some(e + 1)
        } else {
            None
        }
    }
}

/// The input bytes of the characters from `p` to `e`.
fn bytes_between(s: &Vec<char>, offs: &Vec<usize>, bytes: &[u8], p: usize, e: usize) -> (r: Vec<u8>)
    requires
        decoded(s@, offs@, bytes@),
        p <= e <= s.len(),
    ensures
        r@ == rules::bytes_between(s@, p as int, e as int),
{
    proof {
        lemma_bytes_between(s@, p as int, e as int);
    }
    slice_to_vec(slice_subrange(bytes, offs[p], offs[e]))
}

/// `input`
fn input(s: &Vec<char>, offs: &Vec<usize>, bytes: &[u8], p: usize) -> (r: Option<(SmtpInput, usize)>)
    requires
        decoded(s@, offs@, bytes@),
        p <= s.len(),
    ensures
        same(r, rules::input(s@, p as int)),
        r matches Some((c, e)) ==> p < e <= s.len(),
        r matches Some((c, e)) ==> (c@ is Incomplete ==> e == s.len()),
        r is None ==> p == s.len(),
{
    let b = offs[p];
    if let Some(e) = blank_line(s, p) {
        proof {
            lemma_byte_pos_mono(s@, p as int, e as int);
        }
        return Some((SmtpInput::Blank(b, offs[e] - b, substring(s, p, e)), e));
    }
    if let Some((c, e)) = command_at(s, p) {
        proof {
            lemma_byte_pos_mono(s@, p as int, e as int);
        }
        return Some((SmtpInput::Command(b, offs[e] - b, c), e));
    }
    if let Some(e) = invalid_line(s, p) {
        proof {
            lemma_byte_pos_mono(s@, p as int, e as int);
        }
        return Some((SmtpInput::Invalid(b, offs[e] - b, bytes_between(s, offs, bytes, p, e)), e));
    }
    if p < s.len() {
        let e = s.len();
        proof {
            lemma_byte_pos_mono(s@, p as int, e as int);
        }
        Some((SmtpInput::Incomplete(b, offs[e] - b, bytes_between(s, offs, bytes, p, e)), e))
    } else {
        None
    }
}

/// `input*`
fn inputs(s: &Vec<char>, offs: &Vec<usize>, bytes: &[u8], p: usize) -> (r: (Vec<SmtpInput>, usize))
    requires
        decoded(s@, offs@, bytes@),
        p <= s.len(),
    ensures
        r.0.deep_view() == rules::inputs(s@, p as int).0,
        r.1 == rules::inputs(s@, p as int).1,
        r.1 == s.len(),
        incomplete_only_last(r.0.deep_view()),
{
    let mut acc: Vec<SmtpInput> = Vec::new();
    let mut i = p;
    assert(acc.deep_view() =~= Seq::<SpecInput>::empty());
    loop
        invariant
            decoded(s@, offs@, bytes@),
            p <= i <= s.len(),
            acc.deep_view() + rules::inputs(s@, i as int).0 == rules::inputs(s@, p as int).0,
            rules::inputs(s@, i as int).1 == rules::inputs(s@, p as int).1,
            incomplete_only_last(acc.deep_view()),
            acc.len() > 0 && acc.deep_view().last() is Incomplete ==> i == s.len(),
        ensures
            p <= i <= s.len(),
            acc.deep_view() == rules::inputs(s@, p as int).0,
            i == rules::inputs(s@, p as int).1,
            i == s.len(),
            incomplete_only_last(acc.deep_view()),
        decreases s.len() - i,
    {
        match input(s, offs, bytes, i) {
            Some((t, e)) => {
                let ghost before = acc.deep_view();
                let ghost tv = t@;
                acc.push(t);
                assert(acc.deep_view() =~= before.push(tv));
                assert(acc.deep_view() + rules::inputs(s@, e as int).0 =~= before + rules::inputs(s@, i as int).0);
                assert forall|k: int| 0 <= k < acc.deep_view().len() - 1 implies !(#[trigger] acc.deep_view()[k] is Incomplete) by {
                    if k < before.len() - 1 {
                        assert(acc.deep_view()[k] == before[k]);
                    } else {
                        assert(acc.deep_view()[k] == before.last());
                    }
                }
                i = e;
            },
            None => {
                assert(acc.deep_view() + Seq::<SpecInput>::empty() =~= acc.deep_view());
                break;
            },
        }
    }
    (acc, i)
}

/// `script = input+`
fn script_at(s: &Vec<char>, offs: &Vec<usize>, bytes: &[u8], p: usize) -> (r: Option<(Vec<SmtpInput>, usize)>)
    requires
        decoded(s@, offs@, bytes@),
        p <= s.len(),
    ensures
        match r {
            Some((v, e)) => rules::script(s@, p as int) == Some((v.deep_view(), e as int)),
            None => rules::script(s@, p as int) is None,
        },
        r is Some <==> p < s.len(),
        r matches Some((v, e)) ==> e == s.len() && incomplete_only_last(v.deep_view()),
{
    if input(s, offs, bytes, p).is_none() {
        return None;
    }
    Some(inputs(s, offs, bytes, p))
}

/// The input could not be read as the rule asks.
#[derive(Debug, Clone, Copy, PartialEq, Eq)]
pub struct ParseError;

pub type ParseResult<T> = Result<T, ParseError>;

fn decode(text: &str) -> (r: (Vec<char>, Vec<usize>, &[u8]))
    ensures
        r.0@ == text@,
        decoded(r.0@, r.1@, r.2@),
{
    let (s, offs) = decode_chars(text);
    let bytes = text.as_bytes();
    (s, offs, bytes)
}

/// Reads an SMTP session: leading white space, then one item after
/// another up to the end of the input.
pub fn session(text: &str) -> (r: ParseResult<Vec<SmtpInput>>)
    ensures
        match r {
            Ok(v) => rules::parse_session(text@) == Some(v.deep_view()),
            Err(_) => rules::parse_session(text@) is None,
        },
        r is Ok <==> rules::ws_end(text@, 0) < text@.len(),
        r matches Ok(v) ==> rules::tiles(v.deep_view(), byte_pos(text@, rules::ws_end(text@, 0)), text.spec_bytes().len() as int),
        r matches Ok(v) ==> incomplete_only_last(v.deep_view()),
{
    let (s, offs, bytes) = decode(text);
    let p = ws_end(&s, 0);
    proof {
        rules::lemma_inputs_tile(s@, p as int);
        assert(s@.take(s@.len() as int) =~= s@);
    }
    match script_at(&s, &offs, bytes, p) {
        Some((v, e)) => if e == s.len() { Ok(v) } else { Err(ParseError) },
        None => Err(ParseError),
    }
}

/// Reads an SMTP script: one item after another up to the end of the input.
pub fn script(text: &str) -> (r: ParseResult<Vec<SmtpInput>>)
    ensures
        match r {
            Ok(v) => rules::parse_script(text@) == Some(v.deep_view()),
            Err(_) => rules::parse_script(text@) is None,
        },
        r is Ok <==> text@.len() > 0,
        r matches Ok(v) ==> rules::tiles(v.deep_view(), 0, text.spec_bytes().len() as int),
        r matches Ok(v) ==> incomplete_only_last(v.deep_view()),
{
    let (s, offs, bytes) = decode(text);
    proof {
        rules::lemma_inputs_tile(s@, 0);
        assert(s@.take(s@.len() as int) =~= s@);
        assert(s@.take(0) =~= Seq::<char>::empty());
    }
    match script_at(&s, &offs, bytes, 0) {
        Some((v, e)) => if e == s.len() { Ok(v) } else { Err(ParseError) },
        None => Err(ParseError),
    }
}

/// Reads one SMTP command, which must be the whole input.
pub fn command(text: &str) -> (r: ParseResult<SmtpCommand>)
    ensures
        match r {
            Ok(c) => rules::parse_command(text@) == Some(c@),
            Err(_) => rules::parse_command(text@) is None,
        },
{
    let (s, _offs) = decode_chars(text);
    match command_at(&s, 0) {
        Some((c, e)) => if e == s.len() { Ok(c) } else { Err(ParseError) },
        None => Err(ParseError),
    }
}

/// Reads one host, which must be the whole input.
pub fn host(text: &str) -> (r: ParseResult<SmtpHost>)
    ensures
        match r {
            Ok(h) => rules::parse_host(text@) == Some(h@),
            Err(_) => rules::parse_host(text@) is None,
        },
{
    let (s, _offs) = decode_chars(text);
    match host_at(&s, 0) {
        Some((h, e)) => if e == s.len() { Ok(h) } else { Err(ParseError) },
        None => Err(ParseError),
    }
}

} // verus!
