//! The SMTP grammar, rule by rule, as a parsing-expression grammar over the
//! characters of the input. Each rule takes the input and a character
//! position and gives what it matched and where the match ends, or `None`.
//! Choices are ordered and repetitions are greedy, as in any PEG.
use vstd::prelude::*;
use vstd::utf8::*;
use crate::model::command::{SpecAddress, SpecCommand, SpecHelo, SpecHost, SpecInput, SpecMail, SpecPath};
use crate::grammar::text::byte_pos;

verus! {

/// `a`, or `b` where `a` failed.
pub open spec fn first<T>(a: Option<T>, b: Option<T>) -> Option<T> {
    if a is Some { a } else { b }
}

pub open spec fn at(s: Seq<char>, p: int, c: char) -> bool {
    0 <= p < s.len() && s[p] == c
}

pub open spec fn is_digit(c: char) -> bool {
    '0' <= c <= '9'
}

pub open spec fn is_alpha(c: char) -> bool {
    ('a' <= c <= 'z') || ('A' <= c <= 'Z')
}

pub open spec fn is_alnum(c: char) -> bool {
    is_digit(c) || is_alpha(c)
}

pub open spec fn digit_at(s: Seq<char>, p: int) -> bool {
    0 <= p < s.len() && is_digit(s[p])
}

pub open spec fn in_range(s: Seq<char>, p: int, lo: char, hi: char) -> bool {
    0 <= p < s.len() && lo <= s[p] <= hi
}

/// A character compared without regard to ASCII case.
pub open spec fn ascii_fold(c: char) -> u32 {
    if 'A' <= c <= 'Z' { (c as u32 + 32) as u32 } else { c as u32 }
}

/// `i(lit)`: the keyword `lit`, in any ASCII case.
pub open spec fn keyword(s: Seq<char>, p: int, lit: Seq<char>) -> Option<int> {
    if 0 <= p && p + lit.len() <= s.len()
        && forall|k: int| 0 <= k < lit.len() ==> #[trigger] ascii_fold(s[p + k]) == ascii_fold(lit[k]) {
        Some(p + lit.len())
    } else {
        None
    }
}

/// `NL = "\r\n" / "\n"`
pub open spec fn nl(s: Seq<char>, p: int) -> Option<int> {
    if at(s, p, '\r') && at(s, p + 1, '\n') {
        Some(p + 2)
    } else if at(s, p, '\n') {
        Some(p + 1)
    } else {
        None
    }
}

pub open spec fn is_ws(c: char) -> bool {
    c == ' ' || c == '\t'
}

/// The end of `WS*`.
pub open spec fn ws_end(s: Seq<char>, p: int) -> int
    decreases s.len() - p,
{
    if 0 <= p < s.len() && is_ws(s[p]) { ws_end(s, p + 1) } else { p }
}

/// The end of `[0-9]*`.
pub open spec fn digits_end(s: Seq<char>, p: int) -> int
    decreases s.len() - p,
{
    if 0 <= p < s.len() && is_digit(s[p]) { digits_end(s, p + 1) } else { p }
}

/// The end of `[-a-zA-Z0-9]*`.
pub open spec fn label_chars_end(s: Seq<char>, p: int) -> int
    decreases s.len() - p,
{
    if 0 <= p < s.len() && is_label_char(s[p]) { label_chars_end(s, p + 1) } else { p }
}

/// The end of `[0-9a-fA-F:.]*`.
pub open spec fn ipv6_chars_end(s: Seq<char>, p: int) -> int
    decreases s.len() - p,
{
    if 0 <= p < s.len() && is_ipv6_char(s[p]) { ipv6_chars_end(s, p + 1) } else { p }
}

/// The end of `(!"\n" [_])*`.
pub open spec fn line_end(s: Seq<char>, p: int) -> int
    decreases s.len() - p,
{
    if 0 <= p < s.len() && s[p] != '\n' { line_end(s, p + 1) } else { p }
}

/* Strings */

/// The characters that stand for themselves in a plain string.
pub open spec fn is_regular(c: char) -> bool {
    ||| c == '-' || c == '!' || c == '#' || c == '$' || c == '%' || c == '&'
    ||| c == '\'' || c == '*' || c == '+' || c == '`' || c == '/'
    ||| is_alnum(c)
    ||| c == '=' || c == '?' || c == '~' || c == '^' || c == '_' || c == '{' || c == '}' || c == '|'
}

/// `char_special = "\\" [_]`, giving the escaped character.
pub open spec fn char_special(s: Seq<char>, p: int) -> Option<(char, int)> {
    if at(s, p, '\\') && p + 1 < s.len() { Some((s[p + 1], p + 2)) } else { None }
}

/// `char = char_regular / char_special`
pub open spec fn char_plain(s: Seq<char>, p: int) -> Option<(char, int)> {
    if 0 <= p < s.len() && is_regular(s[p]) { Some((s[p], p + 1)) } else { char_special(s, p) }
}

/// `qchar = qchar_regular / char_special`
pub open spec fn char_quoted(s: Seq<char>, p: int) -> Option<(char, int)> {
    if 0 <= p < s.len() && !(s[p] == '"' || s[p] == '\\' || s[p] == '\r' || s[p] == '\n') {
        Some((s[p], p + 1))
    } else {
        char_special(s, p)
    }
}

/// `char*`
pub open spec fn plain_chars(s: Seq<char>, p: int) -> (Seq<char>, int)
    decreases s.len() - p,
{
    match char_plain(s, p) {
        Some((c, e)) => if p < e <= s.len() {
            let r = plain_chars(s, e);
            (seq![c] + r.0, r.1)
        } else {
            (Seq::empty(), p)
        },
        None => (Seq::empty(), p),
    }
}

/// `qchar*`
pub open spec fn quoted_chars(s: Seq<char>, p: int) -> (Seq<char>, int)
    decreases s.len() - p,
{
    match char_quoted(s, p) {
        Some((c, e)) => if p < e <= s.len() {
            let r = quoted_chars(s, e);
            (seq![c] + r.0, r.1)
        } else {
            (Seq::empty(), p)
        },
        None => (Seq::empty(), p),
    }
}

/// `str = str_quoted / str_plain`; it always matches, possibly nothing.
pub open spec fn string(s: Seq<char>, p: int) -> (Seq<char>, int) {
    if at(s, p, '"') && at(s, quoted_chars(s, p + 1).1, '"') {
        (quoted_chars(s, p + 1).0, quoted_chars(s, p + 1).1 + 1)
    } else {
        plain_chars(s, p)
    }
}

/* Hosts */

pub open spec fn is_label_char(c: char) -> bool {
    is_alnum(c) || c == '-'
}

/// `label = [a-zA-Z0-9] [-a-zA-Z0-9]*`
pub open spec fn label(s: Seq<char>, p: int) -> Option<int> {
    if 0 <= p < s.len() && is_alnum(s[p]) {
        Some(label_chars_end(s, p + 1))
    } else {
        None
    }
}

/// `("." label)*`
pub open spec fn domain_rest(s: Seq<char>, p: int) -> int
    decreases s.len() - p,
{
    if at(s, p, '.') {
        match label(s, p + 1) {
            Some(e) => if p < e <= s.len() { domain_rest(s, e) } else { p },
            None => p,
        }
    } else {
        p
    }
}

/// `host_domain = $(label ("." label)*)`
pub open spec fn host_domain(s: Seq<char>, p: int) -> Option<(SpecHost, int)> {
    match label(s, p) {
        Some(e) => Some((SpecHost::Domain(s.subrange(p, domain_rest(s, e))), domain_rest(s, e))),
        None => None,
    }
}

/// The value of a string of decimal digits.
pub open spec fn decimal_value(d: Seq<char>) -> nat
    decreases d.len(),
{
    if d.len() == 0 {
        0
    } else {
        decimal_value(d.drop_last()) * 10 + ((d.last() as u32 - '0' as u32) as nat)
    }
}

/// `host_numeric = "#" $([0-9]+)`; the digits are read as a 32-bit
/// address, the host is invalid where they do not fit.
pub open spec fn host_numeric(s: Seq<char>, p: int) -> Option<(SpecHost, int)> {
    if at(s, p, '#') && digits_end(s, p + 1) > p + 1 {
        let e = digits_end(s, p + 1);
        let d = s.subrange(p + 1, e);
        if decimal_value(d) <= u32::MAX {
            Some((SpecHost::Ipv4(decimal_value(d) as u32), e))
        } else {
            Some((SpecHost::Invalid { label: "numeric"@, literal: d }, e))
        }
    } else {
        None
    }
}

/// `ipv4part = "25" [0-5] / "2" [0-4] [0-9] / [0-1] [0-9] [0-9]? / [0-9] [0-9]?`
pub open spec fn ipv4_part(s: Seq<char>, p: int) -> Option<int> {
    if at(s, p, '2') && at(s, p + 1, '5') && in_range(s, p + 2, '0', '5') {
        Some(p + 3)
    } else if at(s, p, '2') && in_range(s, p + 1, '0', '4') && digit_at(s, p + 2) {
        Some(p + 3)
    } else if in_range(s, p, '0', '1') && digit_at(s, p + 1) {
        if digit_at(s, p + 2) { Some(p + 3) } else { Some(p + 2) }
    } else if digit_at(s, p) {
        if digit_at(s, p + 1) { Some(p + 2) } else { Some(p + 1) }
    } else {
        None
    }
}

/// `ipv4addr = part "." part "." part "." part`, giving where each of the
/// four parts ends; each after the first starts just past a dot.
pub open spec fn ipv4_addr(s: Seq<char>, p: int) -> Option<(int, int, int, int)> {
    match ipv4_part(s, p) {
        Some(e1) => if !at(s, e1, '.') { None } else {
            match ipv4_part(s, e1 + 1) {
                Some(e2) => if !at(s, e2, '.') { None } else {
                    match ipv4_part(s, e2 + 1) {
                        Some(e3) => if !at(s, e3, '.') { None } else {
                            match ipv4_part(s, e3 + 1) {
                                Some(e4) => Some((e1, e2, e3, e4)),
                                None => None,
                            }
                        },
                        None => None,
                    }
                },
                None => None,
            }
        },
        None => None,
    }
}

/// Octal notation, a leading zero before further digits, is refused.
pub open spec fn octet_ok(s: Seq<char>, a: int, b: int) -> bool {
    b - a == 1 || s[a] != '0'
}

pub open spec fn octet_value(s: Seq<char>, a: int, b: int) -> nat {
    decimal_value(s.subrange(a, b))
}

/// The address of four octets, in big-endian order.
pub open spec fn ipv4_value(s: Seq<char>, p: int, o: (int, int, int, int)) -> u32 {
    (octet_value(s, p, o.0) * 0x100_0000 + octet_value(s, o.0 + 1, o.1) * 0x1_0000
        + octet_value(s, o.1 + 1, o.2) * 0x100 + octet_value(s, o.2 + 1, o.3)) as u32
}

/// `host_ipv4 = "[" $(ipv4addr) "]"`; an address with an octet in octal
/// notation is an invalid host.
pub open spec fn host_ipv4(s: Seq<char>, p: int) -> Option<(SpecHost, int)> {
    if !at(s, p, '[') {
        None
    } else {
        match ipv4_addr(s, p + 1) {
            Some(o) => if !at(s, o.3, ']') {
                None
            } else if octet_ok(s, p + 1, o.0) && octet_ok(s, o.0 + 1, o.1) && octet_ok(s, o.1 + 1, o.2)
                && octet_ok(s, o.2 + 1, o.3) {
                Some((SpecHost::Ipv4(ipv4_value(s, p + 1, o)), o.3 + 1))
            } else {
                Some((SpecHost::Invalid { label: "ipv4"@, literal: s.subrange(p + 1, o.3) }, o.3 + 1))
            },
            None => None,
        }
    }
}

pub open spec fn is_ipv6_char(c: char) -> bool {
    is_digit(c) || ('a' <= c <= 'f') || ('A' <= c <= 'F') || c == ':' || c == '.'
}

/// The address that the standard library reads from the text of an IPv6
/// address, where it reads one.
pub uninterp spec fn ipv6_value(text: Seq<char>) -> Option<u128>;

/// `host_ipv6 = $(i("IPv6")) ":" $([0-9a-fA-F:.]+)`
pub open spec fn host_ipv6(s: Seq<char>, p: int) -> Option<(SpecHost, int)> {
    if keyword(s, p, "IPv6"@) is Some && at(s, p + 4, ':')
        && ipv6_chars_end(s, p + 5) > p + 5 {
        let e = ipv6_chars_end(s, p + 5);
        let text = s.subrange(p + 5, e);
        match ipv6_value(text) {
            Some(v) => Some((SpecHost::Ipv6(v), e)),
            None => Some((SpecHost::Invalid { label: s.subrange(p, p + 4), literal: text }, e)),
        }
    } else {
        None
    }
}

/// `host_other = str ":" str`
pub open spec fn host_other(s: Seq<char>, p: int) -> Option<(SpecHost, int)> {
    if at(s, string(s, p).1, ':') {
        let l = string(s, p);
        let r = string(s, l.1 + 1);
        Some((SpecHost::Other { label: l.0, literal: r.0 }, r.1))
    } else {
        None
    }
}

/// `host = host_numeric / host_ipv4 / host_ipv6 / host_other / host_domain`
pub open spec fn host(s: Seq<char>, p: int) -> Option<(SpecHost, int)> {
    first(host_numeric(s, p), first(host_ipv4(s, p), first(host_ipv6(s, p),
        first(host_other(s, p), host_domain(s, p)))))
}

/* Paths */

/// `address = str "@" host`
pub open spec fn address(s: Seq<char>, p: int) -> Option<(SpecAddress, int)> {
    let n = string(s, p);
    if at(s, n.1, '@') {
        match host(s, n.1 + 1) {
            Some((h, e)) => Some((SpecAddress::Mailbox(n.0, h), e)),
            None => None,
        }
    } else {
        None
    }
}

/// `athost = "@" host (&",@" "," / ":")`
pub open spec fn at_host(s: Seq<char>, p: int) -> Option<(SpecHost, int)> {
    if at(s, p, '@') {
        match host(s, p + 1) {
            Some((h, e)) => if (at(s, e, ',') && at(s, e + 1, '@')) || at(s, e, ':') {
                Some((h, e + 1))
            } else {
                None
            },
            None => None,
        }
    } else {
        None
    }
}

/// `athost*`
pub open spec fn at_hosts(s: Seq<char>, p: int) -> (Seq<SpecHost>, int)
    decreases s.len() - p,
{
    match at_host(s, p) {
        Some((h, e)) => if p < e <= s.len() {
            let r = at_hosts(s, e);
            (seq![h] + r.0, r.1)
        } else {
            (Seq::empty(), p)
        },
        None => (Seq::empty(), p),
    }
}

/// `path_relay = "<" athost+ address ">"`
pub open spec fn path_relay(s: Seq<char>, p: int) -> Option<(SpecPath, int)> {
    if at(s, p, '<') && at_hosts(s, p + 1).0.len() > 0 {
        let hs = at_hosts(s, p + 1);
        match address(s, hs.1) {
            Some((a, e)) => if at(s, e, '>') { Some((SpecPath::Relay(hs.0, a), e + 1)) } else { None },
            None => None,
        }
    } else {
        None
    }
}

/// `path_direct = "<" address ">"`
pub open spec fn path_direct(s: Seq<char>, p: int) -> Option<(SpecPath, int)> {
    if at(s, p, '<') {
        match address(s, p + 1) {
            Some((a, e)) => if at(s, e, '>') { Some((SpecPath::Direct(a), e + 1)) } else { None },
            None => None,
        }
    } else {
        None
    }
}

/// `path_postmaster = i("<postmaster>")`
pub open spec fn path_postmaster(s: Seq<char>, p: int) -> Option<(SpecPath, int)> {
    match keyword(s, p, "<postmaster>"@) {
        Some(e) => Some((SpecPath::Postmaster, e)),
        None => None,
    }
}

/// `path_null = "<>"`
pub open spec fn path_null(s: Seq<char>, p: int) -> Option<(SpecPath, int)> {
    if at(s, p, '<') && at(s, p + 1, '>') { Some((SpecPath::Null, p + 2)) } else { None }
}

/// `path_forward = path_relay / path_direct / path_postmaster`
pub open spec fn path_forward(s: Seq<char>, p: int) -> Option<(SpecPath, int)> {
    first(path_relay(s, p), first(path_direct(s, p), path_postmaster(s, p)))
}

/// `path_reverse = path_relay / path_direct / path_null`
pub open spec fn path_reverse(s: Seq<char>, p: int) -> Option<(SpecPath, int)> {
    first(path_relay(s, p), first(path_direct(s, p), path_null(s, p)))
}

/* Commands */

/// `strparam = SP str`
pub open spec fn str_param(s: Seq<char>, p: int) -> Option<(Seq<char>, int)> {
    if at(s, p, ' ') { Some(string(s, p + 1)) } else { None }
}

/// `strparam*`
pub open spec fn str_params(s: Seq<char>, p: int) -> (Seq<Seq<char>>, int)
    decreases s.len() - p,
{
    match str_param(s, p) {
        Some((t, e)) => if p < e <= s.len() {
            let r = str_params(s, e);
            (seq![t] + r.0, r.1)
        } else {
            (Seq::empty(), p)
        },
        None => (Seq::empty(), p),
    }
}

/// `i(lit) NL`, giving where it ends.
pub open spec fn word_end(s: Seq<char>, p: int, lit: Seq<char>) -> Option<int> {
    match keyword(s, p, lit) {
        Some(q) => nl(s, q),
        None => None,
    }
}

/// `i(lit) NL`, giving the command `c`.
pub open spec fn cmd_word(s: Seq<char>, p: int, lit: Seq<char>, c: SpecCommand) -> Option<(SpecCommand, int)> {
    match word_end(s, p, lit) {
        Some(e) => Some((c, e)),
        None => None,
    }
}

/// The four ways to start a mail transaction.
pub enum MailKind {
    Mail,
    Send,
    Soml,
    Saml,
}

pub open spec fn mail_keyword(k: MailKind) -> Seq<char> {
    match k {
        MailKind::Mail => "mail from:"@,
        MailKind::Send => "send from:"@,
        MailKind::Soml => "soml from:"@,
        MailKind::Saml => "saml from:"@,
    }
}

pub open spec fn mail_of(k: MailKind, path: SpecPath) -> SpecMail {
    match k {
        MailKind::Mail => SpecMail::Mail(path),
        MailKind::Send => SpecMail::Send(path),
        MailKind::Soml => SpecMail::Soml(path),
        MailKind::Saml => SpecMail::Saml(path),
    }
}

/// `i("mail from:") path_reverse NL` and its three siblings.
pub open spec fn cmd_mail(s: Seq<char>, p: int, k: MailKind) -> Option<(SpecCommand, int)> {
    match keyword(s, p, mail_keyword(k)) {
        Some(q) => match path_reverse(s, q) {
            Some((path, r)) => match nl(s, r) {
                Some(e) => Some((SpecCommand::Mail(mail_of(k, path)), e)),
                None => None,
            },
            None => None,
        },
        None => None,
    }
}

/// `i("rcpt to:") path_forward NL`
pub open spec fn cmd_rcpt(s: Seq<char>, p: int) -> Option<(SpecCommand, int)> {
    match keyword(s, p, "rcpt to:"@) {
        Some(q) => match path_forward(s, q) {
            Some((path, r)) => match nl(s, r) {
                Some(e) => Some((SpecCommand::Rcpt(path), e)),
                None => None,
            },
            None => None,
        },
        None => None,
    }
}

/// `i("helo") SP host NL` or the same with `ehlo`.
pub open spec fn cmd_helo(s: Seq<char>, p: int, extended: bool) -> Option<(SpecCommand, int)> {
    match keyword(s, p, if extended { "ehlo"@ } else { "helo"@ }) {
        Some(q) => if !at(s, q, ' ') { None } else {
            match host(s, q + 1) {
                Some((h, r)) => match nl(s, r) {
                    Some(e) => Some((SpecCommand::Helo(if extended { SpecHelo::Ehlo(h) } else { SpecHelo::Helo(h) }), e)),
                    None => None,
                },
                None => None,
            }
        },
        None => None,
    }
}

/// `i("vrfy") strparam NL` or the same with `expn`.
pub open spec fn cmd_param(s: Seq<char>, p: int, expand: bool) -> Option<(SpecCommand, int)> {
    match keyword(s, p, if expand { "expn"@ } else { "vrfy"@ }) {
        Some(q) => match str_param(s, q) {
            Some((t, r)) => match nl(s, r) {
                Some(e) => Some((if expand { SpecCommand::Expn(t) } else { SpecCommand::Vrfy(t) }, e)),
                None => None,
            },
            None => None,
        },
        None => None,
    }
}

/// `i("noop") strparam* NL` or the same with `help`.
pub open spec fn cmd_params(s: Seq<char>, p: int, help: bool) -> Option<(SpecCommand, int)> {
    match keyword(s, p, if help { "help"@ } else { "noop"@ }) {
        Some(q) => match nl(s, str_params(s, q).1) {
            Some(e) => Some((if help { SpecCommand::Help(str_params(s, q).0) } else { SpecCommand::Noop(str_params(s, q).0) }, e)),
            None => None,
        },
        None => None,
    }
}

/// `command`: the alternatives in their order.
pub open spec fn command(s: Seq<char>, p: int) -> Option<(SpecCommand, int)> {
    first(cmd_word(s, p, "starttls"@, SpecCommand::StartTls),
    first(cmd_helo(s, p, false),
    first(cmd_helo(s, p, true),
    first(cmd_mail(s, p, MailKind::Mail),
    first(cmd_mail(s, p, MailKind::Send),
    first(cmd_mail(s, p, MailKind::Soml),
    first(cmd_mail(s, p, MailKind::Saml),
    first(cmd_rcpt(s, p),
    first(cmd_word(s, p, "data"@, SpecCommand::Data),
    first(cmd_word(s, p, "rset"@, SpecCommand::Rset),
    first(cmd_word(s, p, "quit"@, SpecCommand::Quit),
    first(cmd_params(s, p, false),
    first(cmd_word(s, p, "turn"@, SpecCommand::Turn),
    first(cmd_param(s, p, false),
    first(cmd_param(s, p, true),
    cmd_params(s, p, true))))))))))))))))
}

/* Sessions */

/// `NL / WS* NL`
pub open spec fn blank_line(s: Seq<char>, p: int) -> Option<int> {
    first(nl(s, p), nl(s, ws_end(s, p)))
}

/// `"\n" / (!"\n" [_])+ "\n"`
pub open spec fn invalid_line(s: Seq<char>, p: int) -> Option<int> {
    if at(s, p, '\n') {
        Some(p + 1)
    } else if line_end(s, p) > p && at(s, line_end(s, p), '\n') {
        Some(line_end(s, p) + 1)
    } else {
        None
    }
}

/// The UTF-8 bytes of the characters from `p` to `e`.
pub open spec fn bytes_between(s: Seq<char>, p: int, e: int) -> Seq<u8> {
    encode_utf8(s.subrange(p, e))
}

/// `input = inp_none / inp_command / inp_invalid / inp_incomplete`, the
/// item carrying the byte position and byte length of what it matched.
pub open spec fn input(s: Seq<char>, p: int) -> Option<(SpecInput, int)> {
    let b = byte_pos(s, p);
    if blank_line(s, p) is Some {
        let e = blank_line(s, p)->0;
        Some((SpecInput::Blank(b, byte_pos(s, e) - b, s.subrange(p, e)), e))
    } else if command(s, p) is Some {
        let (c, e) = command(s, p)->0;
        Some((SpecInput::Command(b, byte_pos(s, e) - b, c), e))
    } else if invalid_line(s, p) is Some {
        let e = invalid_line(s, p)->0;
        Some((SpecInput::Invalid(b, byte_pos(s, e) - b, bytes_between(s, p, e)), e))
    } else if 0 <= p < s.len() {
        Some((SpecInput::Incomplete(b, byte_pos(s, s.len() as int) - b, bytes_between(s, p, s.len() as int)), s.len() as int))
    } else {
        None
    }
}

/// `input*`
pub open spec fn inputs(s: Seq<char>, p: int) -> (Seq<SpecInput>, int)
    decreases s.len() - p,
{
    match input(s, p) {
        Some((i, e)) => if p < e <= s.len() {
            let r = inputs(s, e);
            (seq![i] + r.0, r.1)
        } else {
            (Seq::empty(), p)
        },
        None => (Seq::empty(), p),
    }
}

/// `script = input+`
pub open spec fn script(s: Seq<char>, p: int) -> Option<(Seq<SpecInput>, int)> {
    if input(s, p) is Some { Some(inputs(s, p)) } else { None }
}

/// A rule applied to the whole input: it must match all of it.
pub open spec fn whole<T>(r: Option<(T, int)>, s: Seq<char>) -> Option<T> {
    match r {
        Some((v, e)) => if e == s.len() { Some(v) } else { None },
        None => None,
    }
}

/// `session = WS* script`, over the whole input.
pub open spec fn parse_session(s: Seq<char>) -> Option<Seq<SpecInput>> {
    whole(script(s, ws_end(s, 0)), s)
}

/// `script`, over the whole input.
pub open spec fn parse_script(s: Seq<char>) -> Option<Seq<SpecInput>> {
    whole(script(s, 0), s)
}

/// `command`, over the whole input.
pub open spec fn parse_command(s: Seq<char>) -> Option<SpecCommand> {
    whole(command(s, 0), s)
}

/// `host`, over the whole input.
pub open spec fn parse_host(s: Seq<char>) -> Option<SpecHost> {
    whole(host(s, 0), s)
}

} // verus!

verus! {

/// The byte position that an item carries.
pub open spec fn input_pos(i: SpecInput) -> int {
    match i {
        SpecInput::Command(b, _, _) => b,
        SpecInput::Invalid(b, _, _) => b,
        SpecInput::Incomplete(b, _, _) => b,
        SpecInput::Blank(b, _, _) => b,
        SpecInput::Connect(_) => 0,
        SpecInput::Disconnect => 0,
        SpecInput::StreamStart(b) => b,
        SpecInput::StreamEnd(b) => b,
        SpecInput::StreamData(b, _, _) => b,
    }
}

/// The items cover the bytes from `start` to `end` one after the other,
/// without gap or overlap, and none of them is empty.
pub open spec fn tiles(v: Seq<SpecInput>, start: int, end: int) -> bool
    decreases v.len(),
{
    if v.len() == 0 {
        start == end
    } else {
        &&& input_pos(v[0]) == start
        &&& crate::model::command::input_len(v[0]) > 0
        &&& tiles(v.drop_first(), start + crate::model::command::input_len(v[0]), end)
    }
}

/// Each character takes at least one byte.
pub proof fn lemma_byte_pos_strict(s: Seq<char>, p: int, e: int)
    requires
        0 <= p < e <= s.len(),
    ensures
        byte_pos(s, p) < byte_pos(s, e),
{
    crate::grammar::text::lemma_byte_pos_step(s, p);
    char_is_scalar(s[p]);
    crate::grammar::text::lemma_byte_pos_mono(s, p + 1, e);
}

/// The items that `input*` reads cover what it reads.
pub proof fn lemma_inputs_tile(s: Seq<char>, p: int)
    requires
        0 <= p <= s.len(),
    ensures
        tiles(inputs(s, p).0, byte_pos(s, p), byte_pos(s, inputs(s, p).1)),
    decreases s.len() - p,
{
    match input(s, p) {
        Some((i, e)) => if p < e <= s.len() {
            lemma_inputs_tile(s, e);
            lemma_byte_pos_strict(s, p, e);
            let r = inputs(s, p);
            assert(r.0.drop_first() =~= inputs(s, e).0);
        } else {
        },
        None => {
        },
    }
}

/// The kinds of item the grammar reads.
pub open spec fn grammar_item(i: SpecInput) -> bool {
    i is Blank || i is Command || i is Invalid || i is Incomplete
}

/// `input*` reads only blank lines, commands, invalid lines and an
/// incomplete line.
pub proof fn lemma_inputs_kinds(s: Seq<char>, p: int)
    ensures
        forall|k: int| 0 <= k < inputs(s, p).0.len() ==> grammar_item(#[trigger] inputs(s, p).0[k]),
    decreases s.len() - p,
{
    match input(s, p) {
        Some((i, e)) => if p < e <= s.len() {
            lemma_inputs_kinds(s, e);
            let r = inputs(s, p);
            assert forall|k: int| 0 <= k < r.0.len() implies grammar_item(#[trigger] r.0[k]) by {
                if k > 0 {
                    assert(r.0[k] == inputs(s, e).0[k - 1]);
                }
            }
        },
        None => {},
    }
}

/// `c` is the letter given in its lower and upper case forms.
pub open spec fn either_case(c: char, lower: char, upper: char) -> bool {
    c == lower || c == upper
}

/// The four characters from `p` spell NOOP, in any ASCII case.
pub open spec fn spells_noop(s: Seq<char>, p: int) -> bool {
    &&& 0 <= p && p + 4 <= s.len()
    &&& either_case(s[p], 'n', 'N')
    &&& either_case(s[p + 1], 'o', 'O')
    &&& either_case(s[p + 2], 'o', 'O')
    &&& either_case(s[p + 3], 'p', 'P')
}

/// The four characters from `p` spell HELP, in any ASCII case.
pub open spec fn spells_help(s: Seq<char>, p: int) -> bool {
    &&& 0 <= p && p + 4 <= s.len()
    &&& either_case(s[p], 'h', 'H')
    &&& either_case(s[p + 1], 'e', 'E')
    &&& either_case(s[p + 2], 'l', 'L')
    &&& either_case(s[p + 3], 'p', 'P')
}

/// Two keywords that differ, without regard to case, at the `k`-th
/// character never both match at one place.
proof fn lemma_keyword_excludes(s: Seq<char>, p: int, a: Seq<char>, b: Seq<char>, k: int)
    requires
        0 <= k < a.len(),
        k < b.len(),
        ascii_fold(a[k]) != ascii_fold(b[k]),
        keyword(s, p, a) is Some,
    ensures
        keyword(s, p, b) is None,
{
    assert(ascii_fold(s[p + k]) == ascii_fold(a[k]));
}

/// A letter that folds to a lower case ASCII letter is that letter or its
/// upper case form.
proof fn lemma_fold_letter(c: char, lower: char, upper: char)
    requires
        'a' <= lower <= 'z',
        upper as u32 + 32 == lower as u32,
        ascii_fold(c) == ascii_fold(lower),
    ensures
        either_case(c, lower, upper),
{
}

/// NOOP and HELP lines: the command that a line gives is decided by its
/// keyword. A NOOP command is read only from a line spelling NOOP, a HELP
/// command only from one spelling HELP; a line spelling NOOP gives no
/// other command, nor one spelling HELP; and the bare line with CR LF
/// gives the command with no parameters.
pub proof fn lemma_noop_help_by_keyword(s: Seq<char>, p: int)
    ensures
        command(s, p) matches Some((SpecCommand::Noop(_), _)) ==> spells_noop(s, p),
        command(s, p) matches Some((SpecCommand::Help(_), _)) ==> spells_help(s, p),
        spells_noop(s, p) && command(s, p) is Some ==> command(s, p).unwrap().0 is Noop,
        spells_help(s, p) && command(s, p) is Some ==> command(s, p).unwrap().0 is Help,
        spells_noop(s, p) && at(s, p + 4, '\r') && at(s, p + 5, '\n')
            ==> command(s, p) == Some((SpecCommand::Noop(Seq::empty()), p + 6)),
        spells_help(s, p) && at(s, p + 4, '\r') && at(s, p + 5, '\n')
            ==> command(s, p) == Some((SpecCommand::Help(Seq::empty()), p + 6)),
{
    reveal_strlit("starttls");
    reveal_strlit("helo");
    reveal_strlit("ehlo");
    reveal_strlit("mail from:");
    reveal_strlit("send from:");
    reveal_strlit("soml from:");
    reveal_strlit("saml from:");
    reveal_strlit("rcpt to:");
    reveal_strlit("data");
    reveal_strlit("rset");
    reveal_strlit("quit");
    reveal_strlit("noop");
    reveal_strlit("turn");
    reveal_strlit("vrfy");
    reveal_strlit("expn");
    reveal_strlit("help");
    let noop = "noop"@;
    let help = "help"@;
    // A keyword that matches gives its letters.
    if keyword(s, p, noop) is Some {
        assert(ascii_fold(s[p + 0]) == ascii_fold(noop[0]));
        assert(ascii_fold(s[p + 1]) == ascii_fold(noop[1]));
        assert(ascii_fold(s[p + 2]) == ascii_fold(noop[2]));
        assert(ascii_fold(s[p + 3]) == ascii_fold(noop[3]));
        lemma_fold_letter(s[p], 'n', 'N');
        lemma_fold_letter(s[p + 1], 'o', 'O');
        lemma_fold_letter(s[p + 2], 'o', 'O');
        lemma_fold_letter(s[p + 3], 'p', 'P');
    }
    if keyword(s, p, help) is Some {
        assert(ascii_fold(s[p + 0]) == ascii_fold(help[0]));
        assert(ascii_fold(s[p + 1]) == ascii_fold(help[1]));
        assert(ascii_fold(s[p + 2]) == ascii_fold(help[2]));
        assert(ascii_fold(s[p + 3]) == ascii_fold(help[3]));
        lemma_fold_letter(s[p], 'h', 'H');
        lemma_fold_letter(s[p + 1], 'e', 'E');
        lemma_fold_letter(s[p + 2], 'l', 'L');
        lemma_fold_letter(s[p + 3], 'p', 'P');
    }
    // Letters spelling a keyword make it match.
    if spells_noop(s, p) {
        assert forall|k: int| 0 <= k < noop.len() implies #[trigger] ascii_fold(s[p + k]) == ascii_fold(noop[k]) by {
            if k == 0 {} else if k == 1 {} else if k == 2 {} else {}
        }
        assert(keyword(s, p, noop) is Some);
        lemma_keyword_excludes(s, p, noop, "starttls"@, 0);
        lemma_keyword_excludes(s, p, noop, "helo"@, 0);
        lemma_keyword_excludes(s, p, noop, "ehlo"@, 0);
        lemma_keyword_excludes(s, p, noop, "mail from:"@, 0);
        lemma_keyword_excludes(s, p, noop, "send from:"@, 0);
        lemma_keyword_excludes(s, p, noop, "soml from:"@, 0);
        lemma_keyword_excludes(s, p, noop, "saml from:"@, 0);
        lemma_keyword_excludes(s, p, noop, "rcpt to:"@, 0);
        lemma_keyword_excludes(s, p, noop, "data"@, 0);
        lemma_keyword_excludes(s, p, noop, "rset"@, 0);
        lemma_keyword_excludes(s, p, noop, "quit"@, 0);
        lemma_keyword_excludes(s, p, noop, "turn"@, 0);
        lemma_keyword_excludes(s, p, noop, "vrfy"@, 0);
        lemma_keyword_excludes(s, p, noop, "expn"@, 0);
        lemma_keyword_excludes(s, p, noop, "help"@, 0);
        assert(command(s, p) == cmd_params(s, p, false));
        if at(s, p + 4, '\r') && at(s, p + 5, '\n') {
            assert(str_param(s, p + 4) is None);
            assert(str_params(s, p + 4) == (Seq::<Seq<char>>::empty(), p + 4));
        }
    }
    if spells_help(s, p) {
        assert forall|k: int| 0 <= k < help.len() implies #[trigger] ascii_fold(s[p + k]) == ascii_fold(help[k]) by {
            if k == 0 {} else if k == 1 {} else if k == 2 {} else {}
        }
        assert(keyword(s, p, help) is Some);
        lemma_keyword_excludes(s, p, help, "starttls"@, 0);
        lemma_keyword_excludes(s, p, help, "helo"@, 3);
        lemma_keyword_excludes(s, p, help, "ehlo"@, 0);
        lemma_keyword_excludes(s, p, help, "mail from:"@, 0);
        lemma_keyword_excludes(s, p, help, "send from:"@, 0);
        lemma_keyword_excludes(s, p, help, "soml from:"@, 0);
        lemma_keyword_excludes(s, p, help, "saml from:"@, 0);
        lemma_keyword_excludes(s, p, help, "rcpt to:"@, 0);
        lemma_keyword_excludes(s, p, help, "data"@, 0);
        lemma_keyword_excludes(s, p, help, "rset"@, 0);
        lemma_keyword_excludes(s, p, help, "quit"@, 0);
        lemma_keyword_excludes(s, p, help, "noop"@, 0);
        lemma_keyword_excludes(s, p, help, "turn"@, 0);
        lemma_keyword_excludes(s, p, help, "vrfy"@, 0);
        lemma_keyword_excludes(s, p, help, "expn"@, 0);
        assert(command(s, p) == cmd_params(s, p, true));
        if at(s, p + 4, '\r') && at(s, p + 5, '\n') {
            assert(str_param(s, p + 4) is None);
            assert(str_params(s, p + 4) == (Seq::<Seq<char>>::empty(), p + 4));
        }
    }
}

/// White space ends somewhere from where it starts to the end.
pub proof fn lemma_ws_end_bounds(s: Seq<char>, p: int)
    requires
        0 <= p <= s.len(),
    ensures
        p <= ws_end(s, p) <= s.len(),
    decreases s.len() - p,
{
    if 0 <= p < s.len() && is_ws(s[p]) {
        lemma_ws_end_bounds(s, p + 1);
    }
}

} // verus!
