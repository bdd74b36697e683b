//! The SMTP commands, paths, hosts and parsed input items.
use vstd::prelude::*;
use vstd::string::*;
use crate::model::text::{decimal, push_char, push_decimal, push_str};

verus! {

/// A host as written in an SMTP command.
#[derive(Debug, Clone, PartialEq, Eq)]
pub enum SmtpHost {
    Domain(String),
    /// An IPv4 address, its four octets in big-endian order.
    Ipv4(u32),
    /// An IPv6 address, its sixteen octets in big-endian order.
    Ipv6(u128),
    Invalid { label: String, literal: String },
    Other { label: String, literal: String },
}

/// A mailbox: a local part and a host.
#[derive(Debug, Clone, PartialEq, Eq)]
pub enum SmtpAddress {
    Mailbox(String, SmtpHost),
}

/// A reverse or forward path of MAIL and RCPT.
#[derive(Debug, Clone, PartialEq, Eq)]
pub enum SmtpPath {
    Direct(SmtpAddress),
    Relay(Vec<SmtpHost>, SmtpAddress),
    Postmaster,
    Null,
}

/// The greeting of the client.
#[derive(Debug, Clone, PartialEq, Eq)]
pub enum SmtpHelo {
    Helo(SmtpHost),
    Ehlo(SmtpHost),
}

/// The flavours of the mail transaction start.
#[derive(Debug, Clone, PartialEq, Eq)]
pub enum SmtpMail {
    Mail(SmtpPath),
    Send(SmtpPath),
    Saml(SmtpPath),
    Soml(SmtpPath),
}

/// An SMTP command.
#[derive(Debug, Clone, PartialEq, Eq)]
pub enum SmtpCommand {
    StartTls,
    Helo(SmtpHelo),
    Mail(SmtpMail),
    Rcpt(SmtpPath),
    Expn(String),
    Vrfy(String),
    Help(Vec<String>),
    Noop(Vec<String>),
    Quit,
    Rset,
    Data,
    Turn,
    Unknown(String),
}

/// The two ends of a connection, each as the text of a socket address.
#[derive(Debug, Clone, PartialEq, Eq)]
pub struct SmtpConnection {
    pub local_name: String,
    pub local_addr: Option<String>,
    pub peer_addr: Option<String>,
}

/// One item of the input stream, with its byte position and length.
#[derive(Debug, Clone, PartialEq, Eq)]
pub enum SmtpInput {
    Command(usize, usize, SmtpCommand),
    Invalid(usize, usize, Vec<u8>),
    Incomplete(usize, usize, Vec<u8>),
    Blank(usize, usize, String),
    Connect(SmtpConnection),
    Disconnect,
    StreamStart(usize),
    StreamEnd(usize),
    StreamData(usize, usize, Vec<u8>),
}

/* The mathematical models of the above. */

pub enum SpecHost {
    Domain(Seq<char>),
    Ipv4(u32),
    Ipv6(u128),
    Invalid { label: Seq<char>, literal: Seq<char> },
    Other { label: Seq<char>, literal: Seq<char> },
}

pub enum SpecAddress {
    Mailbox(Seq<char>, SpecHost),
}

pub enum SpecPath {
    Direct(SpecAddress),
    Relay(Seq<SpecHost>, SpecAddress),
    Postmaster,
    Null,
}

pub enum SpecHelo {
    Helo(SpecHost),
    Ehlo(SpecHost),
}

pub enum SpecMail {
    Mail(SpecPath),
    Send(SpecPath),
    Saml(SpecPath),
    Soml(SpecPath),
}

pub enum SpecCommand {
    StartTls,
    Helo(SpecHelo),
    Mail(SpecMail),
    Rcpt(SpecPath),
    Expn(Seq<char>),
    Vrfy(Seq<char>),
    Help(Seq<Seq<char>>),
    Noop(Seq<Seq<char>>),
    Quit,
    Rset,
    Data,
    Turn,
    Unknown(Seq<char>),
}

pub struct SpecConnection {
    pub local_name: Seq<char>,
    pub local_addr: Option<Seq<char>>,
    pub peer_addr: Option<Seq<char>>,
}

pub enum SpecInput {
    Command(int, int, SpecCommand),
    Invalid(int, int, Seq<u8>),
    Incomplete(int, int, Seq<u8>),
    Blank(int, int, Seq<char>),
    Connect(SpecConnection),
    Disconnect,
    StreamStart(int),
    StreamEnd(int),
    StreamData(int, int, Seq<u8>),
}

pub open spec fn opt_text(o: Option<String>) -> Option<Seq<char>> {
    match o {
        Some(s) => Some(s@),
        None => None,
    }
}

impl View for SmtpHost {
    type V = SpecHost;

    open spec fn view(&self) -> SpecHost {
        match self {
            SmtpHost::Domain(d) => SpecHost::Domain(d@),
            SmtpHost::Ipv4(v) => SpecHost::Ipv4(*v),
            SmtpHost::Ipv6(v) => SpecHost::Ipv6(*v),
            SmtpHost::Invalid { label, literal } => SpecHost::Invalid { label: label@, literal: literal@ },
            SmtpHost::Other { label, literal } => SpecHost::Other { label: label@, literal: literal@ },
        }
    }
}

impl DeepView for SmtpHost {
    type V = SpecHost;

    open spec fn deep_view(&self) -> SpecHost {
        self@
    }
}

impl View for SmtpAddress {
    type V = SpecAddress;

    open spec fn view(&self) -> SpecAddress {
        match self {
            SmtpAddress::Mailbox(n, h) => SpecAddress::Mailbox(n@, h@),
        }
    }
}

impl View for SmtpPath {
    type V = SpecPath;

    open spec fn view(&self) -> SpecPath {
        match self {
            SmtpPath::Direct(a) => SpecPath::Direct(a@),
            SmtpPath::Relay(hs, a) => SpecPath::Relay(hs.deep_view(), a@),
            SmtpPath::Postmaster => SpecPath::Postmaster,
            SmtpPath::Null => SpecPath::Null,
        }
    }
}

impl DeepView for SmtpPath {
    type V = SpecPath;

    open spec fn deep_view(&self) -> SpecPath {
        self@
    }
}

impl View for SmtpHelo {
    type V = SpecHelo;

    open spec fn view(&self) -> SpecHelo {
        match self {
            SmtpHelo::Helo(h) => SpecHelo::Helo(h@),
            SmtpHelo::Ehlo(h) => SpecHelo::Ehlo(h@),
        }
    }
}

impl View for SmtpMail {
    type V = SpecMail;

    open spec fn view(&self) -> SpecMail {
        match self {
            SmtpMail::Mail(p) => SpecMail::Mail(p@),
            SmtpMail::Send(p) => SpecMail::Send(p@),
            SmtpMail::Saml(p) => SpecMail::Saml(p@),
            SmtpMail::Soml(p) => SpecMail::Soml(p@),
        }
    }
}

impl View for SmtpCommand {
    type V = SpecCommand;

    open spec fn view(&self) -> SpecCommand {
        match self {
            SmtpCommand::StartTls => SpecCommand::StartTls,
            SmtpCommand::Helo(h) => SpecCommand::Helo(h@),
            SmtpCommand::Mail(m) => SpecCommand::Mail(m@),
            SmtpCommand::Rcpt(p) => SpecCommand::Rcpt(p@),
            SmtpCommand::Expn(s) => SpecCommand::Expn(s@),
            SmtpCommand::Vrfy(s) => SpecCommand::Vrfy(s@),
            SmtpCommand::Help(v) => SpecCommand::Help(v.deep_view()),
            SmtpCommand::Noop(v) => SpecCommand::Noop(v.deep_view()),
            SmtpCommand::Quit => SpecCommand::Quit,
            SmtpCommand::Rset => SpecCommand::Rset,
            SmtpCommand::Data => SpecCommand::Data,
            SmtpCommand::Turn => SpecCommand::Turn,
            SmtpCommand::Unknown(s) => SpecCommand::Unknown(s@),
        }
    }
}

impl View for SmtpConnection {
    type V = SpecConnection;

    open spec fn view(&self) -> SpecConnection {
        SpecConnection {
            local_name: self.local_name@,
            local_addr: opt_text(self.local_addr),
            peer_addr: opt_text(self.peer_addr),
        }
    }
}

impl View for SmtpInput {
    type V = SpecInput;

    open spec fn view(&self) -> SpecInput {
        match self {
            SmtpInput::Command(b, l, c) => SpecInput::Command(*b as int, *l as int, c@),
            SmtpInput::Invalid(b, l, d) => SpecInput::Invalid(*b as int, *l as int, d@),
            SmtpInput::Incomplete(b, l, d) => SpecInput::Incomplete(*b as int, *l as int, d@),
            SmtpInput::Blank(b, l, s) => SpecInput::Blank(*b as int, *l as int, s@),
            SmtpInput::Connect(c) => SpecInput::Connect(c@),
            SmtpInput::Disconnect => SpecInput::Disconnect,
            SmtpInput::StreamStart(b) => SpecInput::StreamStart(*b as int),
            SmtpInput::StreamEnd(b) => SpecInput::StreamEnd(*b as int),
            SmtpInput::StreamData(b, l, d) => SpecInput::StreamData(*b as int, *l as int, d@),
        }
    }
}

impl DeepView for SmtpInput {
    type V = SpecInput;

    open spec fn deep_view(&self) -> SpecInput {
        self@
    }
}

/// The number of input bytes that an item stands for.
pub open spec fn input_len(i: SpecInput) -> int {
    match i {
        SpecInput::Command(_, l, _) => l,
        SpecInput::Invalid(_, l, _) => l,
        SpecInput::Incomplete(_, l, _) => l,
        SpecInput::Blank(_, l, _) => l,
        SpecInput::Connect(_) => 0,
        SpecInput::Disconnect => 0,
        SpecInput::StreamStart(_) => 0,
        SpecInput::StreamEnd(_) => 0,
        SpecInput::StreamData(_, l, _) => l,
    }
}

/// The item moved to another byte position.
pub open spec fn input_at(i: SpecInput, pos: int) -> SpecInput {
    match i {
        SpecInput::Command(_, l, c) => SpecInput::Command(pos, l, c),
        SpecInput::Invalid(_, l, d) => SpecInput::Invalid(pos, l, d),
        SpecInput::Incomplete(_, l, d) => SpecInput::Incomplete(pos, l, d),
        SpecInput::Blank(_, l, s) => SpecInput::Blank(pos, l, s),
        SpecInput::Connect(c) => SpecInput::Connect(c),
        SpecInput::Disconnect => SpecInput::Disconnect,
        SpecInput::StreamStart(_) => SpecInput::StreamStart(pos),
        SpecInput::StreamEnd(_) => SpecInput::StreamEnd(pos),
        SpecInput::StreamData(_, l, d) => SpecInput::StreamData(pos, l, d),
    }
}

/// Moving an item keeps its length, and a second move overrides the first.
pub proof fn lemma_input_at(i: SpecInput, p: int, q: int)
    ensures
        input_len(input_at(i, p)) == input_len(i),
        input_at(input_at(i, p), q) == input_at(i, q),
{
}

impl SmtpInput {
    pub fn len(&self) -> (r: usize)
        ensures
            r == input_len(self@),
    {
        match self {
            SmtpInput::Command(_, l, _) => *l,
            SmtpInput::Invalid(_, l, _) => *l,
            SmtpInput::Incomplete(_, l, _) => *l,
            SmtpInput::Blank(_, l, _) => *l,
            SmtpInput::Connect(_) => 0,
            SmtpInput::Disconnect => 0,
            SmtpInput::StreamStart(_) => 0,
            SmtpInput::StreamEnd(_) => 0,
            SmtpInput::StreamData(_, l, _) => *l,
        }
    }

    pub fn pos(self, pos: usize) -> (r: Self)
        ensures
            r@ == input_at(self@, pos as int),
    {
        match self {
            SmtpInput::Command(_, l, c) => SmtpInput::Command(pos, l, c),
            SmtpInput::Invalid(_, l, d) => SmtpInput::Invalid(pos, l, d),
            SmtpInput::Incomplete(_, l, d) => SmtpInput::Incomplete(pos, l, d),
            SmtpInput::Blank(_, l, s) => SmtpInput::Blank(pos, l, s),
            SmtpInput::Connect(c) => SmtpInput::Connect(c),
            SmtpInput::Disconnect => SmtpInput::Disconnect,
            SmtpInput::StreamStart(_) => SmtpInput::StreamStart(pos),
            SmtpInput::StreamEnd(_) => SmtpInput::StreamEnd(pos),
            SmtpInput::StreamData(_, l, d) => SmtpInput::StreamData(pos, l, d),
        }
    }
}

/// The host of a greeting.
pub open spec fn helo_host(h: SpecHelo) -> SpecHost {
    match h {
        SpecHelo::Helo(x) => x,
        SpecHelo::Ehlo(x) => x,
    }
}

/// The path of a mail transaction start.
pub open spec fn mail_path(m: SpecMail) -> SpecPath {
    match m {
        SpecMail::Mail(p) => p,
        SpecMail::Send(p) => p,
        SpecMail::Saml(p) => p,
        SpecMail::Soml(p) => p,
    }
}

/// The textual form of an IPv6 address, as the standard library writes it.
pub uninterp spec fn ipv6_text(v: u128) -> Seq<char>;

/// Writes an IPv6 address in its standard textual form.
///
/// Calls `core::net::Ipv6Addr`'s `Display` (through `to_string`); the result
/// is named `ipv6_text` of the address, and nothing more is claimed of it.
#[verifier::external_body]
fn ipv6_to_string(v: u128) -> (r: String)
    ensures
        r@ == ipv6_text(v),
{
    core::net::Ipv6Addr::from(v).to_string()
}

/// The dot-decimal notation of an IPv4 address.
pub open spec fn ipv4_text(v: u32) -> Seq<char> {
    decimal((v / 0x100_0000) as nat) + seq!['.']
        + decimal(((v / 0x1_0000) % 0x100) as nat) + seq!['.']
        + decimal(((v / 0x100) % 0x100) as nat) + seq!['.']
        + decimal((v % 0x100) as nat)
}

/// The textual form of a host.
pub open spec fn host_text(h: SpecHost) -> Seq<char> {
    match h {
        SpecHost::Domain(d) => d,
        SpecHost::Ipv4(v) => ipv4_text(v),
        SpecHost::Ipv6(v) => ipv6_text(v),
        SpecHost::Invalid { label, literal } => label + seq![':'] + literal,
        SpecHost::Other { label, literal } => label + seq![':'] + literal,
    }
}

/// The textual form of a path.
pub open spec fn path_text(p: SpecPath) -> Seq<char> {
    match p {
        SpecPath::Direct(SpecAddress::Mailbox(n, h)) => seq!['<'] + n + seq!['@'] + host_text(h) + seq!['>'],
        SpecPath::Relay(_, SpecAddress::Mailbox(n, h)) => seq!['<'] + n + seq!['@'] + host_text(h) + seq!['>'],
        SpecPath::Null => seq!['<', '>'],
        SpecPath::Postmaster => seq!['<', 'P', 'O', 'S', 'T', 'M', 'A', 'S', 'T', 'E', 'R', '>'],
    }
}

fn push_host(s: &mut String, h: &SmtpHost)
    ensures
        final(s)@ == old(s)@ + host_text(h@),
{
    match h {
        SmtpHost::Domain(d) => {
            push_str(s, d.as_str());
        },
        SmtpHost::Ipv4(v) => {
            let v = *v;
            push_decimal(s, v / 0x100_0000);
            push_char(s, '.');
            push_decimal(s, (v / 0x1_0000) % 0x100);
            push_char(s, '.');
            push_decimal(s, (v / 0x100) % 0x100);
            push_char(s, '.');
            push_decimal(s, v % 0x100);
            assert(final(s)@ =~= old(s)@ + host_text(h@));
        },
        SmtpHost::Ipv6(v) => {
            let t = ipv6_to_string(*v);
            push_str(s, t.as_str());
        },
        SmtpHost::Invalid { label, literal } | SmtpHost::Other { label, literal } => {
            push_str(s, label.as_str());
            push_char(s, ':');
            push_str(s, literal.as_str());
            assert(final(s)@ =~= old(s)@ + host_text(h@));
        },
    }
}

impl SmtpHost {
    /// The textual form of the host.
    pub fn to_string(&self) -> (r: String)
        ensures
            r@ == host_text(self@),
    {
        let mut s = String::new();
        push_host(&mut s, self);
        assert(s@ =~= host_text(self@));
        s
    }
}

impl SmtpPath {
    /// The textual form of the path.
    pub fn to_string(&self) -> (r: String)
        ensures
            r@ == path_text(self@),
    {
        let mut s = String::new();
        match self {
            SmtpPath::Direct(SmtpAddress::Mailbox(n, h)) | SmtpPath::Relay(_, SmtpAddress::Mailbox(n, h)) => {
                push_char(&mut s, '<');
                push_str(&mut s, n.as_str());
                push_char(&mut s, '@');
                push_host(&mut s, h);
                push_char(&mut s, '>');
            },
            SmtpPath::Null => {
                push_char(&mut s, '<');
                push_char(&mut s, '>');
            },
            SmtpPath::Postmaster => {
                push_str(&mut s, "<POSTMASTER>");
                proof {
                    reveal_strlit("<POSTMASTER>");
                }
            },
        }
        assert(s@ =~= path_text(self@));
        s
    }
}

impl SmtpHelo {
    pub fn host(&self) -> (r: &SmtpHost)
        ensures
            r@ == helo_host(self@),
    {
        match self {
            SmtpHelo::Helo(host) => host,
            SmtpHelo::Ehlo(host) => host,
        }
    }

    /// The textual form of the greeting's host.
    pub fn name(&self) -> (r: String)
        ensures
            r@ == host_text(helo_host(self@)),
    {
        self.host().to_string()
    }
}

impl SmtpMail {
    pub fn from(&self) -> (r: &SmtpPath)
        ensures
            r@ == mail_path(self@),
    {
        match self {
            SmtpMail::Mail(p) => p,
            SmtpMail::Send(p) => p,
            SmtpMail::Saml(p) => p,
            SmtpMail::Soml(p) => p,
        }
    }
}

} // verus!

verus! {

/* Copies that keep the model (the derived `Clone` says nothing to Verus). */

pub fn copy_text(s: &String) -> (r: String)
    ensures
        r@ == s@,
{
    s.clone()
}

pub fn copy_opt_text(s: &Option<String>) -> (r: Option<String>)
    ensures
        opt_text(r) == opt_text(*s),
{
    match s {
        Some(t) => Some(t.clone()),
        None => None,
    }
}

pub fn copy_host(h: &SmtpHost) -> (r: SmtpHost)
    ensures
        r@ == h@,
{
    match h {
        SmtpHost::Domain(d) => SmtpHost::Domain(d.clone()),
        SmtpHost::Ipv4(v) => SmtpHost::Ipv4(*v),
        SmtpHost::Ipv6(v) => SmtpHost::Ipv6(*v),
        SmtpHost::Invalid { label, literal } => SmtpHost::Invalid { label: label.clone(), literal: literal.clone() },
        SmtpHost::Other { label, literal } => SmtpHost::Other { label: label.clone(), literal: literal.clone() },
    }
}

pub fn copy_address(a: &SmtpAddress) -> (r: SmtpAddress)
    ensures
        r@ == a@,
{
    match a {
        SmtpAddress::Mailbox(n, h) => SmtpAddress::Mailbox(n.clone(), copy_host(h)),
    }
}

pub fn copy_hosts(v: &Vec<SmtpHost>) -> (r: Vec<SmtpHost>)
    ensures
        r.deep_view() == v.deep_view(),
{
    let mut out: Vec<SmtpHost> = Vec::new();
    let mut i: usize = 0;
    assert(out.deep_view() =~= v.deep_view().subrange(0, 0));
    while i < v.len()
        invariant
            i <= v.len(),
            out.deep_view() == v.deep_view().subrange(0, i as int),
        decreases v.len() - i,
    {
        let ghost before = out.deep_view();
        let h = copy_host(&v[i]);
        let ghost hv = h@;
        assert(hv == v.deep_view()[i as int]);
        out.push(h);
        assert(out.deep_view() =~= before.push(hv));
        i = i + 1;
        assert(out.deep_view() =~= v.deep_view().subrange(0, i as int));
    }
    assert(v.deep_view().subrange(0, i as int) =~= v.deep_view());
    out
}

pub fn copy_path(p: &SmtpPath) -> (r: SmtpPath)
    ensures
        r@ == p@,
{
    match p {
        SmtpPath::Direct(a) => SmtpPath::Direct(copy_address(a)),
        SmtpPath::Relay(hs, a) => SmtpPath::Relay(copy_hosts(hs), copy_address(a)),
        SmtpPath::Postmaster => SmtpPath::Postmaster,
        SmtpPath::Null => SmtpPath::Null,
    }
}

pub fn copy_paths(v: &Vec<SmtpPath>) -> (r: Vec<SmtpPath>)
    ensures
        r.deep_view() == v.deep_view(),
{
    let mut out: Vec<SmtpPath> = Vec::new();
    let mut i: usize = 0;
    assert(out.deep_view() =~= v.deep_view().subrange(0, 0));
    while i < v.len()
        invariant
            i <= v.len(),
            out.deep_view() == v.deep_view().subrange(0, i as int),
        decreases v.len() - i,
    {
        let ghost before = out.deep_view();
        let p = copy_path(&v[i]);
        let ghost pv = p@;
        assert(pv == v.deep_view()[i as int]);
        out.push(p);
        assert(out.deep_view() =~= before.push(pv));
        i = i + 1;
        assert(out.deep_view() =~= v.deep_view().subrange(0, i as int));
    }
    assert(v.deep_view().subrange(0, i as int) =~= v.deep_view());
    out
}

pub fn copy_helo(h: &SmtpHelo) -> (r: SmtpHelo)
    ensures
        r@ == h@,
{
    match h {
        SmtpHelo::Helo(x) => SmtpHelo::Helo(copy_host(x)),
        SmtpHelo::Ehlo(x) => SmtpHelo::Ehlo(copy_host(x)),
    }
}

pub fn copy_mail(m: &SmtpMail) -> (r: SmtpMail)
    ensures
        r@ == m@,
{
    match m {
        SmtpMail::Mail(p) => SmtpMail::Mail(copy_path(p)),
        SmtpMail::Send(p) => SmtpMail::Send(copy_path(p)),
        SmtpMail::Saml(p) => SmtpMail::Saml(copy_path(p)),
        SmtpMail::Soml(p) => SmtpMail::Soml(copy_path(p)),
    }
}

} // verus!
