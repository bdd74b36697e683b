use samotop::grammar::parser::{Parser, SmtpParser};
use samotop::grammar::smtp::{command, host, script, session, ParseError};
use samotop::model::command::{SmtpAddress, SmtpCommand, SmtpHost, SmtpPath};

#[test]
fn host_reads_an_ipv6_literal() {
    let h = host("IPv6:::1").unwrap();
    assert_eq!(h, SmtpHost::Ipv6(1));
    assert_eq!(h.to_string(), "::1");
    let h = host("IPv6:2001:db8::ff00:42:8329").unwrap();
    assert_eq!(h.to_string(), "2001:db8::ff00:42:8329");
}

#[test]
fn host_keeps_a_bad_ipv6_literal_as_invalid() {
    assert_eq!(
        host("IPv6:1::2::3").unwrap(),
        SmtpHost::Invalid { label: "IPv6".to_string(), literal: "1::2::3".to_string() }
    );
}

#[test]
fn host_reads_an_ipv4_literal() {
    let h = host("[1.2.3.4]").unwrap();
    assert_eq!(h, SmtpHost::Ipv4(0x0102_0304));
    assert_eq!(h.to_string(), "1.2.3.4");
}

#[test]
fn path_is_written_in_angle_brackets() {
    let p = SmtpPath::Direct(SmtpAddress::Mailbox("me".to_string(), SmtpHost::Domain("there.net".to_string())));
    assert_eq!(p.to_string(), "<me@there.net>");
    assert_eq!(SmtpPath::Null.to_string(), "<>");
    assert_eq!(SmtpPath::Postmaster.to_string(), "<POSTMASTER>");
}

#[test]
fn parsers_refuse_input_they_cannot_read_whole() {
    assert_eq!(host(""), Err(ParseError));
    assert_eq!(command("quit\r\nquit\r\n"), Err(ParseError));
    assert_eq!(script(""), Err(ParseError));
    assert_eq!(session(" \t "), Err(ParseError));
    let p = SmtpParser::new();
    assert_eq!(p.command("quit\r\n"), Ok(SmtpCommand::Quit));
    assert!(p.script("").is_err());
}
