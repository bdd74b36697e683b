use samotop::codec::codec::{CodecError, SmtpCodec};
use samotop::codec::parser::SmtpParser;
use samotop::codec::writer::{SmtpAnswerWriter, SmtpWriter};
use samotop::model::command::{SmtpCommand, SmtpHelo, SmtpHost, SmtpInput};
use samotop::model::response::SmtpReply;

fn codec() -> SmtpCodec {
    SmtpCodec::new(SmtpParser::session_parser(), SmtpWriter::answer_writer())
}

fn helo(d: &str) -> SmtpCommand {
    SmtpCommand::Helo(SmtpHelo::Helo(SmtpHost::Domain(d.to_string())))
}

#[test]
fn codec_reads_a_command_at_the_stream_position() {
    let mut c = codec();
    let mut buf = b"helo domain.com\r\n".to_vec();
    assert_eq!(c.decode(&mut buf), Some(SmtpInput::Command(0, 17, helo("domain.com"))));
    assert!(buf.is_empty());
    assert_eq!(c.position(), 17);
    assert_eq!(c.decode(&mut buf), None);
}

#[test]
fn codec_hands_out_commands_in_order_with_running_positions() {
    let mut c = codec();
    let mut buf = b"helo domain.com\r\nquit\r\n".to_vec();
    assert_eq!(c.decode(&mut buf), Some(SmtpInput::Command(0, 17, helo("domain.com"))));
    assert_eq!(c.decode(&mut buf), Some(SmtpInput::Command(17, 6, SmtpCommand::Quit)));
    assert_eq!(c.decode(&mut buf), None);
    assert_eq!(c.position(), 23);
}

#[test]
fn codec_keeps_an_incomplete_line_for_later() {
    let mut c = codec();
    let mut buf = b"quit\r\nqui".to_vec();
    assert_eq!(c.decode(&mut buf), Some(SmtpInput::Command(0, 6, SmtpCommand::Quit)));
    assert_eq!(buf, b"qui".to_vec());
    buf.extend_from_slice(b"t\r\n");
    assert_eq!(c.decode(&mut buf), Some(SmtpInput::Command(6, 6, SmtpCommand::Quit)));
    assert!(buf.is_empty());
}

#[test]
fn codec_streams_mail_data_up_to_the_lone_dot() {
    let mut c = codec();
    let mut buf = b"DATA\r\nhello\r\n.\r\nquit\r\n".to_vec();
    assert_eq!(c.decode(&mut buf), Some(SmtpInput::Command(0, 6, SmtpCommand::Data)));
    assert_eq!(buf, b"hello\r\n.\r\nquit\r\n".to_vec());
    assert_eq!(c.decode(&mut buf), Some(SmtpInput::StreamStart(6)));
    assert_eq!(buf, b"quit\r\n".to_vec());
    assert_eq!(c.decode(&mut buf), Some(SmtpInput::StreamData(6, 5, b"hello".to_vec())));
    assert!(buf.is_empty());
    assert_eq!(c.decode(&mut buf), Some(SmtpInput::StreamEnd(11)));
    assert_eq!(c.decode(&mut buf), Some(SmtpInput::Command(11, 6, SmtpCommand::Quit)));
    assert_eq!(c.decode(&mut buf), None);
}

#[test]
fn codec_passes_data_without_a_dot_whole() {
    let mut c = codec();
    let mut buf = b"DATA\r\n".to_vec();
    assert_eq!(c.decode(&mut buf), Some(SmtpInput::Command(0, 6, SmtpCommand::Data)));
    let mut buf = b"some data\r\n".to_vec();
    assert_eq!(c.decode(&mut buf), Some(SmtpInput::StreamStart(6)));
    assert_eq!(c.decode(&mut buf), Some(SmtpInput::StreamData(6, 11, b"some data\r\n".to_vec())));
    assert_eq!(c.position(), 17);
}

#[test]
fn codec_takes_bytes_that_are_not_text_as_invalid() {
    let mut c = codec();
    let mut buf = vec![0xff, b'\r', b'\n'];
    assert_eq!(c.decode(&mut buf), Some(SmtpInput::Invalid(0, 3, vec![0xff, b'\r', b'\n'])));
    assert!(buf.is_empty());
}

#[test]
fn codec_reads_a_blank_line_after_leading_white_space() {
    let mut c = codec();
    let mut buf = b"  \r\n".to_vec();
    assert_eq!(c.decode(&mut buf), Some(SmtpInput::Blank(0, 2, "\r\n".to_string())));
    assert_eq!(buf, b"\r\n".to_vec());
    assert_eq!(c.decode(&mut buf), Some(SmtpInput::Blank(2, 2, "\r\n".to_string())));
    assert!(buf.is_empty());
}

#[test]
fn codec_takes_white_space_alone_as_invalid() {
    let mut c = codec();
    let mut buf = b"  ".to_vec();
    assert_eq!(c.decode(&mut buf), Some(SmtpInput::Invalid(0, 2, b"  ".to_vec())));
}

#[test]
fn codec_at_the_end_reports_the_disconnection_once() {
    let mut c = codec();
    let mut buf = Vec::new();
    assert_eq!(c.decode_eof(&mut buf), Ok(Some(SmtpInput::Disconnect)));
    assert_eq!(c.decode_eof(&mut buf), Ok(None));
}

#[test]
fn codec_at_the_end_refuses_remaining_bytes() {
    let mut c = codec();
    let mut buf = b"qui".to_vec();
    assert_eq!(c.decode_eof(&mut buf), Err(CodecError::BytesRemaining));
    assert_eq!(buf, b"qui".to_vec());
}

#[test]
fn codec_at_the_end_hands_out_what_is_left_first() {
    let mut c = codec();
    let mut buf = b"quit\r\n".to_vec();
    assert_eq!(c.decode_eof(&mut buf), Ok(Some(SmtpInput::Command(0, 6, SmtpCommand::Quit))));
    assert_eq!(c.decode_eof(&mut buf), Ok(Some(SmtpInput::Disconnect)));
}

#[test]
fn codec_writes_replies_on_the_wire() {
    let mut c = codec();
    let mut buf = Vec::new();
    c.encode(SmtpReply::CommandSyntaxFailure, &mut buf);
    assert_eq!(String::from_utf8(buf).unwrap(), "500 Syntax error, command unrecognized\r\n");
}

#[test]
fn writer_writes_a_reply_after_what_is_there() {
    let mut buf = b">".to_vec();
    SmtpWriter::answer_writer().write(&mut buf, SmtpReply::StartMailInputChallenge);
    assert_eq!(String::from_utf8(buf).unwrap(), ">354 Start mail input, // end with <CRLF>.<CRLF>\r\n");
}
