use samotop::codec::parser::SmtpParser;
use samotop::model::command::{SmtpCommand, SmtpHelo, SmtpHost};
use samotop::model::response::SmtpReply;
use samotop::protocol::codec::{CommandCodecError, CommandFrame, SmtpCodec};
use samotop::protocol::writer::SmtpSerializer;

fn codec() -> SmtpCodec {
    SmtpCodec::new(
        SmtpParser::session_parser(),
        SmtpSerializer::answer_serializer(),
        Some("127.0.0.1:25".to_string()),
        Some("10.0.0.1:4567".to_string()),
    )
}

fn connect() -> CommandFrame {
    CommandFrame::Connect { local_addr: Some("127.0.0.1:25".to_string()), peer_addr: Some("10.0.0.1:4567".to_string()) }
}

#[test]
fn command_codec_hands_out_the_connection_first() {
    let mut c = codec();
    let mut buf = b"helo domain.com\r\nqui".to_vec();
    assert_eq!(c.decode(&mut buf), Some(connect()));
    assert_eq!(buf, b"qui".to_vec());
    assert_eq!(
        c.decode(&mut buf),
        Some(CommandFrame::Command(SmtpCommand::Helo(SmtpHelo::Helo(SmtpHost::Domain("domain.com".to_string())))))
    );
    assert_eq!(c.decode(&mut buf), None);
    buf.extend_from_slice(b"t\r\n");
    assert_eq!(c.decode(&mut buf), Some(CommandFrame::Command(SmtpCommand::Quit)));
    assert!(buf.is_empty());
}

#[test]
fn command_codec_reads_past_leading_white_space() {
    let mut c = codec();
    let mut buf = b"  quit\r\n".to_vec();
    assert_eq!(c.decode(&mut buf), Some(connect()));
    assert_eq!(c.decode(&mut buf), Some(CommandFrame::Command(SmtpCommand::Quit)));
    assert!(buf.is_empty());
}

#[test]
fn command_codec_takes_bytes_that_are_not_text_as_invalid() {
    let mut c = codec();
    let mut buf = vec![0xff, b'\n'];
    c.decode(&mut buf);
    assert_eq!(
        c.decode(&mut buf),
        Some(CommandFrame::Invalid("input error: Utf8Error { valid_up_to: 0, error_len: Some(1) }".to_string()))
    );
}

#[test]
fn command_codec_takes_white_space_alone_as_invalid() {
    let mut c = codec();
    let mut buf = b"  ".to_vec();
    c.decode(&mut buf);
    assert_eq!(c.decode(&mut buf), Some(CommandFrame::Invalid("  ".to_string())));
}

#[test]
fn command_codec_ends_the_connection_once() {
    let mut c = codec();
    let mut buf = Vec::new();
    assert_eq!(c.decode_eof(&mut buf), Ok(Some(connect())));
    assert_eq!(c.decode_eof(&mut buf), Ok(Some(CommandFrame::Disconnect)));
    assert_eq!(c.decode_eof(&mut buf), Ok(None));
}

#[test]
fn command_codec_refuses_remaining_bytes_at_the_end() {
    let mut c = codec();
    let mut buf = b"qui".to_vec();
    assert_eq!(c.decode_eof(&mut buf), Ok(Some(connect())));
    assert_eq!(c.decode_eof(&mut buf), Err(CommandCodecError::BytesRemaining));
}

#[test]
fn command_codec_writes_replies() {
    let mut c = codec();
    let mut buf = Vec::new();
    c.encode(SmtpReply::ServiceReadyInfo("mx".to_string()), &mut buf);
    assert_eq!(buf, b"220 mx Service ready\r\n".to_vec());
}
