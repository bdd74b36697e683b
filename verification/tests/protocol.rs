use samotop::model::command::SmtpCommand;
use samotop::model::controll::{ClientControll, ServerControll};
use samotop::model::response::{SmtpReply, SmtpReplyCategory, SmtpReplyClass, SmtpReplyDigit};
use samotop::protocol::line::LineCodec;
use samotop::protocol::smtp::SmtpCodec;
use samotop::protocol::writer::SmtpSerializer;

fn unknown(s: &str) -> ServerControll {
    ServerControll::Command(SmtpCommand::Unknown(s.to_string()))
}

#[test]
fn line_codec_reads_whole_lines() {
    let mut c = LineCodec::new();
    let mut buf = b"helo a\r\nquit".to_vec();
    assert_eq!(c.decode(&mut buf), Some(unknown("helo a\r\n")));
    assert_eq!(buf, b"quit".to_vec());
    assert_eq!(c.decode(&mut buf), None);
    buf.extend_from_slice(b"\r\n");
    assert_eq!(c.decode(&mut buf), Some(unknown("quit\r\n")));
    assert!(buf.is_empty());
}

#[test]
fn line_codec_takes_bytes_that_are_not_text_as_invalid() {
    let mut c = LineCodec::new();
    let mut buf = vec![0xc3, b'\n'];
    assert_eq!(c.decode(&mut buf), Some(ServerControll::Invalid(vec![0xc3, b'\n'])));
}

#[test]
fn line_codec_writes_only_replies() {
    let mut c = LineCodec::new();
    let mut buf = Vec::new();
    c.encode(ClientControll::Noop, &mut buf);
    assert!(buf.is_empty());
    c.encode(ClientControll::Reply(SmtpReply::CommandSequenceFailure), &mut buf);
    assert_eq!(buf, b"503 Bad sequence of commands\r\n".to_vec());
}

#[test]
fn smtp_codec_reads_commands_then_mail_data() {
    let mut c = SmtpCodec::new();
    let mut buf = b"DATA\r\n".to_vec();
    assert_eq!(c.decode_either(&mut buf), Some(unknown("DATA\r\n")));
    assert!(buf.is_empty());
    c.encode(ClientControll::AcceptData, &mut buf);
    buf.extend_from_slice(b"hello\r\n.\r\nquit\r\n");
    assert_eq!(c.decode_either(&mut buf), Some(ServerControll::DataChunk(b"hello".to_vec())));
    assert_eq!(c.decode_either(&mut buf), Some(ServerControll::FinalDot(b"\r\n.\r\n".to_vec())));
    assert_eq!(c.decode_either(&mut buf), Some(unknown("quit\r\n")));
    assert!(buf.is_empty());
}

#[test]
fn smtp_codec_takes_an_insane_line_as_invalid() {
    let mut c = SmtpCodec::new();
    let mut buf = b"GET / HTTP/1.1\r\n".to_vec();
    assert_eq!(c.decode_either(&mut buf), Some(ServerControll::Invalid(b"GET / HTTP/1.1\r\n".to_vec())));
}

#[test]
fn smtp_codec_waits_for_a_line_break() {
    let mut c = SmtpCodec::new();
    let mut buf = b"quit".to_vec();
    assert_eq!(c.decode_either(&mut buf), None);
    assert_eq!(buf, b"quit".to_vec());
}

#[test]
fn smtp_codec_passes_an_escaped_dot() {
    let mut c = SmtpCodec::new();
    let mut buf = Vec::new();
    c.encode(ClientControll::AcceptData, &mut buf);
    buf.extend_from_slice(b"..x\r\n");
    assert_eq!(c.decode_either(&mut buf), Some(ServerControll::EscapeDot(b".".to_vec())));
}

fn wire(r: SmtpReply) -> String {
    let mut buf = Vec::new();
    SmtpSerializer::answer_serializer().write_reply(&mut buf, r);
    String::from_utf8(buf).unwrap()
}

#[test]
fn serializer_writes_codes_and_texts() {
    let s = SmtpSerializer::answer_serializer();
    assert_eq!(s.reply_code(&SmtpReply::StorageFailure), 552);
    assert_eq!(
        s.reply_code(&SmtpReply::Custom(
            SmtpReplyClass::Error,
            SmtpReplyCategory::System,
            SmtpReplyDigit::D2,
            String::new(),
            vec![]
        )),
        452
    );
    assert_eq!(wire(SmtpReply::ServiceReadyInfo("mx".to_string())), "220 mx Service ready\r\n");
    assert_eq!(wire(SmtpReply::OkInfo(String::new(), vec![])), "250 Ok\r\n");
}

#[test]
fn serializer_writes_items_as_further_lines() {
    let r = SmtpReply::OkEhloInfo {
        local: "mx".to_string(),
        remote: "peer".to_string(),
        extensions: vec!["8BITMIME".to_string(), "SIZE".to_string()],
    };
    assert_eq!(wire(r), "250-mx greets peer\r\n250-8BITMIME\r\n250 SIZE\r\n");
}

#[test]
fn smtp_codec_keeps_a_trailing_cr_until_the_next_byte() {
    let mut c = SmtpCodec::new();
    let mut buf = b"QUIT\r".to_vec();
    assert_eq!(c.decode_either(&mut buf), None);
    assert_eq!(buf, b"QUIT\r".to_vec());
    buf.extend_from_slice(b"\n");
    assert_eq!(c.decode_either(&mut buf), Some(unknown("QUIT\r\n")));
    assert!(buf.is_empty());
}

#[test]
fn serializer_ends_every_line_of_a_multiline_reply() {
    let r = SmtpReply::OkInfo("mx".to_string(), vec!["PIPELINING".to_string(), "8BITMIME".to_string()]);
    assert_eq!(wire(r), "250-mx\r\n250-PIPELINING\r\n250 8BITMIME\r\n");
}
