use samotop::model::command::{SmtpCommand, SmtpHelo, SmtpHost, SmtpMail, SmtpPath};
use samotop::model::controll::{ClientControll, ServerControll};
use samotop::model::session::Session;
use samotop::protocol::writer::SmtpSerializer;

fn wire(c: ClientControll) -> String {
    match c {
        ClientControll::Reply(r) => {
            let mut buf = Vec::new();
            SmtpSerializer::answer_serializer().write_reply(&mut buf, r);
            String::from_utf8(buf).unwrap()
        },
        other => format!("{:?}", other),
    }
}

fn answers(s: &mut Session) -> Vec<String> {
    let mut v = Vec::new();
    while let Some(c) = s.answer() {
        v.push(wire(c));
    }
    v
}

fn helo() -> ServerControll {
    ServerControll::Command(SmtpCommand::Helo(SmtpHelo::Helo(SmtpHost::Domain("peer.net".to_string()))))
}

#[test]
fn session_greets_a_peer() {
    let mut s = Session::new();
    s.controll(ServerControll::PeerConnected { local: Some("l".to_string()), peer: Some("p".to_string()) });
    assert_eq!(answers(&mut s), vec!["220 Samotop Service ready\r\n".to_string()]);
    assert_eq!(s.peer(), Some(&"p".to_string()));
    s.controll(helo());
    assert_eq!(answers(&mut s), vec!["250 Samotop greets peer.net\r\n".to_string()]);
}

#[test]
fn session_refuses_mail_before_helo() {
    let mut s = Session::new();
    s.controll(ServerControll::Command(SmtpCommand::Mail(SmtpMail::Mail(SmtpPath::Null))));
    assert_eq!(answers(&mut s), vec!["503 Bad sequence of commands\r\n".to_string()]);
}

#[test]
fn session_runs_a_transaction() {
    let mut s = Session::new();
    s.set_name("mx");
    s.controll(helo());
    s.controll(ServerControll::Command(SmtpCommand::Mail(SmtpMail::Mail(SmtpPath::Null))));
    s.controll(ServerControll::Command(SmtpCommand::Rcpt(SmtpPath::Postmaster)));
    s.controll(ServerControll::Command(SmtpCommand::Data));
    assert_eq!(
        answers(&mut s),
        vec![
            "250 mx greets peer.net\r\n".to_string(),
            "250 Ok\r\n".to_string(),
            "250 Ok\r\n".to_string(),
            "AcceptData".to_string(),
            "354 Start mail input, // end with <CRLF>.<CRLF>\r\n".to_string(),
        ]
    );
    let env = s.extract_envelope();
    assert_eq!(env.name, "mx");
    assert_eq!(env.rcpts, vec![SmtpPath::Postmaster]);
    assert_eq!(env.id.len(), 36);
    s.controll(ServerControll::FinalDot(b".\r\n".to_vec()));
    let a = answers(&mut s);
    assert_eq!(a[0], "QueueMail");
    assert!(a[1].starts_with("250 Queued as "));
    assert!(a[1].contains(&env.id));
    assert!(s.rcpts().is_empty());
}

#[test]
fn session_quits() {
    let mut s = Session::new();
    s.controll(helo());
    s.controll(ServerControll::Command(SmtpCommand::Quit));
    let a = answers(&mut s);
    assert_eq!(a[1], "221 Samotop Service closing transmission channel\r\n");
    assert_eq!(a[2], "Shutdown");
    assert!(s.helo().is_none());
}

#[test]
fn session_cancel_drops_the_transaction_and_the_answers() {
    let mut s = Session::new();
    s.controll(helo());
    s.controll(ServerControll::Command(SmtpCommand::Mail(SmtpMail::Mail(SmtpPath::Null))));
    s.cancel();
    assert!(s.answer().is_none());
    assert!(s.mail().is_none());
    assert!(s.helo().is_some());
}

#[test]
fn session_rcpt_request_names_the_recipient() {
    let mut s = Session::new();
    s.controll(helo());
    let q = s.extract_rcpt(&SmtpPath::Postmaster);
    assert_eq!(q.rcpt, SmtpPath::Postmaster);
    assert_eq!(q.name, "Samotop");
}

#[test]
fn session_mail_id_is_hyphenated_lower_case_hex() {
    let s = Session::new();
    let id = s.extract_envelope().id;
    assert_eq!(id.len(), 36);
    for (i, c) in id.chars().enumerate() {
        if i == 8 || i == 13 || i == 18 || i == 23 {
            assert_eq!(c, '-');
        } else {
            assert!(c.is_ascii_digit() || ('a'..='f').contains(&c));
        }
    }
}
