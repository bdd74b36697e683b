use samotop::model::command::{SmtpCommand, SmtpHelo, SmtpHost, SmtpMail, SmtpPath};
use samotop::model::controll::{ClientControll, ServerControll};
use samotop::model::mail::{AcceptRecipientResult, Envelope, QueueResult};
use samotop::model::response::SmtpReply;
use samotop::protocol::mail::{Mail, MailError};

fn up_to_data(m: &mut Mail<Vec<u8>>) {
    m.advance(ServerControll::Command(SmtpCommand::Helo(SmtpHelo::Helo(SmtpHost::Domain("p".to_string())))));
    m.advance(ServerControll::Command(SmtpCommand::Mail(SmtpMail::Mail(SmtpPath::Null))));
    m.advance(ServerControll::Command(SmtpCommand::Rcpt(SmtpPath::Postmaster)));
    m.advance(ServerControll::Command(SmtpCommand::Data));
    for _ in 0..3 {
        let a = m.take_answer(|_| None, |_| QueueResult::Failed);
        assert!(matches!(a, Some(ClientControll::Reply(_))));
    }
}

#[test]
fn mail_gets_a_sink_for_accepted_data() {
    let mut m: Mail<Vec<u8>> = Mail::new();
    m.set_service_name("svc");
    up_to_data(&mut m);
    let mut seen: Option<Envelope> = None;
    let a = m.take_answer(
        |e| {
            seen = Some(e);
            Some(Vec::new())
        },
        |_| QueueResult::Failed,
    );
    assert_eq!(a, Some(ClientControll::AcceptData));
    let e = seen.unwrap();
    assert_eq!(e.name, "svc");
    assert_eq!(e.rcpts, vec![SmtpPath::Postmaster]);
    let a = m.take_answer(|_| None, |_| QueueResult::Failed);
    assert_eq!(a, Some(ClientControll::Reply(SmtpReply::StartMailInputChallenge)));
    let mut sink = m.take_sink().unwrap();
    sink.extend_from_slice(b"data");
    m.put_sink(Some(sink));
    m.advance(ServerControll::FinalDot(b".\r\n".to_vec()));
    let a = m.take_answer(|_| None, |w| QueueResult::QueuedWithId(String::from_utf8(w).unwrap()));
    assert_eq!(a, Some(ClientControll::QueueMail));
    assert_eq!(m.check_queue(), None);
}

#[test]
fn mail_refused_by_the_service_is_cancelled() {
    let mut m: Mail<Vec<u8>> = Mail::new();
    up_to_data(&mut m);
    let a = m.take_answer(|_| None, |_| QueueResult::Failed);
    assert_eq!(a, Some(ClientControll::Reply(SmtpReply::MailboxNotAvailableFailure)));
    assert!(m.session().mail().is_none());
    assert_eq!(m.take_answer(|_| None, |_| QueueResult::Failed), None);
}

#[test]
fn mail_that_failed_to_queue_is_answered() {
    let mut m: Mail<Vec<u8>> = Mail::new();
    up_to_data(&mut m);
    m.take_answer(|_| Some(Vec::new()), |_| QueueResult::Failed);
    m.take_answer(|_| None, |_| QueueResult::Failed);
    m.advance(ServerControll::FinalDot(b".\r\n".to_vec()));
    assert_eq!(m.take_answer(|_| None, |_| QueueResult::Refused), Some(ClientControll::QueueMail));
    assert_eq!(m.check_queue(), Some(ClientControll::Reply(SmtpReply::MailboxNotAvailableError)));
    assert_eq!(m.check_queue(), None);
}

#[test]
fn mail_recipient_turned_down_is_answered() {
    let m: Mail<Vec<u8>> = Mail::new();
    let rcpt = ServerControll::Command(SmtpCommand::Rcpt(SmtpPath::Postmaster));
    assert_eq!(
        m.check_rcpt(&rcpt, |_| AcceptRecipientResult::Rejected),
        Some(ClientControll::Reply(SmtpReply::MailboxNotAvailableFailure))
    );
    assert_eq!(m.check_rcpt(&rcpt, |q| AcceptRecipientResult::Accepted(q.rcpt)), None);
    assert_eq!(m.check_rcpt(&ServerControll::PeerShutdown, |_| AcceptRecipientResult::Rejected), None);
}

#[test]
fn mail_poll_gives_owed_answers_before_reading() {
    let mut m: Mail<Vec<u8>> = Mail::new();
    assert_eq!(m.poll_pending(|_| None, |_| QueueResult::Failed), None);
    let r = m.take_control(
        ServerControll::PeerConnected { local: None, peer: None },
        |q| AcceptRecipientResult::Accepted(q.rcpt),
        |w, _| w,
    );
    assert_eq!(r, Ok(ClientControll::Noop));
    assert_eq!(
        m.poll_pending(|_| None, |_| QueueResult::Failed),
        Some(ClientControll::Reply(SmtpReply::ServiceReadyInfo("Samotop".to_string())))
    );
    assert_eq!(m.poll_pending(|_| None, |_| QueueResult::Failed), None);
}

#[test]
fn mail_control_refuses_data_without_a_sink() {
    let mut m: Mail<Vec<u8>> = Mail::new();
    let r = m.take_control(ServerControll::DataChunk(b"x".to_vec()), |q| AcceptRecipientResult::Accepted(q.rcpt), |w, _| w);
    assert_eq!(r, Err(MailError::NotConnected));
}

#[test]
fn mail_control_writes_data_and_answers_refused_recipients() {
    let mut m: Mail<Vec<u8>> = Mail::new();
    up_to_data(&mut m);
    assert_eq!(m.poll_pending(|_| Some(Vec::new()), |_| QueueResult::Failed), Some(ClientControll::AcceptData));
    let r = m.take_control(
        ServerControll::DataChunk(b"hello".to_vec()),
        |q| AcceptRecipientResult::Accepted(q.rcpt),
        |mut w, d| {
            w.extend_from_slice(&d);
            w
        },
    );
    assert_eq!(r, Ok(ClientControll::Noop));
    assert_eq!(m.take_sink(), Some(b"hello".to_vec()));
    let r = m.take_control(
        ServerControll::Command(SmtpCommand::Rcpt(SmtpPath::Null)),
        |_| AcceptRecipientResult::Rejected,
        |w, _| w,
    );
    assert_eq!(r, Ok(ClientControll::Reply(SmtpReply::MailboxNotAvailableFailure)));
}

#[test]
fn mail_poll_looks_at_the_queue_when_no_answer_is_owed() {
    let mut m: Mail<Vec<u8>> = Mail::new();
    up_to_data(&mut m);
    m.poll_pending(|_| Some(Vec::new()), |_| QueueResult::Failed);
    m.poll_pending(|_| None, |_| QueueResult::Failed);
    m.take_control(ServerControll::FinalDot(b".\r\n".to_vec()), |q| AcceptRecipientResult::Accepted(q.rcpt), |w, _| w)
        .unwrap();
    assert_eq!(m.poll_pending(|_| None, |_| QueueResult::Failed), Some(ClientControll::QueueMail));
    let a = m.poll_pending(|_| None, |_| QueueResult::Failed);
    assert!(matches!(a, Some(ClientControll::Reply(SmtpReply::OkMessageInfo(_)))));
    assert_eq!(
        m.poll_pending(|_| None, |_| QueueResult::Failed),
        Some(ClientControll::Reply(SmtpReply::MailboxNotAvailableFailure))
    );
}
