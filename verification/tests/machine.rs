use samotop::model::act::ActError;
use samotop::model::command::{SmtpCommand, SmtpConnection, SmtpHelo, SmtpHost, SmtpInput, SmtpMail, SmtpPath};
use samotop::model::machine::start;
use samotop::model::response::SmtpReply;
use samotop::model::state::Helo;
use samotop::protocol::stateful::transport::{ActTransport, Cradle, State};

#[derive(Debug, PartialEq)]
struct DebugSink;

fn conn(name: &str) -> SmtpConnection {
    SmtpConnection { local_name: name.to_string(), peer_addr: None, local_addr: None }
}

#[test]
fn go2() {
    let machine = start(DebugSink);
    let machine = machine.connect(SmtpConnection {
        local_name: "test".to_string(),
        peer_addr: None,
        local_addr: None,
    });
    let mut machine = machine.helo(SmtpHelo::Ehlo(SmtpHost::Domain("go2".to_string())));
    machine.next_reply();
    machine.next_reply();
    machine.next_reply();
    match machine.state() {
        &Helo { .. } => (),
    }
}

#[test]
fn machine_owes_replies_in_order() {
    let m = start(DebugSink).connect(conn("test"));
    let mut m = m.helo(SmtpHelo::Ehlo(SmtpHost::Domain("go2".to_string())));
    assert_eq!(m.next_reply(), Some(SmtpReply::ServiceReadyInfo("test".to_string())));
    assert_eq!(
        m.next_reply(),
        Some(SmtpReply::OkEhloInfo { local: "test".to_string(), remote: "go2".to_string(), extensions: vec![] })
    );
    assert_eq!(m.next_reply(), None);
    assert_eq!(m.state().helo, SmtpHelo::Ehlo(SmtpHost::Domain("go2".to_string())));
}

#[test]
fn machine_answers_helo_with_helo_info() {
    let mut m = start(DebugSink).connect(conn("me")).helo(SmtpHelo::Helo(SmtpHost::Domain("you".to_string())));
    m.next_reply();
    assert_eq!(m.next_reply(), Some(SmtpReply::OkHeloInfo { local: "me".to_string(), remote: "you".to_string() }));
}

#[test]
fn machine_put_back_reply_comes_first() {
    let mut m = start(DebugSink).noop().quit();
    let first = m.next_reply().unwrap();
    assert_eq!(first, SmtpReply::OkInfo(String::new(), vec![]));
    m.put_back(first);
    assert_eq!(m.next_reply(), Some(SmtpReply::OkInfo(String::new(), vec![])));
    assert_eq!(m.next_reply(), Some(SmtpReply::ClosingConnectionInfo("Ciao!".to_string())));
}

#[test]
fn machine_does_not_implement_help_expn_vrfy() {
    let mut m = start(DebugSink).help(vec![]).expn("x".to_string()).vrfy("y".to_string());
    for _ in 0..3 {
        assert_eq!(m.next_reply(), Some(SmtpReply::CommandNotImplementedFailure));
    }
    assert_eq!(m.next_reply(), None);
}

#[test]
fn machine_collects_recipients_and_resets_to_the_greeting() {
    let m = start(DebugSink).connect(conn("me")).helo(SmtpHelo::Helo(SmtpHost::Domain("you".to_string())));
    let m = m.mail(SmtpMail::Mail(SmtpPath::Null)).rcpt(SmtpPath::Postmaster).rcpt(SmtpPath::Null);
    assert_eq!(m.state().rcpt, vec![SmtpPath::Postmaster, SmtpPath::Null]);
    let mut m = m.reset();
    assert_eq!(m.state().helo, SmtpHelo::Helo(SmtpHost::Domain("you".to_string())));
    let mut n = 0;
    while m.next_reply().is_some() {
        n += 1;
    }
    assert_eq!(n, 6);
}

fn feed_all(t: &mut ActTransport<DebugSink>, inputs: Vec<SmtpInput>) {
    for i in inputs {
        assert!(t.takes_input());
        t.feed(i);
    }
}

fn transaction() -> Vec<SmtpInput> {
    vec![
        SmtpInput::Connect(conn("me")),
        SmtpInput::Command(0, 10, SmtpCommand::Helo(SmtpHelo::Helo(SmtpHost::Domain("you".to_string())))),
        SmtpInput::Command(10, 10, SmtpCommand::Mail(SmtpMail::Mail(SmtpPath::Null))),
        SmtpInput::Command(20, 10, SmtpCommand::Rcpt(SmtpPath::Postmaster)),
        SmtpInput::Command(30, 6, SmtpCommand::Data),
        SmtpInput::StreamEnd(40),
    ]
}

#[test]
fn transport_runs_a_whole_transaction() {
    let mut t = ActTransport::new(DebugSink);
    feed_all(&mut t, transaction());
    assert!(!t.takes_input());
    match t.into_state() {
        State::Ready(mut m) => {
            assert_eq!(m.state().rcpt, vec![SmtpPath::Postmaster]);
            assert_eq!(m.state().mail, SmtpMail::Mail(SmtpPath::Null));
            assert_eq!(m.next_reply(), Some(SmtpReply::ServiceReadyInfo("me".to_string())));
            assert_eq!(m.next_reply(), Some(SmtpReply::OkHeloInfo { local: "me".to_string(), remote: "you".to_string() }));
            assert_eq!(m.next_reply(), Some(SmtpReply::OkInfo(String::new(), vec![])));
            assert_eq!(m.next_reply(), Some(SmtpReply::OkInfo(String::new(), vec![])));
            assert_eq!(m.next_reply(), Some(SmtpReply::StartMailInputChallenge));
            assert_eq!(m.next_reply(), None);
        },
        other => panic!("not ready: {}", other.name()),
    }
}

#[test]
fn transport_answers_the_outcome_of_the_mail() {
    let mut t = ActTransport::new(DebugSink);
    feed_all(&mut t, transaction());
    t.respond(Err(ActError::Failed));
    assert!(t.takes_input());
    match t.into_state() {
        State::Initialized(mut m) => {
            let mut last = None;
            while let Some(r) = m.next_reply() {
                last = Some(r);
            }
            assert_eq!(last, Some(SmtpReply::TransactionFailure));
        },
        other => panic!("not back to the greeting: {}", other.name()),
    }
}

#[test]
fn transport_answers_input_out_of_place_with_a_bad_sequence() {
    let mut t = ActTransport::new(DebugSink);
    t.feed(SmtpInput::Command(0, 6, SmtpCommand::Quit));
    match t.into_state() {
        State::New(mut m) => {
            assert_eq!(m.next_reply(), Some(SmtpReply::CommandSequenceFailure));
            assert_eq!(m.next_reply(), None);
        },
        other => panic!("moved: {}", other.name()),
    }
}

#[test]
fn transport_state_names() {
    let t = ActTransport::new(DebugSink);
    assert_eq!(t.into_state().name(), "New");
    let mut t = ActTransport::new(DebugSink);
    feed_all(&mut t, transaction().into_iter().take(2).collect());
    assert_eq!(t.into_state().name(), "Helo");
}

#[test]
fn cradle_turns_and_gives_back() {
    let mut c = Cradle::from(1u32);
    let r = c.turn(|x| (x + 1, x * 10));
    assert_eq!(r, 10);
    assert_eq!(c.into(), 2);
}

#[test]
fn cradle_lets_the_value_be_worked_on_in_place() {
    let mut c = Cradle::from(vec![1u8]);
    let n = c.touch(|v| {
        v.push(2);
        v.len()
    });
    assert_eq!(n, 2);
    assert_eq!(c.into(), vec![1, 2]);
}

#[test]
fn input_moved_keeps_its_length() {
    let i = SmtpInput::Command(3, 5, SmtpCommand::Quit).pos(9);
    assert_eq!(i, SmtpInput::Command(9, 5, SmtpCommand::Quit));
    assert_eq!(i.len(), 5);
    assert_eq!(i.pos(1).pos(2), SmtpInput::Command(2, 5, SmtpCommand::Quit));
    assert_eq!(SmtpInput::Disconnect.pos(4), SmtpInput::Disconnect);
    assert_eq!(SmtpInput::StreamStart(0).pos(4).len(), 0);
}
