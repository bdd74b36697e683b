use samotop::grammar::smtp::{command, host, script, session};
use samotop::model::command::SmtpAddress;
use samotop::model::command::SmtpCommand;
use samotop::model::command::SmtpHelo;
use samotop::model::command::SmtpHost;
use samotop::model::command::SmtpInput;
use samotop::model::command::SmtpMail;
use samotop::model::command::SmtpPath;

fn bytes(s: &str) -> Vec<u8> {
    s.as_bytes().to_vec()
}

fn domain(s: &str) -> SmtpHost {
    SmtpHost::Domain(s.to_string())
}

fn helo_mail_rcpt_quit() -> Vec<SmtpInput> {
    vec![
        SmtpInput::Command(0, 17, SmtpCommand::Helo(SmtpHelo::Helo(domain("domain.com")))),
        SmtpInput::Command(
            17,
            26,
            SmtpCommand::Mail(SmtpMail::Mail(SmtpPath::Direct(SmtpAddress::Mailbox(
                "me".to_string(),
                domain("there.net"),
            )))),
        ),
        SmtpInput::Command(
            43,
            44,
            SmtpCommand::Rcpt(SmtpPath::Relay(
                vec![domain("relay.net")],
                SmtpAddress::Mailbox("him".to_string(), domain("unreachable.local")),
            )),
        ),
        SmtpInput::Command(87, 6, SmtpCommand::Quit),
    ]
}

const HELO_MAIL_RCPT_QUIT: &str =
    "helo domain.com\r\nmail from:<me@there.net>\r\nrcpt to:<@relay.net:him@unreachable.local>\r\nquit\r\n";

#[test]
fn smtp_script_parses_unknown_command() {
    let result = script("sOmE other command\r\n").unwrap();
    assert_eq!(result, vec![SmtpInput::Invalid(0, 20, bytes("sOmE other command\r\n"))]);
}

#[test]
fn smtp_host_parses_unknown_host() {
    let result = host("who:what").unwrap();
    assert_eq!(
        result,
        SmtpHost::Other { label: "who".to_string(), literal: "what".to_string() }
    );
}

#[test]
fn cmd_parser_starttls() {
    let result = command("STARTTLS\r\n").unwrap();
    assert_eq!(result, SmtpCommand::StartTls);
}

#[test]
fn smtp_script_parses_whitespace_line() {
    let result = script("   \r\n\t\t\r\n").unwrap();
    assert_eq!(
        result,
        vec![
            SmtpInput::Blank(0, 5, "   \r\n".to_string()),
            SmtpInput::Blank(5, 4, "\t\t\r\n".to_string()),
        ]
    );
}

#[test]
fn smtp_session_parses_helo() {
    let result = session("helo domain.com\r\n").unwrap();
    assert_eq!(
        result,
        vec![SmtpInput::Command(0, 17, SmtpCommand::Helo(SmtpHelo::Helo(domain("domain.com"))))]
    );
}

#[test]
fn smtp_session_parses_data() {
    let result = session("DATA\r\n ěšě\r\nš\nčš").unwrap();
    assert_eq!(
        result,
        vec![
            SmtpInput::Command(0, 6, SmtpCommand::Data),
            SmtpInput::Invalid(6, 9, bytes(" ěšě\r\n")),
            SmtpInput::Invalid(15, 3, bytes("š\n")),
            SmtpInput::Incomplete(18, 4, bytes("čš")),
        ]
    );
}

#[test]
fn smtp_session_parses_wrong_newline() {
    let result = session("QUIT\nQUIT\r\nquit\r\n").unwrap();
    assert_eq!(
        result,
        vec![
            SmtpInput::Command(0, 5, SmtpCommand::Quit),
            SmtpInput::Command(5, 6, SmtpCommand::Quit),
            SmtpInput::Command(11, 6, SmtpCommand::Quit),
        ]
    );
}

#[test]
fn smtp_session_parses_incomplete_command() {
    let result = session("QUIT\r\nQUI").unwrap();
    assert_eq!(
        result,
        vec![SmtpInput::Command(0, 6, SmtpCommand::Quit), SmtpInput::Incomplete(6, 3, bytes("QUI"))]
    );
}

#[test]
fn smtp_session_parses_helo_mail_rcpt_quit() {
    let result = session(HELO_MAIL_RCPT_QUIT).unwrap();
    assert_eq!(result, helo_mail_rcpt_quit());
}

#[test]
fn grammar_script_parses_unknown_command() {
    let result = script("sOmE other command\r\n").unwrap();
    assert_eq!(result, vec![SmtpInput::Invalid(0, 20, bytes("sOmE other command\r\n"))]);
}

#[test]
fn grammar_host_parses_unknown_host() {
    let result = host("who:what").unwrap();
    assert_eq!(
        result,
        SmtpHost::Other { label: "who".to_string(), literal: "what".to_string() }
    );
}

#[test]
fn grammar_script_parses_whitespace_line() {
    let result = script("   \r\n\t\t\r\n").unwrap();
    assert_eq!(
        result,
        vec![
            SmtpInput::Blank(0, 5, "   \r\n".to_string()),
            SmtpInput::Blank(5, 4, "\t\t\r\n".to_string()),
        ]
    );
}

#[test]
fn grammar_session_parses_helo() {
    let result = session("helo domain.com\r\n").unwrap();
    assert_eq!(
        result,
        vec![SmtpInput::Command(0, 17, SmtpCommand::Helo(SmtpHelo::Helo(domain("domain.com"))))]
    );
}

#[test]
fn grammar_session_parses_data() {
    let result = session("DATA\r\n ěšě\r\nš\nčš").unwrap();
    assert_eq!(
        result,
        vec![
            SmtpInput::Command(0, 6, SmtpCommand::Data),
            SmtpInput::Invalid(6, 9, bytes(" ěšě\r\n")),
            SmtpInput::Invalid(15, 3, bytes("š\n")),
            SmtpInput::Incomplete(18, 4, bytes("čš")),
        ]
    );
}

#[test]
fn grammar_session_parses_incomplete_command() {
    let result = session("QUIT\r\nQUI").unwrap();
    assert_eq!(
        result,
        vec![SmtpInput::Command(0, 6, SmtpCommand::Quit), SmtpInput::Incomplete(6, 3, bytes("QUI"))]
    );
}

#[test]
fn grammar_session_parses_helo_mail_rcpt_quit() {
    let result = session(HELO_MAIL_RCPT_QUIT).unwrap();
    assert_eq!(result, helo_mail_rcpt_quit());
}
