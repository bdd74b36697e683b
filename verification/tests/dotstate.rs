use samotop::protocol::smtp::dotstate;
use samotop::protocol::smtp::DotState::{End, Escape, Wait};

#[test]
fn dotstate_handles_empty_line() {
    let r = dotstate(b".\r\n", true);
    assert_eq!(r, End(3));
    let r = dotstate(b"\n.\n", false);
    assert_eq!(r, End(3));
    let r = dotstate(b"\r\n.\r\n", false);
    assert_eq!(r, End(5));
}

#[test]
fn dotstate_handles_escape_dot() {
    let r = dotstate(b"..\r\n", true);
    assert_eq!(r, Escape(0));
    let r = dotstate(b".xxx\r\n", true);
    assert_eq!(r, Escape(0));
    let r = dotstate(b"\r\n..\r\n", false);
    assert_eq!(r, Escape(2));
    let r = dotstate(b"\r\n.xxx\r\n", false);
    assert_eq!(r, Escape(2));
    let r = dotstate(b"\n..\n", false);
    assert_eq!(r, Escape(1));
    let r = dotstate(b"\n.xxx\n", false);
    assert_eq!(r, Escape(1));
}

#[test]
fn dotstate_handles_missing_bytes() {
    let r = dotstate(b".", true);
    assert_eq!(r, Wait);
    let r = dotstate(b".\r", true);
    assert_eq!(r, Wait);
    let r = dotstate(b"\r", false);
    assert_eq!(r, Wait);
    let r = dotstate(b"\r\n", false);
    assert_eq!(r, Wait);
    let r = dotstate(b"\r\n.", false);
    assert_eq!(r, Wait);
    let r = dotstate(b"\r\n.\r", false);
    assert_eq!(r, Wait);
}
