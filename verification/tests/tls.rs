use samotop::model::tls::{next_mode, Signal, TlsConfig, TlsMode};
use samotop::protocol::tls::{Handshake, TlsCapable, TlsError, TlsPoll};

#[test]
fn tls_is_off_by_default() {
    let c = TlsConfig::default();
    assert_eq!(c.mode, TlsMode::Disabled);
    assert_eq!(c.id.file, "Samotop.pfx");
    assert_eq!(c.id.password, None);
}

#[test]
fn tls_without_an_identity_file_is_disabled() {
    let mut c = TlsConfig::default();
    c.mode = TlsMode::StartTlsOptional;
    assert_eq!(c.clone().check_identity(true).mode, TlsMode::StartTlsOptional);
    assert_eq!(c.check_identity(false).mode, TlsMode::Disabled);
}

#[test]
fn tls_mode_follows_the_signal() {
    assert_eq!(next_mode(TlsMode::StartTlsOptional, Signal::Received), TlsMode::Enabled);
    assert_eq!(next_mode(TlsMode::StartTlsRquired, Signal::Empty), TlsMode::StartTlsRquired);
    assert_eq!(next_mode(TlsMode::StartTlsOptional, Signal::Disconnected), TlsMode::Disabled);
    assert_eq!(next_mode(TlsMode::Disabled, Signal::Received), TlsMode::Disabled);
    assert_eq!(next_mode(TlsMode::Enabled, Signal::Disconnected), TlsMode::Enabled);
}

#[test]
fn tls_switch_goes_from_session_to_stream() {
    let mut c = TlsConfig::default();
    c.mode = TlsMode::StartTlsOptional;
    let (controll, mut worker) = c.parts();
    assert_eq!(controll.mode(), TlsMode::StartTlsOptional);
    assert!(!worker.should_start_tls());
    assert!(controll.start_tls());
    assert!(worker.should_start_tls());
    assert_eq!(worker.mode(), TlsMode::Enabled);
    assert_eq!(worker.id().file, "Samotop.pfx");
}

#[test]
fn tls_disabled_sends_no_signal() {
    let (controll, mut worker) = TlsConfig::default().parts();
    assert!(!controll.start_tls());
    assert!(!worker.should_start_tls());
}

#[test]
fn tls_worker_without_a_session_turns_tls_off() {
    let mut c = TlsConfig::default();
    c.mode = TlsMode::StartTlsRquired;
    let (controll, mut worker) = c.parts();
    drop(controll);
    assert_eq!(worker.mode(), TlsMode::Disabled);
}

type Conn = TlsCapable<u8, u16, u32, u64>;

#[test]
fn tls_starts_where_enabled() {
    let mut c: Conn = TlsCapable::new(1, Some(2));
    assert_eq!(c.start_tls(|io, a| io as u32 + a as u32), Ok(()));
    assert!(matches!(c, TlsCapable::HandShake(3)));
    assert!(matches!(c.poll_tls(|h| Handshake::<u32, u64, String>::Pending(h + 1)), TlsPoll::Pending));
    assert!(matches!(c, TlsCapable::HandShake(4)));
    assert!(matches!(c.poll_tls(|h| Handshake::<u32, u64, String>::Done(h as u64 * 2)), TlsPoll::Ready));
    assert!(matches!(c, TlsCapable::Encrypted(8)));
    assert_eq!(c.start_tls(|_, _| 0), Err(TlsError::AlreadyOn));
    assert!(matches!(c, TlsCapable::Failed));
}

#[test]
fn tls_refused_on_plain_text_fails_the_connection() {
    let mut c: Conn = TlsCapable::new(1, None);
    assert!(matches!(c.poll_tls(|h| Handshake::<u32, u64, String>::Pending(h)), TlsPoll::Ready));
    assert_eq!(c.start_tls(|_, _| 0), Err(TlsError::NotEnabled));
    assert!(matches!(c.poll_tls(|h| Handshake::<u32, u64, String>::Pending(h)), TlsPoll::Failed));
    assert_eq!(c.start_tls(|_, _| 0), Err(TlsError::SetupFailed));
}

#[test]
fn tls_failed_handshake_fails_the_connection() {
    let mut c: Conn = TlsCapable::new(1, Some(1));
    c.start_tls(|_, _| 5).unwrap();
    assert_eq!(c.start_tls(|_, _| 0), Err(TlsError::HandshakeInProgress));
    let mut c: Conn = TlsCapable::new(1, Some(1));
    c.start_tls(|_, _| 5).unwrap();
    match c.poll_tls(|_| Handshake::<u32, u64, String>::Failed("bad".to_string())) {
        TlsPoll::HandshakeFailed(e) => assert_eq!(e, "bad"),
        _ => panic!("the handshake did not fail"),
    }
    assert!(matches!(c, TlsCapable::Failed));
}

#[test]
fn tls_mode_once_settled_stays() {
    for first in [Signal::Received, Signal::Disconnected] {
        let settled = next_mode(TlsMode::StartTlsOptional, first);
        for then in [Signal::Received, Signal::Empty, Signal::Disconnected] {
            assert_eq!(next_mode(settled, then), settled);
        }
    }
}

#[test]
fn tls_upgrade_only_when_asked_and_signalled() {
    let mut c = TlsConfig::default();
    c.mode = TlsMode::StartTlsOptional;
    let (controll, mut worker) = c.parts();
    assert!(controll.start_tls());
    assert!(!worker.upgrade_now(false));
    assert!(worker.upgrade_now(true));
    let mut c = TlsConfig::default();
    c.mode = TlsMode::Enabled;
    let (_controll, mut worker) = c.parts();
    assert!(worker.upgrade_now(true));
    let (_controll, mut worker) = TlsConfig::default().parts();
    assert!(!worker.upgrade_now(true));
}
