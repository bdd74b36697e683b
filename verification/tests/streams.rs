use std::collections::VecDeque;

use samotop::grammar::parser::SmtpParser;
use samotop::model::command::{SmtpCommand, SmtpConnection, SmtpInput};
use samotop::model::controll::{ClientControll, ServerControll};
use samotop::model::io::{Connection, ReadControl};
use samotop::model::response::SmtpReply;
use samotop::protocol::connection::WithConnection;
use samotop::protocol::fuse::Fuse;
use samotop::protocol::machine::Machine;
use samotop::protocol::parse::Parse;
use samotop::protocol::peer::WithPeer;
use samotop::protocol::through::ThroughStream;
use samotop::protocol::transport::{InitFrameTransport, SmtpBaseProto, SmtpConnectTransport, SmtpProto};

/// A stand-in for a transport: frames to read and replies written.
#[derive(Debug, Default, PartialEq)]
struct MockTransport {
    stream: VecDeque<u8>,
    sink: Vec<i32>,
}

type Sut = InitFrameTransport<MockTransport, u8>;

fn poll(sut: &mut Sut) -> Option<u8> {
    match sut.next_frame() {
        Some(f) => Some(f),
        None => sut.upstream_mut().stream.pop_front(),
    }
}

#[test]
fn new_creates() {
    let upstream = MockTransport::default();
    let _sut = Sut::new(upstream, 1);
}

#[test]
fn poll_pops_initframe_from_stream() {
    let mut upstream = MockTransport::default();
    upstream.stream.push_back(2);
    let mut sut = Sut::new(upstream, 1);
    assert_eq!(poll(&mut sut), Some(1));
}

#[test]
fn poll_pops_nextframe_from_stream() {
    let mut upstream = MockTransport::default();
    upstream.stream.push_back(2);
    let mut sut = Sut::new(upstream, 1);
    poll(&mut sut);
    assert_eq!(poll(&mut sut), Some(2));
}

#[test]
fn sink_passes_frame() {
    let upstream = MockTransport::default();
    let mut sut = Sut::new(upstream, 1);
    sut.upstream_mut().sink.push(3);
    assert_eq!(sut.upstream().sink, vec![3]);
}

#[test]
fn base_proto_sends_the_connection_first() {
    let mut t = SmtpBaseProto.bind_transport(MockTransport::default(), Some("l".to_string()), None);
    assert_eq!(
        t.next_frame(),
        Some(SmtpInput::Connect(SmtpConnection {
            local_name: String::new(),
            local_addr: Some("l".to_string()),
            peer_addr: None,
        }))
    );
    assert_eq!(t.next_frame(), None);
}

#[test]
fn connect_transport_sends_the_connection_once() {
    let mut t: SmtpConnectTransport<MockTransport> = SmtpProto.bind_transport(MockTransport::default(), None, Some("p".to_string()));
    assert!(matches!(t.next_frame(), Some(SmtpInput::Connect(_))));
    assert_eq!(t.next_frame(), None);
    assert_eq!(t.upstream(), &MockTransport::default());
}

#[test]
fn fuse_ends_after_shutdown() {
    let mut f = Fuse::new(());
    assert_eq!(f.pass(Some(ClientControll::Noop)), Some(ClientControll::Noop));
    assert!(!f.is_tripped());
    assert_eq!(f.pass(Some(ClientControll::Shutdown)), Some(ClientControll::Shutdown));
    assert!(f.is_tripped());
}

#[test]
fn peer_is_connected_first_and_shut_down_once() {
    let mut p = WithPeer::new((), Some("l".to_string()), Some("p".to_string()));
    assert_eq!(
        p.connect(),
        Some(ServerControll::PeerConnected { local: Some("l".to_string()), peer: Some("p".to_string()) })
    );
    assert_eq!(p.connect(), None);
    assert_eq!(p.pass(Some(ServerControll::PeerShutdown)), Some(ServerControll::PeerShutdown));
    assert_eq!(p.pass(None), Some(ServerControll::PeerShutdown));
    assert_eq!(p.pass(None), None);
}

#[test]
fn connection_is_announced_first_and_shut_down_once() {
    let c = Connection { local_addr: Some("l".to_string()), peer_addr: None };
    let mut w = WithConnection::new((), c.clone());
    assert_eq!(w.connect(), Some(ReadControl::PeerConnected(c)));
    assert_eq!(w.connect(), None);
    assert_eq!(w.pass(Some(ReadControl::NoOp)), Some(ReadControl::NoOp));
    assert_eq!(w.pass(None), Some(ReadControl::PeerShutdown));
    assert_eq!(w.pass(None), None);
}

#[test]
fn machine_answers_each_control() {
    let mut m = Machine::new((), "mx".to_string());
    assert_eq!(m.answer(), None);
    let a = m.controll(ServerControll::PeerConnected { local: None, peer: None });
    assert_eq!(a, Some(ClientControll::Reply(SmtpReply::ServiceReadyInfo("mx".to_string()))));
    assert_eq!(m.controll(ServerControll::EscapeDot(vec![b'.'])), None);
}

#[test]
fn parse_reads_unknown_lines_as_commands() {
    let p = Parse::new((), SmtpParser::new());
    assert_eq!(
        p.parse_item(ServerControll::Command(SmtpCommand::Unknown("quit\r\n".to_string()))),
        ServerControll::Command(SmtpCommand::Quit)
    );
    assert_eq!(
        p.parse_item(ServerControll::Command(SmtpCommand::Unknown("what\r\n".to_string()))),
        ServerControll::Command(SmtpCommand::Unknown("what\r\n".to_string()))
    );
    assert_eq!(p.parse_item(ServerControll::PeerShutdown), ServerControll::PeerShutdown);
}

#[test]
fn through_stream_drops_the_finished_forwarding() {
    let mut t = ThroughStream::new(1, 2);
    assert!(t.is_forwarding());
    t.forward_finished();
    assert!(!t.is_forwarding());
}

#[test]
fn connection_run_announces_connection_items_and_one_shutdown() {
    let c = Connection { local_addr: None, peer_addr: Some("p".to_string()) };
    let mut w = WithConnection::new((), c.clone());
    let mut stream = vec![Some(ReadControl::NoOp), Some(ReadControl::Raw(vec![1])), None, None, None].into_iter();
    let mut out = Vec::new();
    for _ in 0..6 {
        match w.connect() {
            Some(x) => out.push(Some(x)),
            None => out.push(w.pass(stream.next().unwrap())),
        }
    }
    assert_eq!(
        out,
        vec![
            Some(ReadControl::PeerConnected(c)),
            Some(ReadControl::NoOp),
            Some(ReadControl::Raw(vec![1])),
            Some(ReadControl::PeerShutdown),
            None,
            None,
        ]
    );
}
