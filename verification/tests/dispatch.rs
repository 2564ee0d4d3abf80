use presence::dispatch::{is_mutation, reply_of, Phase, SharedOutcome};
use presence::frame::{frame_end, seal, DELIMITER};
use presence::identity::UserInfo;
use presence::policy::VisibilityKind;
use presence::registry::{Server, Visibility};
use presence::request::{
    ConnectRequest, DecodeError, DisconnectRequest, GetRequest, Request, Response, ServerError,
};

fn named(name: &str) -> UserInfo {
    UserInfo::new(Some(name.to_string()), None)
}

fn registered(server: &Server, name: &str) -> bool {
    server.lookup(&named(name), &named(name)) != Visibility::Unknown
}

fn connect(name: &str, visibility: VisibilityKind) -> Request {
    Request::Connect(ConnectRequest { info: named(name), visibility })
}

fn disconnect(name: &str) -> Request {
    Request::Disconnect(DisconnectRequest { info: named(name) })
}

fn get(requester: &str, target: &str) -> Request {
    Request::Get(GetRequest { requester: named(requester), target: named(target) })
}

#[test]
fn connect_then_get_end_to_end() {
    let mut server = Server::new();
    let first = server
        .process(b"{\"type\":\"CONNECT\",\"info\":{\"username\":\"alice\"},\"visibility\":\"All\"}");
    assert_eq!(first, b"OK");
    let second = server.process(
        b"{\"type\":\"GET\",\"requester\":{\"username\":\"bob\"},\"target\":{\"username\":\"alice\"}}",
    );
    assert_eq!(second, b"{\"target\":{\"username\":\"alice\"},\"visible\":true}");
}

#[test]
fn process_answers_a_ping() {
    let mut server = Server::new();
    assert_eq!(server.process(b"{\"type\":\"PING\"}"), b"PONG");
    assert!(!registered(&server, "alice"));
}

#[test]
fn process_reports_bad_payloads_and_keeps_the_registry() {
    let mut server = Server::new();
    server.connect(named("alice"), VisibilityKind::All);
    assert_eq!(server.process(b"{\"type\":\"SHOUT\"}"), b"{\"error\":\"UnknownType\"}");
    assert_eq!(
        server.process(b"{\"type\":\"GET\",\"requester\":{\"username\":\"bob\"}}"),
        b"{\"error\":\"Malformed\"}"
    );
    assert_eq!(server.process(b"\xff\xfe"), b"{\"error\":\"Malformed\"}");
    assert_eq!(server.process(b""), b"{\"error\":\"Malformed\"}");
    assert!(registered(&server, "alice"));
    assert!(!registered(&server, "bob"));
    assert_eq!(server.lookup(&named("bob"), &named("alice")), Visibility::Visible);
}

#[test]
fn process_hides_whether_a_target_exists() {
    let mut server = Server::new();
    server.connect(named("alice"), VisibilityKind::Nobody);
    let hidden = server.process(
        b"{\"type\":\"GET\",\"requester\":{\"username\":\"bob\"},\"target\":{\"username\":\"alice\"}}",
    );
    server.disconnect(&named("alice"));
    let unknown = server.process(
        b"{\"type\":\"GET\",\"requester\":{\"username\":\"bob\"},\"target\":{\"username\":\"alice\"}}",
    );
    assert_eq!(hidden, b"{\"target\":{\"username\":\"alice\"},\"visible\":false}");
    assert_eq!(hidden, unknown);
}

#[test]
fn process_serves_friends_only() {
    let mut server = Server::new();
    let reply = server.process(
        b"{\"type\":\"CONNECT\",\"info\":{\"username\":\"alice\"},\"visibility\":{\"FriendsOnly\":[{\"username\":\"bob\"}]}}",
    );
    assert_eq!(reply, b"OK");
    assert_eq!(
        server.process(
            b"{\"type\":\"GET\",\"requester\":{\"username\":\"bob\"},\"target\":{\"username\":\"alice\"}}"
        ),
        b"{\"target\":{\"username\":\"alice\"},\"visible\":true}"
    );
    assert_eq!(
        server.process(
            b"{\"type\":\"GET\",\"requester\":{\"username\":\"carol\"},\"target\":{\"username\":\"alice\"}}"
        ),
        b"{\"target\":{\"username\":\"alice\"},\"visible\":false}"
    );
}

#[test]
fn process_disconnect_is_acknowledged_every_time() {
    let mut server = Server::new();
    server.connect(named("alice"), VisibilityKind::All);
    let message = b"{\"type\":\"DISCONNECT\",\"info\":{\"username\":\"alice\"}}";
    assert_eq!(server.process(message), b"OK");
    assert!(!registered(&server, "alice"));
    assert_eq!(server.process(message), b"OK");
    assert!(!registered(&server, "alice"));
}

#[test]
fn process_ping_serves_pings_only() {
    let server = Server::new();
    assert_eq!(server.process_ping(Request::Ping), Ok("PONG"));
    assert_eq!(server.process_ping(disconnect("alice")), Err(ServerError::ProtocolMismatch));
    assert_eq!(server.process_ping(get("bob", "alice")), Err(ServerError::ProtocolMismatch));
}

#[test]
fn process_connect_serves_connects_only() {
    let mut server = Server::new();
    assert_eq!(server.process_connect(connect("alice", VisibilityKind::All)), Ok("OK"));
    assert!(registered(&server, "alice"));
    assert_eq!(server.process_connect(Request::Ping), Err(ServerError::ProtocolMismatch));
    assert_eq!(server.process_connect(disconnect("alice")), Err(ServerError::ProtocolMismatch));
    assert!(registered(&server, "alice"));
    assert_eq!(server.lookup(&named("bob"), &named("alice")), Visibility::Visible);
}

#[test]
fn process_disconnect_serves_disconnects_only() {
    let mut server = Server::new();
    server.connect(named("alice"), VisibilityKind::All);
    assert_eq!(
        server.process_disconnect(connect("alice", VisibilityKind::Nobody)),
        Err(ServerError::ProtocolMismatch)
    );
    assert_eq!(server.lookup(&named("bob"), &named("alice")), Visibility::Visible);
    assert_eq!(server.process_disconnect(disconnect("alice")), Ok("OK"));
    assert!(!registered(&server, "alice"));
    assert_eq!(server.process_disconnect(disconnect("alice")), Ok("OK"));
}

#[test]
fn process_get_serves_gets_only() {
    let mut server = Server::new();
    server.connect(named("alice"), VisibilityKind::FriendsOnly(vec![named("bob")]));
    match server.process_get(get("bob", "alice")) {
        Ok(found) => {
            assert_eq!(found.target, named("alice"));
            assert!(found.visible);
        }
        Err(error) => panic!("unexpected error: {:?}", error),
    }
    match server.process_get(get("carol", "alice")) {
        Ok(found) => {
            assert_eq!(found.target, named("alice"));
            assert!(!found.visible);
        }
        Err(error) => panic!("unexpected error: {:?}", error),
    }
    match server.process_get(get("bob", "zoe")) {
        Ok(found) => {
            assert_eq!(found.target, named("zoe"));
            assert!(!found.visible);
        }
        Err(error) => panic!("unexpected error: {:?}", error),
    }
    assert!(matches!(server.process_get(Request::Ping), Err(ServerError::ProtocolMismatch)));
}

#[test]
fn dispatch_routes_each_request() {
    let mut server = Server::new();
    assert!(matches!(server.dispatch(Request::Ping), Response::Pong));
    assert!(matches!(
        server.dispatch(connect("alice", VisibilityKind::All)),
        Response::Accepted
    ));
    assert!(matches!(
        server.dispatch(get("bob", "alice")),
        Response::Found(found) if found.visible && found.target == named("alice")
    ));
    assert!(matches!(server.dispatch(disconnect("alice")), Response::Accepted));
    assert!(matches!(
        server.dispatch(get("bob", "alice")),
        Response::Found(found) if !found.visible && found.target == named("alice")
    ));
}

#[test]
fn an_exchange_runs_through_its_phases() {
    let mut server = Server::new();
    let message =
        b"{\"type\":\"CONNECT\",\"info\":{\"username\":\"alice\"},\"visibility\":\"All\"}".to_vec();
    let phase = server.advance(Phase::Decoding(message));
    assert!(matches!(&phase, Phase::Dispatching(Request::Connect(_))));
    assert!(!registered(&server, "alice"));
    let phase = server.advance(phase);
    assert!(matches!(&phase, Phase::Encoding(Response::Accepted)));
    assert!(registered(&server, "alice"));
    let phase = server.advance(phase);
    assert!(matches!(&phase, Phase::Done(reply) if reply == b"OK"));
    let phase = server.advance(phase);
    assert!(matches!(&phase, Phase::Done(reply) if reply == b"OK"));
    assert!(registered(&server, "alice"));
}

#[test]
fn a_bad_message_goes_straight_to_the_end() {
    let mut server = Server::new();
    let phase = server.advance(Phase::Decoding(b"{\"type\":\"SHOUT\"}".to_vec()));
    assert!(matches!(&phase, Phase::Done(reply) if reply == b"{\"error\":\"UnknownType\"}"));
    assert!(matches!(server.advance(Phase::Idle), Phase::Idle));
}

#[test]
fn receive_starts_an_idle_exchange_only() {
    let phase = Phase::Idle.receive(b"{\"type\":\"PING\"}".to_vec());
    assert!(matches!(&phase, Phase::Decoding(message) if message == b"{\"type\":\"PING\"}"));
    assert!(phase.reply().is_none());
    let phase = phase.receive(b"later".to_vec());
    assert!(matches!(&phase, Phase::Decoding(message) if message == b"{\"type\":\"PING\"}"));
    let done = Phase::Done(b"OK".to_vec()).receive(b"later".to_vec());
    assert_eq!(done.reply(), Some(&b"OK".to_vec()));
    assert!(Phase::Idle.reply().is_none());
}

#[test]
fn a_decode_error_becomes_a_server_error() {
    assert_eq!(
        ServerError::from(DecodeError::UnknownType),
        ServerError::Decode(DecodeError::UnknownType)
    );
    assert_eq!(
        ServerError::from(DecodeError::Malformed),
        ServerError::Decode(DecodeError::Malformed)
    );
}

#[test]
fn replies_hold_no_delimiter() {
    let mut server = Server::new();
    let reply = server.process(
        b"{\"type\":\"GET\",\"requester\":{},\"target\":{\"username\":\"a\\nb\",\"address\":\"c\\u000ad\"}}",
    );
    assert_eq!(
        reply,
        b"{\"target\":{\"username\":\"a\\nb\",\"address\":\"c\\nd\"},\"visible\":false}"
    );
    assert_eq!(frame_end(&reply), None);
    assert_eq!(frame_end(&seal(reply.clone())), Some(reply.len()));
}

#[test]
fn reply_of_is_the_text_in_bytes() {
    assert_eq!(reply_of(&Response::Pong), b"PONG");
    assert_eq!(
        reply_of(&Response::Failed(ServerError::Decode(DecodeError::Malformed))),
        b"{\"error\":\"Malformed\"}"
    );
}

#[test]
fn frame_end_finds_the_first_line_feed() {
    assert_eq!(DELIMITER, b'\n');
    assert_eq!(frame_end(b""), None);
    assert_eq!(frame_end(b"abc"), None);
    assert_eq!(frame_end(b"\n"), Some(0));
    assert_eq!(frame_end(b"abc\ndef\n"), Some(3));
    assert_eq!(frame_end(b"abc\0\0\0"), None);
}

#[test]
fn seal_appends_the_delimiter() {
    assert_eq!(seal(b"OK".to_vec()), b"OK\n");
    assert_eq!(seal(Vec::new()), b"\n");
}

#[test]
fn process_frame_waits_for_a_whole_message() {
    let mut server = Server::new();
    assert!(server.process_frame(b"").is_none());
    assert!(server
        .process_frame(b"{\"type\":\"CONNECT\",\"info\":{\"username\":\"alice\"},\"visib")
        .is_none());
    assert!(server.process_frame(b"{\"type\":\"PING\"}\0\0\0\0").is_none());
    assert!(!registered(&server, "alice"));
}

#[test]
fn process_frame_serves_the_first_message_only() {
    let mut server = Server::new();
    let buffer = b"{\"type\":\"CONNECT\",\"info\":{\"username\":\"alice\"},\"visibility\":\"All\"}\n{\"type\":\"DISCONNECT\",\"info\":{\"username\":\"alice\"}}\n";
    let exchange = server.process_frame(buffer).expect("a whole message");
    assert_eq!(exchange.reply, b"OK\n");
    assert_eq!(exchange.consumed, 66);
    assert!(registered(&server, "alice"));
    let exchange = server.process_frame(&buffer[exchange.consumed..]).expect("a whole message");
    assert_eq!(exchange.reply, b"OK\n");
    assert_eq!(exchange.consumed, buffer.len() - 66);
    assert!(!registered(&server, "alice"));
}

#[test]
fn process_frame_is_not_misled_by_padding() {
    let mut server = Server::new();
    let mut buffer = b"{\"type\":\"PING\"}\n".to_vec();
    buffer.resize(2048, 0);
    let exchange = server.process_frame(&buffer).expect("a whole message");
    assert_eq!(exchange.reply, b"PONG\n");
    assert_eq!(exchange.consumed, 16);
}

#[test]
fn process_frame_reports_an_empty_line() {
    let mut server = Server::new();
    let exchange = server.process_frame(b"\n").expect("a whole message");
    assert_eq!(exchange.reply, b"{\"error\":\"Malformed\"}\n");
    assert_eq!(exchange.consumed, 1);
}

#[test]
fn is_mutation_names_connect_and_disconnect() {
    assert!(is_mutation(&connect("alice", VisibilityKind::All)));
    assert!(is_mutation(&disconnect("alice")));
    assert!(!is_mutation(&Request::Ping));
    assert!(!is_mutation(&get("bob", "alice")));
}

#[test]
fn observe_serves_what_changes_nothing() {
    let mut server = Server::new();
    server.connect(named("alice"), VisibilityKind::All);
    assert!(matches!(server.observe(Request::Ping), Ok(Response::Pong)));
    assert!(matches!(
        server.observe(get("bob", "alice")),
        Ok(Response::Found(found)) if found.visible && found.target == named("alice")
    ));
    assert!(matches!(
        server.observe(disconnect("alice")),
        Err(Request::Disconnect(request)) if request.info == named("alice")
    ));
    assert!(matches!(
        server.observe(connect("bob", VisibilityKind::Nobody)),
        Err(Request::Connect(request)) if request.info == named("bob")
    ));
    assert!(registered(&server, "alice"));
    assert!(!registered(&server, "bob"));
}

#[test]
fn process_shared_answers_as_process_does() {
    let mut server = Server::new();
    server.connect(named("alice"), VisibilityKind::FriendsOnly(vec![named("bob")]));
    for message in [
        &b"{\"type\":\"PING\"}"[..],
        b"{\"type\":\"GET\",\"requester\":{\"username\":\"bob\"},\"target\":{\"username\":\"alice\"}}",
        b"{\"type\":\"GET\",\"requester\":{\"username\":\"carol\"},\"target\":{\"username\":\"alice\"}}",
        b"{\"type\":\"SHOUT\"}",
        b"{\"type\":\"CONNECT\"}",
        b"",
    ] {
        let shared = server.process_shared(message);
        assert_eq!(shared, Some(server.process(message)));
    }
    assert_eq!(
        server.process_shared(b"{\"type\":\"DISCONNECT\",\"info\":{\"username\":\"alice\"}}"),
        None
    );
    assert_eq!(
        server.process_shared(
            b"{\"type\":\"CONNECT\",\"info\":{\"username\":\"bob\"},\"visibility\":\"All\"}"
        ),
        None
    );
    assert!(registered(&server, "alice"));
    assert!(!registered(&server, "bob"));
}

#[test]
fn process_frame_shared_leaves_mutations_to_the_writer() {
    let mut server = Server::new();
    assert!(matches!(server.process_frame_shared(b"{\"type\":\"PING\"}"), SharedOutcome::Incomplete));
    match server.process_frame_shared(b"{\"type\":\"PING\"}\nrest") {
        SharedOutcome::Served(exchange) => {
            assert_eq!(exchange.reply, b"PONG\n");
            assert_eq!(exchange.consumed, 16);
        }
        other => panic!("unexpected outcome: {:?}", other),
    }
    let buffer =
        b"{\"type\":\"CONNECT\",\"info\":{\"username\":\"alice\"},\"visibility\":\"All\"}\n";
    assert!(matches!(server.process_frame_shared(buffer), SharedOutcome::NeedsWriter));
    assert!(!registered(&server, "alice"));
    let exchange = server.process_frame(buffer).expect("a whole message");
    assert_eq!(exchange.reply, b"OK\n");
    assert!(registered(&server, "alice"));
    match server.process_frame_shared(b"oops\n") {
        SharedOutcome::Served(exchange) => {
            assert_eq!(exchange.reply, b"{\"error\":\"Malformed\"}\n");
            assert_eq!(exchange.consumed, 5);
        }
        other => panic!("unexpected outcome: {:?}", other),
    }
}
