use ibgateway::client::{Client, IBClient, MessageBus, START_API};
use ibgateway::codec::{RequestMessage, ResponseMessage};
use ibgateway::correlator::TakeResult;
use ibgateway::errors::IbError;
use ibgateway::stub::StubMessageBus;

fn handshake_stub() -> StubMessageBus {
    let mut bus = StubMessageBus::new();
    bus.script_frame(ResponseMessage::from("150\x001699999999\x00"));
    bus
}

#[test]
fn handshake_negotiates_version_and_time() {
    let client = IBClient::connect(handshake_stub()).unwrap();
    assert_eq!(client.server_version, 150);
    assert_eq!(client.server_time, "1699999999");
}

#[test]
fn handshake_writes_marker_and_version_range() {
    let client = IBClient::connect(handshake_stub()).unwrap();
    assert_eq!(client.message_bus.raw_writes, vec!["API\x00".to_string()]);
    assert_eq!(client.message_bus.framed_writes[0], "v100..177\x00");
}

#[test]
fn start_api_frame_carries_capability_field_above_threshold() {
    let client = IBClient::connect(handshake_stub()).unwrap();
    // negotiated 150 > 119: code, shape version, client id, empty capability
    assert_eq!(client.message_bus.framed_writes[1], "71\x002\x00100\x00\x00");
    assert_eq!(START_API, 71);

    let mut low = StubMessageBus::new();
    low.script_frame(ResponseMessage::from("110\x00t\x00"));
    let older = IBClient::connect(low).unwrap();
    assert_eq!(older.message_bus.framed_writes[1], "71\x002\x00100\x00");
}

#[test]
fn connect_starts_the_reader_with_the_negotiated_version() {
    let client = IBClient::connect(handshake_stub()).unwrap();
    assert_eq!(client.message_bus.dispatch_version, Some(150));
}

#[test]
fn handshake_fails_without_a_parsable_version() {
    let mut bus = StubMessageBus::new();
    bus.script_frame(ResponseMessage::from("not-a-version\x00t\x00"));
    assert!(matches!(IBClient::connect(bus), Err(IbError::Handshake)));

    let mut short = StubMessageBus::new();
    short.script_frame(ResponseMessage::from("150\x00"));
    assert!(matches!(IBClient::connect(short), Err(IbError::Handshake)));

    let empty = StubMessageBus::new();
    assert!(matches!(IBClient::connect(empty), Err(IbError::Transport)));
}

#[test]
fn startup_messages_populate_session_state() {
    let mut bus = handshake_stub();
    bus.dispatch(ResponseMessage::from("9\x001\x0055\x00"));
    bus.dispatch(ResponseMessage::from("15\x001\x00DU1234,DU5678\x00"));
    let client = IBClient::connect(bus).unwrap();
    assert_eq!(client.next_valid_order_id, 55);
    assert_eq!(client.managed_accounts, "DU1234,DU5678");
}

#[test]
fn missing_startup_messages_leave_a_degraded_ready_session() {
    let client = IBClient::connect(handshake_stub()).unwrap();
    assert_eq!(client.next_valid_order_id, 0);
    assert_eq!(client.managed_accounts, "");
}

#[test]
fn request_ids_increase_monotonically() {
    let mut client = IBClient::connect(handshake_stub()).unwrap();
    let a = client.next_request_id();
    let b = client.next_request_id();
    assert_eq!(a, 9001);
    assert_eq!(b, 9002);
    assert_eq!(Client::server_version(&client), 150);
}

#[test]
fn version_gate_fails_exactly_above_the_negotiated_version() {
    let client = IBClient::connect(handshake_stub()).unwrap();
    assert!(client.check_server_version(150, "feature").is_ok());
    assert!(client.check_server_version(1, "feature").is_ok());
    match client.check_server_version(151, "tick-by-tick data") {
        Err(IbError::Capability { required, actual, context }) => {
            assert_eq!(required, 151);
            assert_eq!(actual, 150);
            assert_eq!(context, "tick-by-tick data");
        }
        other => panic!("expected a capability error, got {:?}", other),
    }
    // a failed gate writes nothing: only handshake and start-API frames
    assert_eq!(client.message_bus.framed_writes.len(), 2);
}

#[test]
fn request_reply_roundtrip_with_terminal_type() {
    let mut client = IBClient::connect(handshake_stub()).unwrap();
    let mut req = RequestMessage::new();
    req.push_field(&"lookup");
    let promise = client.send_request(17, req).unwrap();
    assert_eq!(promise.correlation_id, 17);

    // the reader receives a terminal frame whose offset-1 field is "17"
    client
        .message_bus
        .dispatch(ResponseMessage::from("79\x0017\x00AAPL\x00"));

    match client.try_take(&promise) {
        TakeResult::Frame(frame) => assert_eq!(frame.fields, vec!["79", "17", "AAPL"]),
        other => panic!("expected the reply frame, got {:?}", other),
    }
    assert!(matches!(client.try_take(&promise), TakeResult::Closed));
}

#[test]
fn orders_share_the_correlation_table() {
    let mut client = IBClient::connect(handshake_stub()).unwrap();
    let promise = client.send_order(31, RequestMessage::new()).unwrap();
    assert_eq!(promise.correlation_id, 31);
    client
        .message_bus
        .dispatch(ResponseMessage::from("10\x0031\x00fill\x00"));
    assert!(matches!(client.try_take(&promise), TakeResult::Frame(_)));
}

#[test]
fn unsolicited_frame_reaches_only_the_global_destination() {
    let mut bus = StubMessageBus::new();
    bus.dispatch(ResponseMessage::from("4\x002\x00321\x00api notice\x00"));
    // no id was ever registered, so any handle-side draw reports closed
    let ghostly = ibgateway::client::ResponsePacketPromise { correlation_id: 1 };
    assert!(matches!(bus.try_take(&ghostly), TakeResult::Closed));
    match bus.poll_global() {
        Some(frame) => assert_eq!(frame.fields[3], "api notice"),
        None => panic!("expected the notice on the global destination"),
    }
    assert_eq!(bus.poll_global(), None);
}

#[test]
fn send_message_registers_nothing() {
    let mut client = IBClient::connect(handshake_stub()).unwrap();
    let mut packet = RequestMessage::new();
    packet.push_field(&99i32);
    client.send_message(packet).unwrap();
    assert_eq!(client.message_bus.framed_writes[2], "99\x00");
    client
        .message_bus
        .dispatch(ResponseMessage::from("10\x0099\x00x\x00"));
    let unregistered = ibgateway::client::ResponsePacketPromise { correlation_id: 99 };
    assert!(matches!(client.try_take(&unregistered), TakeResult::Closed));
}
