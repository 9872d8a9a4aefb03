use ibgateway::client::{version_range_field, IBClient, MAX_SERVER_VERSION, MIN_SERVER_VERSION};
use ibgateway::codec::ResponseMessage;
use ibgateway::errors::IbError;
use ibgateway::stub::StubMessageBus;

#[test]
fn version_range_field_spells_both_bounds() {
    assert_eq!(version_range_field(), "v100..177");
    assert_eq!(MIN_SERVER_VERSION, 100);
    assert_eq!(MAX_SERVER_VERSION, 177);
}

#[test]
fn int_parse_accepts_signs_and_leading_zeros() {
    let mut msg = ResponseMessage::from("+5\x00-0\x00007\x00");
    assert_eq!(msg.next_int().unwrap(), 5);
    assert_eq!(msg.next_int().unwrap(), 0);
    assert_eq!(msg.next_int().unwrap(), 7);
}

#[test]
fn int_parse_rejects_overflow_and_junk() {
    let mut msg = ResponseMessage::from("2147483648\x001.5\x00 1\x00\x00");
    for _ in 0..4 {
        assert!(matches!(msg.next_int(), Err(IbError::Parse { .. })));
    }
    let mut edge = ResponseMessage::from("2147483647\x00-2147483648\x00");
    assert_eq!(edge.next_int().unwrap(), i32::MAX);
    assert_eq!(edge.next_int().unwrap(), i32::MIN);
}

#[test]
fn long_parse_rejects_overflow() {
    let mut msg = ResponseMessage::from("9223372036854775808\x00");
    assert!(matches!(msg.next_long(), Err(IbError::Parse { .. })));
}

#[test]
fn apply_handshake_reply_is_all_or_nothing() {
    let mut client = IBClient {
        server_version: 0,
        server_time: String::new(),
        next_valid_order_id: 0,
        managed_accounts: String::new(),
        client_id: 100,
        message_bus: StubMessageBus::new(),
        next_request_id: 9000,
    };
    let bad = ResponseMessage::from("v150\x00t\x00");
    assert!(matches!(
        client.apply_handshake_reply(bad),
        Err(IbError::Handshake)
    ));
    assert_eq!(client.server_version, 0);

    let good = ResponseMessage::from("150\x001699999999\x00extra\x00");
    assert!(client.apply_handshake_reply(good).is_ok());
    assert_eq!(client.server_version, 150);
    assert_eq!(client.server_time, "1699999999");
}

#[test]
fn apply_startup_message_ignores_malformed_announcements() {
    let mut client = IBClient {
        server_version: 150,
        server_time: String::new(),
        next_valid_order_id: 0,
        managed_accounts: String::new(),
        client_id: 100,
        message_bus: StubMessageBus::new(),
        next_request_id: 9000,
    };
    client.apply_startup_message(ResponseMessage::from("9\x001\x00"));
    client.apply_startup_message(ResponseMessage::from("9\x001\x00soon\x00"));
    client.apply_startup_message(ResponseMessage::from("4\x002\x00321\x00notice\x00"));
    assert_eq!(client.next_valid_order_id, 0);
    assert_eq!(client.managed_accounts, "");
    client.apply_startup_message(ResponseMessage::from("9\x001\x0042\x00"));
    assert_eq!(client.next_valid_order_id, 42);
}
