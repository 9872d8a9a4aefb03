use ibgateway::codec::{
    DoubleField, OptionalDoubleField, RequestMessage, ResponseMessage, INFINITY_STR,
    UNSET_DOUBLE, UNSET_INTEGER,
};
use ibgateway::errors::IbError;
use ibgateway::fields::{encode_option_field, TagValue, ToField};
use ibgateway::messages::IncomingMessages;

#[test]
fn encode_joins_fields_with_nul_and_trailing_nul() {
    let mut msg = RequestMessage::new();
    msg.push_field(&String::from("a"));
    msg.push_field(&String::from("b"));
    msg.push_field(&String::from(""));
    assert_eq!(msg.encode(), "a\0b\0\0");
    assert_eq!(msg.len(), 3);
    assert_eq!(msg.field(1), "b");
}

#[test]
fn empty_message_encodes_to_nothing() {
    let msg = RequestMessage::new();
    assert_eq!(msg.encode(), "");
}

#[test]
fn request_message_from_ignores_its_argument() {
    let msg = RequestMessage::from(&vec![String::from("ignored")]);
    assert_eq!(msg.len(), 0);
}

#[test]
fn decode_splits_on_nul() {
    let msg = ResponseMessage::from("150\x001699999999\x00");
    assert_eq!(msg.i, 0);
    assert_eq!(msg.fields, vec!["150".to_string(), "1699999999".to_string()]);
}

#[test]
fn decode_without_trailing_terminator_keeps_last_field() {
    let msg = ResponseMessage::from("a\0b");
    assert_eq!(msg.fields, vec!["a".to_string(), "b".to_string()]);
}

#[test]
fn decode_of_empty_text_gives_no_fields() {
    let msg = ResponseMessage::from("");
    assert!(msg.fields.is_empty());
    assert_eq!(msg.message_type(), IncomingMessages::NotValid);
}

#[test]
fn round_trip_decode_of_encode() {
    let fields = ["10", "17", "", "hello world", "-42", "0.0"];
    let mut msg = RequestMessage::new();
    for f in fields {
        msg.push_field(&f);
    }
    let decoded = ResponseMessage::from(&msg.encode());
    let expect: Vec<String> = fields.iter().map(|f| f.to_string()).collect();
    assert_eq!(decoded.fields, expect);
}

#[test]
fn round_trip_encode_of_decode() {
    let wire = "52\x001\x0017\x00";
    let msg = ResponseMessage::from(wire);
    assert_eq!(msg.encode(), wire);
}

#[test]
fn next_int_parses_and_advances() {
    let mut msg = ResponseMessage::from("42\0-7\0");
    assert_eq!(msg.next_int().unwrap(), 42);
    assert_eq!(msg.next_int().unwrap(), -7);
    assert_eq!(msg.i, 2);
}

#[test]
fn next_int_failure_carries_index_and_text() {
    let mut msg = ResponseMessage::from("abc\0");
    match msg.next_int() {
        Err(IbError::Parse { index, text }) => {
            assert_eq!(index, 1);
            assert_eq!(text, "abc");
        }
        other => panic!("expected a parse error, got {:?}", other),
    }
    assert_eq!(msg.i, 1);
}

#[test]
fn next_optional_int_unset_sentinel_is_absent_at_any_position() {
    let mut msg = ResponseMessage::from("7\x002147483647\x00\x002147483647\x00");
    msg.skip();
    assert_eq!(msg.next_optional_int().unwrap(), None);
    assert_eq!(msg.next_optional_int().unwrap(), None);
    assert_eq!(msg.next_optional_int().unwrap(), None);
    assert_eq!(UNSET_INTEGER, "2147483647");
}

#[test]
fn next_optional_int_present_value() {
    let mut msg = ResponseMessage::from("31\0");
    assert_eq!(msg.next_optional_int().unwrap(), Some(31));
}

#[test]
fn next_optional_int_bad_text_is_a_parse_error() {
    let mut msg = ResponseMessage::from("x1\0");
    assert!(matches!(msg.next_optional_int(), Err(IbError::Parse { .. })));
}

#[test]
fn next_bool_is_true_only_for_one() {
    let mut msg = ResponseMessage::from("1\x000\x00true\x00\x00");
    assert!(msg.next_bool().unwrap());
    assert!(!msg.next_bool().unwrap());
    assert!(!msg.next_bool().unwrap());
    assert!(!msg.next_bool().unwrap());
}

#[test]
fn next_long_parses_wide_values() {
    let mut msg = ResponseMessage::from("9223372036854775807\0-1\0");
    assert_eq!(msg.next_long().unwrap(), i64::MAX);
    assert_eq!(msg.next_long().unwrap(), -1);
}

#[test]
fn next_string_hands_back_raw_text() {
    let mut msg = ResponseMessage::from("DU1234,DU5678\0");
    assert_eq!(msg.next_string().unwrap(), "DU1234,DU5678");
}

#[test]
fn peek_int_does_not_advance() {
    let msg = ResponseMessage::from("10\x0017\x00");
    assert_eq!(msg.peek_int(1).unwrap(), 17);
    assert_eq!(msg.i, 0);
}

#[test]
fn skip_and_reset_move_the_cursor() {
    let mut msg = ResponseMessage::from("a\0b\0");
    msg.skip();
    assert_eq!(msg.i, 1);
    msg.reset();
    assert_eq!(msg.i, 0);
}

#[test]
fn required_double_zero_forms_all_decode_to_zero() {
    let mut msg = ResponseMessage::from("\x000\x000.0\x003.25\x00");
    for _ in 0..3 {
        assert_eq!(msg.next_double_field().unwrap(), DoubleField::Zero);
    }
    match msg.next_double_field().unwrap() {
        DoubleField::Text(t) => assert_eq!(t.parse::<f64>().unwrap(), 3.25),
        other => panic!("expected text, got {:?}", other),
    }
}

#[test]
fn optional_double_empty_is_absent_not_zero() {
    let mut required = ResponseMessage::from("\x00");
    assert_eq!(required.next_double_field().unwrap(), DoubleField::Zero);
    let mut optional = ResponseMessage::from("\x00");
    assert_eq!(
        optional.next_optional_double_field().unwrap(),
        OptionalDoubleField::Absent
    );
}

#[test]
fn optional_double_sentinels() {
    let text = format!("{}\x00{}\x00-2.5\x00", UNSET_DOUBLE, INFINITY_STR);
    let mut msg = ResponseMessage::from(&text);
    assert_eq!(
        msg.next_optional_double_field().unwrap(),
        OptionalDoubleField::Absent
    );
    assert_eq!(
        msg.next_optional_double_field().unwrap(),
        OptionalDoubleField::Infinite
    );
    assert_eq!(f64::INFINITY, "Infinity".parse::<f64>().unwrap());
    match msg.next_optional_double_field().unwrap() {
        OptionalDoubleField::Text(t) => assert_eq!(t.parse::<f64>().unwrap(), -2.5),
        other => panic!("expected text, got {:?}", other),
    }
}

#[test]
fn message_type_reads_the_first_field() {
    assert_eq!(
        ResponseMessage::from("10\x00").message_type(),
        IncomingMessages::ContractData
    );
    assert_eq!(
        ResponseMessage::from("9\x00").message_type(),
        IncomingMessages::NextValidId
    );
    assert_eq!(
        ResponseMessage::from("junk\x00").message_type(),
        IncomingMessages::NotValid
    );
    assert_eq!(
        ResponseMessage::from("123456\x00").message_type(),
        IncomingMessages::NotValid
    );
}

#[test]
fn request_id_uses_the_offset_table() {
    let msg = ResponseMessage::from("10\x0017\x00");
    assert_eq!(msg.request_id().unwrap(), 17);
    let end = ResponseMessage::from("52\x001\x0099\x00");
    assert_eq!(end.request_id().unwrap(), 99);
    let global = ResponseMessage::from("9\x001\x0055\x00");
    assert!(matches!(global.request_id(), Err(IbError::NoRequestId)));
    let bad = ResponseMessage::from("10\x00seventeen\x00");
    assert!(matches!(bad.request_id(), Err(IbError::Parse { .. })));
}

#[test]
fn next_date_time_parses_epoch_seconds() {
    let mut msg = ResponseMessage::from("1699999999\x00");
    let when = msg.next_date_time().unwrap();
    assert_eq!(when.unix_timestamp(), 1699999999);
}

#[test]
fn next_date_time_range_boundaries() {
    let mut msg = ResponseMessage::from(
        "-377705116800\x00253402300799\x00-377705116801\x00253402300800\x00notanumber\x00",
    );
    assert!(msg.next_date_time().is_ok());
    assert!(msg.next_date_time().is_ok());
    assert!(matches!(
        msg.next_date_time(),
        Err(IbError::TimestampOutOfRange { .. })
    ));
    assert!(matches!(
        msg.next_date_time(),
        Err(IbError::TimestampOutOfRange { .. })
    ));
    assert!(matches!(msg.next_date_time(), Err(IbError::Parse { .. })));
}

#[test]
fn to_field_encodings() {
    assert_eq!(true.to_field(), "1");
    assert_eq!(false.to_field(), "0");
    assert_eq!(42i32.to_field(), "42");
    assert_eq!((-7i32).to_field(), "-7");
    assert_eq!(0i32.to_field(), "0");
    assert_eq!(5usize.to_field(), "5");
    assert_eq!(String::from("text").to_field(), "text");
    assert_eq!("slice".to_field(), "slice");
    assert_eq!(Some(3i32).to_field(), "3");
    assert_eq!(None::<i32>.to_field(), "");
    assert_eq!(encode_option_field(&Some(9i32)), "9");
    assert_eq!(encode_option_field(&None::<i32>), "");
}

#[test]
fn tag_value_list_encodes_as_pairs() {
    let tags = vec![
        TagValue {
            tag: String::from("minSize"),
            value: String::from("100"),
        },
        TagValue {
            tag: String::from("venue"),
            value: String::from("X"),
        },
    ];
    assert_eq!(tags.to_field(), "minSize=100;venue=X;");
    let empty: Vec<TagValue> = Vec::new();
    assert_eq!(empty.to_field(), "");
}

#[test]
fn default_request_message_is_empty() {
    let msg: RequestMessage = Default::default();
    assert_eq!(msg.len(), 0);
    assert_eq!(msg.encode(), "");
}
