use ibgateway::codec::ResponseMessage;
use ibgateway::correlator::{Correlator, RouteOutcome, TakeResult};

fn contract_data(id: i32, payload: &str) -> ResponseMessage {
    ResponseMessage::from(&format!("10\x00{}\x00{}\x00", id, payload))
}

#[test]
fn frames_for_one_id_come_out_in_push_order() {
    let mut table = Correlator::new();
    table.register(5);
    for k in 0..4 {
        let outcome = table.route(contract_data(5, &format!("p{}", k)));
        assert_eq!(outcome, RouteOutcome::Delivered(5));
    }
    for k in 0..4 {
        match table.try_take(5) {
            TakeResult::Frame(frame) => assert_eq!(frame.fields[2], format!("p{}", k)),
            other => panic!("expected frame {}, got {:?}", k, other),
        }
    }
    assert!(matches!(table.try_take(5), TakeResult::Pending));
}

#[test]
fn no_cross_talk_between_ids() {
    let mut table = Correlator::new();
    table.register(1);
    table.register(2);
    assert_eq!(table.route(contract_data(1, "for-one")), RouteOutcome::Delivered(1));
    assert!(matches!(table.try_take(2), TakeResult::Pending));
    match table.try_take(1) {
        TakeResult::Frame(frame) => assert_eq!(frame.fields[2], "for-one"),
        other => panic!("expected a frame, got {:?}", other),
    }
}

#[test]
fn cancellation_then_late_frame_is_a_silent_drop() {
    let mut table = Correlator::new();
    table.register(8);
    table.close(8);
    let outcome = table.route(contract_data(8, "late"));
    assert_eq!(outcome, RouteOutcome::Dropped);
    assert!(matches!(table.try_take(8), TakeResult::Closed));
}

#[test]
fn frames_queued_before_cancellation_are_not_lost_to_other_ids() {
    let mut table = Correlator::new();
    table.register(1);
    table.register(2);
    table.route(contract_data(1, "a"));
    table.close(2);
    match table.try_take(1) {
        TakeResult::Frame(frame) => assert_eq!(frame.fields[2], "a"),
        other => panic!("expected a frame, got {:?}", other),
    }
}

#[test]
fn terminal_frame_closes_the_stream_after_delivery() {
    let mut table = Correlator::new();
    table.register(17);
    table.route(contract_data(17, "body"));
    let end = ResponseMessage::from("52\x001\x0017\x00");
    assert_eq!(table.route(end), RouteOutcome::Delivered(17));
    assert!(matches!(table.try_take(17), TakeResult::Frame(_)));
    assert!(matches!(table.try_take(17), TakeResult::Frame(_)));
    assert!(matches!(table.try_take(17), TakeResult::Closed));
    let late = contract_data(17, "after-end");
    assert_eq!(table.route(late), RouteOutcome::Dropped);
}

#[test]
fn unknown_id_is_dropped() {
    let mut table = Correlator::new();
    assert_eq!(table.route(contract_data(99, "x")), RouteOutcome::Dropped);
}

#[test]
fn unparsable_id_field_is_dropped() {
    let mut table = Correlator::new();
    table.register(3);
    let bad = ResponseMessage::from("10\x00three\x00x\x00");
    assert_eq!(table.route(bad), RouteOutcome::Dropped);
    let short = ResponseMessage::from("10\x00");
    assert_eq!(table.route(short), RouteOutcome::Dropped);
}

#[test]
fn global_types_go_to_the_global_destination() {
    let mut table = Correlator::new();
    table.register(4);
    let notice = ResponseMessage::from("4\x002\x00321\x00warning\x00");
    assert_eq!(table.route(notice), RouteOutcome::DeliveredGlobal);
    assert!(matches!(table.try_take(4), TakeResult::Pending));
    match table.take_global() {
        TakeResult::Frame(frame) => assert_eq!(frame.fields[3], "warning"),
        other => panic!("expected a frame, got {:?}", other),
    }
    assert!(matches!(table.take_global(), TakeResult::Pending));
}

#[test]
fn failure_closes_every_stream_but_keeps_queued_frames() {
    let mut table = Correlator::new();
    table.register(1);
    table.route(contract_data(1, "kept"));
    table.fail_all();
    match table.try_take(1) {
        TakeResult::Frame(frame) => assert_eq!(frame.fields[2], "kept"),
        other => panic!("expected a frame, got {:?}", other),
    }
    assert!(matches!(table.try_take(1), TakeResult::Closed));
    assert!(matches!(table.take_global(), TakeResult::Closed));
    assert_eq!(table.route(contract_data(1, "later")), RouteOutcome::Dropped);
    let notice = ResponseMessage::from("4\x002\x000\x00gone\x00");
    assert_eq!(table.route(notice), RouteOutcome::Dropped);
}

#[test]
fn reregistering_an_id_resets_its_queue() {
    let mut table = Correlator::new();
    table.register(6);
    table.route(contract_data(6, "stale"));
    table.register(6);
    assert!(matches!(table.try_take(6), TakeResult::Pending));
}

#[test]
fn interleaved_ids_each_keep_their_own_order() {
    let mut table = Correlator::new();
    table.register(1);
    table.register(2);
    table.route(contract_data(1, "a1"));
    table.route(contract_data(2, "b1"));
    table.route(contract_data(1, "a2"));
    table.route(contract_data(2, "b2"));
    for expect in ["a1", "a2"] {
        match table.try_take(1) {
            TakeResult::Frame(frame) => assert_eq!(frame.fields[2], expect),
            other => panic!("expected {}, got {:?}", expect, other),
        }
    }
    for expect in ["b1", "b2"] {
        match table.try_take(2) {
            TakeResult::Frame(frame) => assert_eq!(frame.fields[2], expect),
            other => panic!("expected {}, got {:?}", expect, other),
        }
    }
}
