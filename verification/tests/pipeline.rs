//! The capture-and-dispatch pipeline end to end: value codec, change
//! event construction, the bounded queue, and the dispatcher's wire
//! format.

use change_capture::codec::{encode, ColumnValue};
use change_capture::dispatch::{serialize_event, DispatchOutcome, Dispatcher};
use change_capture::event::{ChangeOp, PreUpdateEvent};
use change_capture::queue::EventQueue;

fn sample_event(op: ChangeOp, rowid: i64) -> PreUpdateEvent {
    match op {
        ChangeOp::Insert => PreUpdateEvent::insert(
            "main".to_string(),
            "contact".to_string(),
            rowid,
            &vec!["a".to_string()],
        ),
        ChangeOp::Update => PreUpdateEvent::update(
            "main".to_string(),
            "contact".to_string(),
            rowid,
            &vec!["a".to_string()],
            &vec!["b".to_string()],
        ),
        ChangeOp::Delete => PreUpdateEvent::delete(
            "main".to_string(),
            "contact".to_string(),
            rowid,
            &vec!["b".to_string()],
        ),
        ChangeOp::Unknown => PreUpdateEvent::unknown("main".to_string(), "contact".to_string()),
    }
}

#[test]
fn codec_round_trip_legibility() {
    assert_eq!(encode(&ColumnValue::Blob(vec![1, 2, 3])), "AQID");
    assert_eq!(encode(&ColumnValue::Integer(42)), "42");
    assert_eq!(encode(&ColumnValue::Null), "NULL");
}

#[test]
fn codec_more_values() {
    assert_eq!(encode(&ColumnValue::Integer(0)), "0");
    assert_eq!(encode(&ColumnValue::Integer(-7)), "-7");
    assert_eq!(encode(&ColumnValue::Integer(i64::MIN)), "-9223372036854775808");
    assert_eq!(encode(&ColumnValue::Integer(i64::MAX)), "9223372036854775807");
    assert_eq!(encode(&ColumnValue::Real("3.5".to_string())), "3.5");
    assert_eq!(encode(&ColumnValue::Text("hello".to_string())), "hello");
    assert_eq!(encode(&ColumnValue::Blob(vec![])), "");
    assert_eq!(encode(&ColumnValue::Blob(vec![0xff])), "/w==");
    assert_eq!(encode(&ColumnValue::Blob(vec![0xff, 0xfe])), "//4=");
    assert_eq!(encode(&ColumnValue::Blob(b"hello world~".to_vec())), "aGVsbG8gd29ybGR+");
}

#[test]
fn event_shape_invariant() {
    let ins = sample_event(ChangeOp::Insert, 1);
    assert!(ins.old_values.is_none());
    assert!(ins.new_values.is_some());

    let upd = sample_event(ChangeOp::Update, 1);
    let old = upd.old_values.as_ref().expect("update must carry old values");
    let new = upd.new_values.as_ref().expect("update must carry new values");
    assert_eq!(old.len(), new.len());

    let del = sample_event(ChangeOp::Delete, 1);
    assert!(del.new_values.is_none());
    assert!(del.old_values.is_some());

    let unk = sample_event(ChangeOp::Unknown, 0);
    assert!(unk.old_values.is_none());
    assert!(unk.new_values.is_none());
    assert_eq!(unk.rowid, 0);
}

#[test]
fn positional_column_labels() {
    let e = PreUpdateEvent::insert(
        "main".to_string(),
        "contact".to_string(),
        1,
        &vec!["x".to_string(), "y".to_string(), "z".to_string()],
    );
    let cols = e.new_values.unwrap();
    assert_eq!(cols[0], ("col_0".to_string(), "x".to_string()));
    assert_eq!(cols[1], ("col_1".to_string(), "y".to_string()));
    assert_eq!(cols[2], ("col_2".to_string(), "z".to_string()));
}

#[test]
fn wire_format_exact() {
    let e = PreUpdateEvent::insert(
        "main".to_string(),
        "contact".to_string(),
        7,
        &vec!["NULL".to_string(), "42".to_string()],
    );
    assert_eq!(
        serialize_event(&e),
        r#"{"db_name":"main","table":"contact","operation":"INSERT","rowid":7,"old_values":null,"new_values":[["col_0","NULL"],["col_1","42"]]}"#
    );

    let u = PreUpdateEvent::unknown("main".to_string(), "t".to_string());
    assert_eq!(
        serialize_event(&u),
        r#"{"db_name":"main","table":"t","operation":"UNKNOWN","rowid":0,"old_values":null,"new_values":null}"#
    );
}

#[test]
fn wire_format_escapes_strings() {
    let e = PreUpdateEvent::insert(
        "main".to_string(),
        "ta\"b\\le".to_string(),
        1,
        &vec!["line\nbreak\ttab\u{1}".to_string()],
    );
    let json = serialize_event(&e);
    assert_eq!(
        json,
        "{\"db_name\":\"main\",\"table\":\"ta\\\"b\\\\le\",\"operation\":\"INSERT\",\"rowid\":1,\"old_values\":null,\"new_values\":[[\"col_0\",\"line\\nbreak\\ttab\\u0001\"]]}"
    );
    // the payload is exactly what a JSON decoder reproduces
    let v: serde_json::Value = serde_json::from_str(&json).expect("payload must parse");
    assert_eq!(v["table"], "ta\"b\\le");
    assert_eq!(v["new_values"][0][1], "line\nbreak\ttab\u{1}");
}

#[test]
fn dispatcher_non_blocking() {
    let mut q = EventQueue::new(3);
    let mut accepted = 0;
    let mut dropped = 0;
    for i in 0..10 {
        // each send returns immediately: it either enqueues or drops
        if q.try_send(sample_event(ChangeOp::Insert, i)) {
            accepted += 1;
        } else {
            dropped += 1;
        }
    }
    assert_eq!(accepted, 3);
    assert_eq!(dropped, 7);
    assert_eq!(q.len(), 3);
}

#[test]
fn queue_is_fifo() {
    let mut q = EventQueue::new(8);
    for i in 0..4 {
        assert!(q.try_send(sample_event(ChangeOp::Insert, i)));
    }
    for i in 0..4 {
        let e = q.recv().expect("queued event");
        assert_eq!(e.rowid, i);
    }
    assert!(q.recv().is_none());
}

#[test]
fn zero_capacity_queue_drops_everything() {
    let mut q = EventQueue::new(0);
    assert!(!q.try_send(sample_event(ChangeOp::Insert, 1)));
    assert!(q.recv().is_none());
}

#[test]
fn dispatcher_tolerates_missing_callback() {
    let mut d = Dispatcher::new(16);
    assert!(d.submit(sample_event(ChangeOp::Insert, 1)));
    assert!(d.submit(sample_event(ChangeOp::Update, 1)));

    // no callback registered: the first event is dropped silently
    match d.step() {
        DispatchOutcome::Skipped => {},
        _ => panic!("expected the event to be skipped"),
    }

    // registration at any time; in-flight events are kept
    d.set_callback_registered(true);
    match d.step() {
        DispatchOutcome::Deliver(payload) => {
            assert!(payload.contains("\"operation\":\"UPDATE\""));
        },
        _ => panic!("expected a delivery"),
    }

    match d.step() {
        DispatchOutcome::Idle => {},
        _ => panic!("expected an idle step on the empty queue"),
    }
}

#[test]
fn insert_update_delete_scenario() {
    // three mutations of one row, in program order, through the queue
    let mut d = Dispatcher::new(100);
    d.set_callback_registered(true);
    let rowid = 11;
    assert!(d.submit(PreUpdateEvent::insert(
        "main".to_string(),
        "contact".to_string(),
        rowid,
        &vec!["John".to_string()],
    )));
    assert!(d.submit(PreUpdateEvent::update(
        "main".to_string(),
        "contact".to_string(),
        rowid,
        &vec!["John".to_string()],
        &vec!["Jane".to_string()],
    )));
    assert!(d.submit(PreUpdateEvent::delete(
        "main".to_string(),
        "contact".to_string(),
        rowid,
        &vec!["Jane".to_string()],
    )));

    let mut payloads = Vec::new();
    loop {
        match d.step() {
            DispatchOutcome::Deliver(p) => payloads.push(p),
            DispatchOutcome::Idle => break,
            DispatchOutcome::Skipped => panic!("callback is registered"),
        }
    }
    assert_eq!(payloads.len(), 3);
    assert!(payloads[0].contains("\"operation\":\"INSERT\""));
    assert!(payloads[1].contains("\"operation\":\"UPDATE\""));
    assert!(payloads[2].contains("\"operation\":\"DELETE\""));
    for p in &payloads {
        assert!(p.contains("\"rowid\":11"));
        let v: serde_json::Value = serde_json::from_str(p).expect("payload must parse");
        match v["operation"].as_str().unwrap() {
            "INSERT" => {
                assert!(v["old_values"].is_null());
                assert!(!v["new_values"].is_null());
            },
            "UPDATE" => {
                let old = v["old_values"].as_array().unwrap();
                let new = v["new_values"].as_array().unwrap();
                assert_eq!(old.len(), new.len());
            },
            "DELETE" => {
                assert!(v["new_values"].is_null());
                assert!(!v["old_values"].is_null());
            },
            other => panic!("unexpected operation {other}"),
        }
    }
}
