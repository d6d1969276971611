//! The history ledger and the reconciler: append/scan/mark, author
//! partitioning, and the at-least-once watermark discipline.

use change_capture::history::{ChangeType, HistoryLedger};
use change_capture::monitor::{route_entity, DataMonitor, EntityKind, Partition};

fn seeded_ledger() -> HistoryLedger {
    let mut l = HistoryLedger::new();
    l.add_record("ContactData".to_string(), 1, ChangeType::Insert, "local".to_string(), 100);
    l.add_record("MessageData".to_string(), 2, ChangeType::Insert, "sender".to_string(), 200);
    l.add_record("ContactData".to_string(), 3, ChangeType::Update, "local".to_string(), 300);
    l.add_record("ContactData".to_string(), 4, ChangeType::Delete, "local".to_string(), 400);
    l
}

#[test]
fn append_assigns_ids_and_defaults() {
    let mut l = HistoryLedger::new();
    let id1 = l.add_record("ContactData".to_string(), 9, ChangeType::Insert, "local".to_string(), 50);
    let id2 = l.add_record("ContactData".to_string(), 9, ChangeType::Update, "local".to_string(), 60);
    assert_eq!(id1, 1);
    assert_eq!(id2, 2);
    let recs = l.get_records_after(i64::MIN);
    assert_eq!(recs.len(), 2);
    assert_eq!(recs[0].id, Some(1));
    assert_eq!(recs[0].created_at, 50);
    assert_eq!(recs[0].sync_status, 0);
    assert_eq!(recs[0].try_count, 0);
    assert_eq!(recs[1].created_at, 60);
}

#[test]
fn equal_clock_readings_get_distinct_keys() {
    // two appends under a stalled clock: created_at must stay unique,
    // so the watermark attributes every key to exactly one record
    let mut l = HistoryLedger::new();
    l.add_record("ContactData".to_string(), 1, ChangeType::Insert, "local".to_string(), 100);
    l.add_record("ContactData".to_string(), 2, ChangeType::Insert, "local".to_string(), 100);
    let recs = l.get_records_after(0);
    assert_eq!(recs.len(), 2);
    assert_eq!(recs[0].created_at, 100);
    assert_eq!(recs[1].created_at, 101);
}

#[test]
fn list_since_filters_and_orders() {
    let l = seeded_ledger();
    let recs = l.get_records_after(150);
    assert_eq!(recs.len(), 3);
    assert_eq!(recs[0].created_at, 200);
    assert_eq!(recs[1].created_at, 300);
    assert_eq!(recs[2].created_at, 400);
    assert!(l.get_records_after(400).is_empty());
}

#[test]
fn idempotence_of_list_since() {
    let l = seeded_ledger();
    let first = l.get_records_after(150);
    let second = l.get_records_after(150);
    assert_eq!(first.len(), second.len());
    for (a, b) in first.iter().zip(second.iter()) {
        assert_eq!(a.id, b.id);
        assert_eq!(a.entity_name, b.entity_name);
        assert_eq!(a.entity_id, b.entity_id);
        assert_eq!(a.author, b.author);
        assert_eq!(a.created_at, b.created_at);
        assert_eq!(a.sync_status, b.sync_status);
        assert_eq!(a.try_count, b.try_count);
    }
}

#[test]
fn mark_attempted_updates_one_record() {
    let mut l = seeded_ledger();
    assert!(l.update_sync_status(2, 5));
    let recs = l.get_records_after(i64::MIN);
    assert_eq!(recs[1].sync_status, 5);
    assert_eq!(recs[1].try_count, 1);
    // the others are untouched
    assert_eq!(recs[0].sync_status, 0);
    assert_eq!(recs[0].try_count, 0);
    // marking again increments the try count
    assert!(l.update_sync_status(2, 6));
    let recs = l.get_records_after(i64::MIN);
    assert_eq!(recs[1].sync_status, 6);
    assert_eq!(recs[1].try_count, 2);
    // an unknown identifier changes nothing
    assert!(!l.update_sync_status(99, 1));
}

#[test]
fn change_type_codes() {
    assert_eq!(ChangeType::Insert.code(), 0);
    assert_eq!(ChangeType::Update.code(), 1);
    assert_eq!(ChangeType::Delete.code(), 2);
    assert_eq!(ChangeType::Unknown.code(), 3);
    for c in 0..4 {
        assert_eq!(ChangeType::from_code(c).unwrap().code(), c);
    }
    let err = ChangeType::from_code(7).unwrap_err();
    assert_eq!(err, "Invalid ChangeType value: 7");
    let err = ChangeType::from_code(-1).unwrap_err();
    assert_eq!(err, "Invalid ChangeType value: -1");
}

#[test]
fn author_partitioning() {
    let mut l = HistoryLedger::new();
    l.add_record("ContactData".to_string(), 1, ChangeType::Insert, "local".to_string(), 100);
    l.add_record("ContactData".to_string(), 2, ChangeType::Insert, "sender".to_string(), 200);

    let mut m = DataMonitor::new(0);

    let local = m.pending_records(&l, Partition::Local);
    assert_eq!(local.len(), 1);
    assert_eq!(local[0].author, "local");
    let outcomes = vec![true; local.len()];
    m.apply_outcomes(Partition::Local, &local, &outcomes);

    // processing the local partition advanced only its own watermark
    assert_eq!(m.watermark_of(Partition::Local), 100);
    assert_eq!(m.watermark_of(Partition::Sender), 0);

    let sender = m.pending_records(&l, Partition::Sender);
    assert_eq!(sender.len(), 1);
    assert_eq!(sender[0].author, "sender");
    let outcomes = vec![true; sender.len()];
    m.apply_outcomes(Partition::Sender, &sender, &outcomes);

    assert_eq!(m.watermark_of(Partition::Local), 100);
    assert_eq!(m.watermark_of(Partition::Sender), 200);

    // each handler ran exactly once: both partitions are now drained
    assert!(m.pending_records(&l, Partition::Local).is_empty());
    assert!(m.pending_records(&l, Partition::Sender).is_empty());
}

#[test]
fn at_least_once_after_crash() {
    let l = seeded_ledger();  // local records at 100, 300, 400
    let mut handled = Vec::new();

    // first cycle: the second record fails, the third is still tried;
    // the watermark stops before the failed record
    let mut m = DataMonitor::new(0);
    let batch = m.pending_records(&l, Partition::Local);
    assert_eq!(batch.len(), 3);
    let outcomes = vec![true, false, true];
    for (r, ok) in batch.iter().zip(outcomes.iter()) {
        if *ok {
            handled.push(r.created_at);
        }
    }
    m.apply_outcomes(Partition::Local, &batch, &outcomes);
    assert_eq!(m.watermark_of(Partition::Local), 100);

    // the process restarts from the durable watermark
    let mut m2 = DataMonitor::new(m.watermark_of(Partition::Local));
    let batch = m2.pending_records(&l, Partition::Local);
    // the failed record and its successor are re-delivered, the
    // handled one is not
    assert_eq!(batch.iter().map(|r| r.created_at).collect::<Vec<_>>(), vec![300, 400]);
    let outcomes = vec![true, true];
    for r in batch.iter() {
        handled.push(r.created_at);
    }
    m2.apply_outcomes(Partition::Local, &batch, &outcomes);
    assert_eq!(m2.watermark_of(Partition::Local), 400);
    assert!(m2.pending_records(&l, Partition::Local).is_empty());

    // every record was handled at least once, duplicates only for the
    // record that had been tried without advancing the watermark
    assert_eq!(handled, vec![100, 400, 300, 400]);
    for want in [100, 300, 400] {
        assert!(handled.iter().filter(|t| **t == want).count() >= 1);
    }
}

#[test]
fn watermark_reset_rewinds_one_partition() {
    let mut m = DataMonitor::new(500);
    m.reset(Partition::Sender, 0);
    assert_eq!(m.watermark_of(Partition::Sender), 0);
    assert_eq!(m.watermark_of(Partition::Local), 500);
}

#[test]
fn entity_routing() {
    assert_eq!(route_entity(&"ContactData".to_string()), EntityKind::Contact);
    assert_eq!(route_entity(&"MessageData".to_string()), EntityKind::Message);
    assert_eq!(route_entity(&"SomethingElse".to_string()), EntityKind::Unrecognized);
}
