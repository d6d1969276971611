//! The history ledger: an append-only, durable table of entity-level
//! change records driving downstream synchronization. Records receive a
//! monotonically increasing identifier and a strictly increasing
//! `created_at` key, so that a watermark scan attributes every
//! timestamp to exactly one record and skips nothing.

use vstd::prelude::*;
use crate::text::{int_digits, i64_to_dec_string};

verus! {

/// The kind of entity-level change a history record reports.
#[derive(Clone, Copy, Debug, PartialEq, Eq, Structural)]
pub enum ChangeType {
    Insert,
    Update,
    Delete,
    Unknown,
}

impl ChangeType {
    /// The stable integer code a record stores: insert 0, update 1,
    /// delete 2, unknown 3.
    pub open spec fn code_spec(self) -> int {
        match self {
            ChangeType::Insert => 0,
            ChangeType::Update => 1,
            ChangeType::Delete => 2,
            ChangeType::Unknown => 3,
        }
    }

    /// The stored integer code of this change kind.
    pub fn code(&self) -> (c: i64)
        ensures
            c == self.code_spec(),
    {
        match self {
            ChangeType::Insert => 0,
            ChangeType::Update => 1,
            ChangeType::Delete => 2,
            ChangeType::Unknown => 3,
        }
    }

    /// The change kind for a stored integer code. Every code in
    /// `0..=3` maps to its kind; any other code is rejected with a
    /// message naming the offending value.
    pub fn from_code(value: i64) -> (r: Result<ChangeType, String>)
        ensures
            0 <= value <= 3 ==> (r matches Ok(ct) && ct.code_spec() == value),
            !(0 <= value <= 3) ==> (r matches Err(m) && m@ == "Invalid ChangeType value: "@
                + int_digits(value as int)),
    {
        if value == 0 {
            Ok(ChangeType::Insert)
        } else if value == 1 {
            Ok(ChangeType::Update)
        } else if value == 2 {
            Ok(ChangeType::Delete)
        } else if value == 3 {
            Ok(ChangeType::Unknown)
        } else {
            let mut m = String::from_str("Invalid ChangeType value: ");
            let num = i64_to_dec_string(value);
            m.append(num.as_str());
            Err(m)
        }
    }
}

/// One durable entity-level change record. Only `sync_status` and
/// `try_count` are ever mutated after the append.
pub struct HistoryRecord {
    /// Auto-assigned, monotonically increasing; `None` only before the
    /// record is stored.
    pub id: Option<i64>,
    /// The logical entity type, e.g. `ContactData` or `MessageData`.
    pub entity_name: String,
    /// The 16-byte identifier of the affected entity.
    pub entity_id: u128,
    pub change_type: ChangeType,
    /// Distinguishes local-origin changes from remotely received ones.
    pub author: String,
    /// Ledger ordering key and resumption watermark, in clock ticks.
    pub created_at: i64,
    /// Application-defined synchronization progress marker.
    pub sync_status: i64,
    /// Number of delivery attempts, incremented on each retry.
    pub try_count: i64,
}

/// `created_at` is strictly increasing along the ledger, so every
/// timestamp belongs to exactly one record.
pub open spec fn chronological(s: Seq<HistoryRecord>) -> bool {
    forall|i: int, j: int|
        0 <= i < j < s.len() ==> #[trigger] s[i].created_at < #[trigger] s[j].created_at
}

/// The records of `s` with `created_at` strictly after `t`, in ledger
/// order.
pub open spec fn records_after(s: Seq<HistoryRecord>, t: i64) -> Seq<HistoryRecord>
    decreases s.len(),
{
    if s.len() == 0 {
        Seq::empty()
    } else if s[0].created_at > t {
        seq![s[0]] + records_after(s.skip(1), t)
    } else {
        records_after(s.skip(1), t)
    }
}

/// `records_after` distributes over concatenation.
pub proof fn lemma_records_after_concat(a: Seq<HistoryRecord>, b: Seq<HistoryRecord>, t: i64)
    ensures
        records_after(a + b, t) == records_after(a, t) + records_after(b, t),
    decreases a.len(),
{
    if a.len() == 0 {
        assert(a + b =~= b);
        assert(records_after(a, t) + records_after(b, t) =~= records_after(b, t));
    } else {
        lemma_records_after_concat(a.skip(1), b, t);
        assert((a + b)[0] == a[0]);
        assert((a + b).skip(1) =~= a.skip(1) + b);
        if a[0].created_at > t {
            assert(seq![a[0]] + (records_after(a.skip(1), t) + records_after(b, t)) =~= (seq![a[0]]
                + records_after(a.skip(1), t)) + records_after(b, t));
        }
    }
}

/// `list_since` is idempotent: two results of the same query against
/// the same ledger state are the same sequence.
pub proof fn lemma_records_after_idempotent(
    r1: Seq<HistoryRecord>,
    r2: Seq<HistoryRecord>,
    s: Seq<HistoryRecord>,
    t: i64,
)
    requires
        r1 == records_after(s, t),
        r2 == records_after(s, t),
    ensures
        r1 == r2,
{
}

/// The persistent history ledger. Appends assign the identifier and
/// the `created_at` key; identifiers are never reused and `created_at`
/// never repeats.
pub struct HistoryLedger {
    records: Vec<HistoryRecord>,
    last_created_at: i64,
}

impl HistoryLedger {
    /// The stored records in append order.
    pub closed spec fn records(self) -> Seq<HistoryRecord> {
        self.records@
    }

    /// The `created_at` key assigned last, `i64::MIN` before the first
    /// append.
    pub closed spec fn last_created(self) -> i64 {
        self.last_created_at
    }

    /// Ledger invariant: identifiers are the positions counted from
    /// one, `created_at` is strictly increasing, and the cached last
    /// key closes the sequence.
    pub open spec fn wf(self) -> bool {
        &&& forall|i: int|
            0 <= i < self.records().len() ==> (#[trigger] self.records()[i]).id == Some(
                (i + 1) as i64,
            )
        &&& chronological(self.records())
        &&& self.records().len() == 0 ==> self.last_created() == i64::MIN
        &&& self.records().len() > 0 ==> self.last_created() == self.records().last().created_at
        &&& self.records().len() <= i64::MAX
    }

    /// An empty ledger.
    pub fn new() -> (l: HistoryLedger)
        ensures
            l.wf(),
            l.records() == Seq::<HistoryRecord>::empty(),
            l.last_created() == i64::MIN,
    {
        HistoryLedger { records: Vec::new(), last_created_at: i64::MIN }
    }

    /// How many records the ledger holds.
    pub fn len(&self) -> (n: usize)
        ensures
            n == self.records().len(),
    {
        self.records.len()
    }

    /// The `created_at` key assigned last.
    pub fn last_created_ts(&self) -> (t: i64)
        ensures
            t == self.last_created(),
    {
        self.last_created_at
    }

    /// A copy of the record at a position.
    pub fn record_at(&self, i: usize) -> (r: HistoryRecord)
        requires
            i < self.records().len(),
        ensures
            r == self.records()[i as int],
    {
        let rec = &self.records[i];
        HistoryRecord {
            id: rec.id,
            entity_name: rec.entity_name.clone(),
            entity_id: rec.entity_id,
            change_type: rec.change_type,
            author: rec.author.clone(),
            created_at: rec.created_at,
            sync_status: rec.sync_status,
            try_count: rec.try_count,
        }
    }

    /// Appends one record. The ledger assigns the identifier (position
    /// counted from one), `sync_status` zero, `try_count` zero, and the
    /// `created_at` key: the supplied clock reading `now`, pushed up to
    /// one past the previous key when the clock has not advanced, so
    /// the key remains strictly increasing.
    pub fn add_record(
        &mut self,
        entity_name: String,
        entity_id: u128,
        change_type: ChangeType,
        author: String,
        now: i64,
    ) -> (id: i64)
        requires
            old(self).wf(),
            now < i64::MAX,
            old(self).last_created() < i64::MAX,
            old(self).records().len() < i64::MAX,
        ensures
            final(self).wf(),
            id == old(self).records().len() + 1,
            final(self).last_created() == (if now > old(self).last_created() {
                now as int
            } else {
                old(self).last_created() + 1
            }),
            final(self).last_created() > old(self).last_created(),
            final(self).records() == old(self).records().push(
                (HistoryRecord {
                    id: Some(id),
                    entity_name,
                    entity_id,
                    change_type,
                    author,
                    created_at: final(self).last_created() as i64,
                    sync_status: 0,
                    try_count: 0,
                }),
            ),
    {
        let created_at: i64 = if now > self.last_created_at {
            now
        } else {
            self.last_created_at + 1
        };
        let id: i64 = (self.records.len() as i64) + 1;
        let rec = HistoryRecord {
            id: Some(id),
            entity_name,
            entity_id,
            change_type,
            author,
            created_at,
            sync_status: 0,
            try_count: 0,
        };
        self.records.push(rec);
        self.last_created_at = created_at;
        proof {
            let s = old(self).records();
            if s.len() > 0 {
                assert forall|i: int| 0 <= i < s.len() implies (#[trigger] s[i]).created_at
                    <= old(self).last_created() by {
                    if i < s.len() - 1 {
                        assert(s[i].created_at < s[s.len() - 1].created_at);
                    }
                }
            }
            assert(chronological(self.records()));
        }
        id
    }

    /// All records with `created_at` strictly after `after_ts`, in
    /// ascending `created_at` order — the incremental, restartable scan
    /// the reconciler drives. Querying twice without intervening writes
    /// returns the same sequence.
    pub fn get_records_after(&self, after_ts: i64) -> (r: Vec<HistoryRecord>)
        ensures
            r@ == records_after(self.records(), after_ts),
    {
        let mut out: Vec<HistoryRecord> = Vec::new();
        let mut i: usize = 0;
        let n = self.records.len();
        while i < n
            invariant
                n == self.records().len(),
                i <= n,
                out@ == records_after(self.records().take(i as int), after_ts),
            decreases n - i,
        {
            let ghost prev = out@;
            let rec = &self.records[i];
            if rec.created_at > after_ts {
                out.push(self.record_at(i));
            }
            proof {
                let s = self.records();
                let single = seq![s[i as int]];
                assert(s.take(i + 1) =~= s.take(i as int) + single);
                lemma_records_after_concat(s.take(i as int), single, after_ts);
                assert(single.len() == 1);
                assert(single[0] == s[i as int]);
                assert(single.skip(1) =~= Seq::<HistoryRecord>::empty());
                assert(records_after(single.skip(1), after_ts) == Seq::<HistoryRecord>::empty());
                if s[i as int].created_at > after_ts {
                    assert(records_after(single, after_ts) == seq![single[0]] + records_after(
                        single.skip(1),
                        after_ts,
                    ));
                    assert(records_after(single, after_ts) =~= single);
                    assert(out@ =~= prev + single);
                } else {
                    assert(records_after(single, after_ts) == records_after(
                        single.skip(1),
                        after_ts,
                    ));
                }
                assert(out@ =~= records_after(s.take(i + 1), after_ts));
            }
            i = i + 1;
        }
        proof {
            assert(self.records().take(n as int) =~= self.records());
        }
        out
    }

    /// Sets `sync_status` and increments `try_count` of the record with
    /// the given identifier, in one step; used after a synchronization
    /// attempt regardless of its outcome. Returns whether a record with
    /// that identifier exists; no other record changes. The increment
    /// saturates at the integer limit.
    pub fn update_sync_status(&mut self, record_id: i64, status: i64) -> (found: bool)
        requires
            old(self).wf(),
        ensures
            final(self).wf(),
            final(self).last_created() == old(self).last_created(),
            found == (1 <= record_id <= old(self).records().len()),
            !found ==> final(self).records() == old(self).records(),
            found ==> final(self).records() == old(self).records().update(
                record_id - 1,
                (HistoryRecord {
                    sync_status: status,
                    try_count: (if old(self).records()[record_id - 1].try_count < i64::MAX {
                        (old(self).records()[record_id - 1].try_count + 1) as i64
                    } else {
                        old(self).records()[record_id - 1].try_count
                    }),
                    ..old(self).records()[record_id - 1]
                }),
            ),
    {
        if record_id >= 1 && record_id <= self.records.len() as i64 {
            let idx = (record_id - 1) as usize;
            let rec = self.record_at(idx);
            let new_try: i64 = if rec.try_count < i64::MAX {
                rec.try_count + 1
            } else {
                rec.try_count
            };
            let updated = HistoryRecord {
                sync_status: status,
                try_count: new_try,
                ..rec
            };
            self.records.set(idx, updated);
            true
        } else {
            false
        }
    }
}

} // verus!
