//! The change reconciler: polls the history ledger per author
//! partition ("local" vs. "sender"), routes each unprocessed record to
//! an entity handler, and advances a per-partition watermark so that
//! handled records are not reprocessed. A failed record blocks
//! watermark advancement past it and is retried on the next cycle —
//! at-least-once delivery.

use vstd::prelude::*;
use crate::history::{chronological, HistoryLedger, HistoryRecord};

verus! {

/// The two independent reconciliation partitions of the ledger.
#[derive(Clone, Copy, Debug, PartialEq, Eq, Structural)]
pub enum Partition {
    /// Changes authored locally: every author other than `sender`.
    Local,
    /// Changes received from the remote side, authored `sender`.
    Sender,
}

/// Whether a record's author string belongs to the partition.
pub open spec fn author_matches(p: Partition, author: Seq<char>) -> bool {
    match p {
        Partition::Local => author != "sender"@,
        Partition::Sender => author == "sender"@,
    }
}

/// The records a partition still has to process: author in the
/// partition and `created_at` strictly after the watermark, in ledger
/// order.
pub open spec fn pending(s: Seq<HistoryRecord>, wm: i64, p: Partition) -> Seq<HistoryRecord>
    decreases s.len(),
{
    if s.len() == 0 {
        Seq::empty()
    } else if s[0].created_at > wm && author_matches(p, s[0].author@) {
        seq![s[0]] + pending(s.skip(1), wm, p)
    } else {
        pending(s.skip(1), wm, p)
    }
}

/// Every pending record lies after the watermark, belongs to the
/// partition, and occurs in the ledger; and every ledger record with
/// those properties is pending. Processing one partition can therefore
/// never touch a record of the other.
pub proof fn lemma_pending_characterization(s: Seq<HistoryRecord>, wm: i64, p: Partition)
    ensures
        forall|i: int|
            0 <= i < pending(s, wm, p).len() ==> (#[trigger] pending(s, wm, p)[i]).created_at > wm
                && author_matches(p, pending(s, wm, p)[i].author@) && s.contains(
                pending(s, wm, p)[i],
            ),
        forall|j: int|
            0 <= j < s.len() && (#[trigger] s[j]).created_at > wm && author_matches(p, s[j].author@)
                ==> pending(s, wm, p).contains(s[j]),
    decreases s.len(),
{
    if s.len() > 0 {
        lemma_pending_characterization(s.skip(1), wm, p);
        let rest = pending(s.skip(1), wm, p);
        assert(forall|i: int| 0 <= i < s.skip(1).len() ==> #[trigger] s.skip(1)[i] == s[i + 1]);
        assert(forall|i: int|
            0 <= i < rest.len() ==> s.skip(1).contains(#[trigger] rest[i]) ==> s.contains(rest[i]));
        if s[0].created_at > wm && author_matches(p, s[0].author@) {
            let all = pending(s, wm, p);
            assert(all == seq![s[0]] + rest);
            assert(all[0] == s[0]);
            assert(forall|i: int| 1 <= i < all.len() ==> #[trigger] all[i] == rest[i - 1]);
            assert(s.contains(s[0]));
            assert forall|j: int|
                0 <= j < s.len() && (#[trigger] s[j]).created_at > wm && author_matches(
                    p,
                    s[j].author@,
                ) implies all.contains(s[j]) by {
                if j == 0 {
                    assert(all[0] == s[j]);
                } else {
                    assert(s.skip(1)[j - 1] == s[j]);
                    assert(rest.contains(s[j]));
                    let k = choose|k: int| 0 <= k < rest.len() && rest[k] == s[j];
                    assert(all[k + 1] == s[j]);
                }
            }
        } else {
            assert forall|j: int|
                0 <= j < s.len() && (#[trigger] s[j]).created_at > wm && author_matches(
                    p,
                    s[j].author@,
                ) implies pending(s, wm, p).contains(s[j]) by {
                assert(j != 0);
                assert(s.skip(1)[j - 1] == s[j]);
            }
        }
    }
}

/// On a ledger whose records all lie after both watermarks, the two
/// scans agree: the watermark only cuts below, it never reorders.
proof fn lemma_pending_above(s: Seq<HistoryRecord>, wm1: i64, wm2: i64, p: Partition)
    requires
        forall|i: int| 0 <= i < s.len() ==> (#[trigger] s[i]).created_at > wm1,
        forall|i: int| 0 <= i < s.len() ==> (#[trigger] s[i]).created_at > wm2,
    ensures
        pending(s, wm1, p) == pending(s, wm2, p),
    decreases s.len(),
{
    if s.len() > 0 {
        assert(forall|i: int| 0 <= i < s.skip(1).len() ==> #[trigger] s.skip(1)[i] == s[i + 1]);
        lemma_pending_above(s.skip(1), wm1, wm2, p);
    }
}

/// At-least-once resumption law: after the first `k` pending records
/// of a partition have been handled and the watermark advanced to the
/// `created_at` of the `k`-th, a fresh scan returns exactly the
/// unhandled remainder — no record is skipped and no handled record is
/// returned again.
pub proof fn lemma_at_least_once_resume(s: Seq<HistoryRecord>, wm: i64, p: Partition, k: int)
    requires
        chronological(s),
        0 < k <= pending(s, wm, p).len(),
    ensures
        pending(s, pending(s, wm, p)[k - 1].created_at, p) == pending(s, wm, p).skip(k),
    decreases s.len(),
{
    let all = pending(s, wm, p);
    let cut = all[k - 1].created_at;
    lemma_pending_characterization(s, wm, p);
    assert(all[k - 1].created_at > wm);
    assert(forall|i: int| 0 <= i < s.skip(1).len() ==> #[trigger] s.skip(1)[i] == s[i + 1]);
    assert(chronological(s.skip(1)));
    if s[0].created_at > wm && author_matches(p, s[0].author@) {
        let rest = pending(s.skip(1), wm, p);
        assert(all == seq![s[0]] + rest);
        if k == 1 {
            // the cut is the first pending record; everything later in
            // the ledger lies strictly above it
            assert(cut == s[0].created_at);
            assert(!(s[0].created_at > cut));
            assert(pending(s, cut, p) == pending(s.skip(1), cut, p));
            assert forall|i: int| 0 <= i < s.skip(1).len() implies (#[trigger] s.skip(1)[i]).created_at
                > cut by {
                assert(s[0].created_at < s[i + 1].created_at);
            }
            assert forall|i: int| 0 <= i < s.skip(1).len() implies (#[trigger] s.skip(1)[i]).created_at
                > wm by {
                assert(s[0].created_at < s[i + 1].created_at);
            }
            // records above the cut are above the old watermark too
            lemma_pending_above(s.skip(1), wm, cut, p);
            assert(all.skip(1) =~= rest);
        } else {
            lemma_at_least_once_resume(s.skip(1), wm, p, k - 1);
            assert(forall|i: int| 1 <= i < all.len() ==> #[trigger] all[i] == rest[i - 1]);
            assert(all[k - 1] == rest[k - 2]);
            // the cut lies strictly above the first ledger record
            lemma_pending_characterization(s.skip(1), wm, p);
            assert(s.skip(1).contains(rest[k - 2]));
            let j = choose|j: int| 0 <= j < s.skip(1).len() && s.skip(1)[j] == rest[k - 2];
            assert(s[j + 1].created_at == cut);
            assert(s[0].created_at < cut);
            assert(pending(s, cut, p) == pending(s.skip(1), cut, p));
            assert(all.skip(k) =~= rest.skip(k - 1));
        }
    } else {
        assert(pending(s, wm, p) == pending(s.skip(1), wm, p));
        lemma_at_least_once_resume(s.skip(1), wm, p, k);
        // the skipped head is also excluded by the advanced watermark:
        // either its author does not match, or it sits at or below the
        // old watermark, which the cut strictly exceeds
        if author_matches(p, s[0].author@) {
            assert(!(s[0].created_at > wm));
            assert(!(s[0].created_at > cut));
        }
        assert(pending(s, cut, p) == pending(s.skip(1), cut, p));
    }
}

/// The watermark after a batch: it moves record by record along the
/// successful prefix and stops at the first failure, so a failed
/// record is retried on the next cycle.
pub open spec fn advanced_watermark(wm: i64, recs: Seq<HistoryRecord>, outs: Seq<bool>) -> i64
    decreases recs.len(),
{
    if recs.len() == 0 || outs.len() == 0 || !outs[0] {
        wm
    } else {
        advanced_watermark(recs[0].created_at, recs.skip(1), outs.skip(1))
    }
}

/// Author partitioning law: the local and the sender partition never
/// see the same record — whatever the two watermarks, every record
/// pending for one partition has an author the other excludes.
pub proof fn lemma_author_partitioning(s: Seq<HistoryRecord>, wm_local: i64, wm_sender: i64)
    ensures
        forall|i: int, j: int|
            0 <= i < pending(s, wm_local, Partition::Local).len() && 0 <= j < pending(
                s,
                wm_sender,
                Partition::Sender,
            ).len() ==> (#[trigger] pending(s, wm_local, Partition::Local)[i]).author@ != (
            #[trigger] pending(s, wm_sender, Partition::Sender)[j]).author@,
{
    lemma_pending_characterization(s, wm_local, Partition::Local);
    lemma_pending_characterization(s, wm_sender, Partition::Sender);
}

/// Watermark monotonicity law: a batch of pending records — all past
/// the watermark, in ledger order — never rewinds it, whatever the
/// outcomes.
pub proof fn lemma_watermark_monotone(wm: i64, recs: Seq<HistoryRecord>, outs: Seq<bool>)
    requires
        outs.len() == recs.len(),
        chronological(recs),
        forall|i: int| 0 <= i < recs.len() ==> (#[trigger] recs[i]).created_at > wm,
    ensures
        advanced_watermark(wm, recs, outs) >= wm,
    decreases recs.len(),
{
    if recs.len() > 0 && outs[0] {
        assert(forall|i: int| 0 <= i < recs.skip(1).len() ==> #[trigger] recs.skip(1)[i] == recs[i
            + 1]);
        assert(chronological(recs.skip(1)));
        assert forall|i: int| 0 <= i < recs.skip(1).len() implies (#[trigger] recs.skip(
            1,
        )[i]).created_at > recs[0].created_at by {
            assert(recs[0].created_at < recs[i + 1].created_at);
        }
        lemma_watermark_monotone(recs[0].created_at, recs.skip(1), outs.skip(1));
    }
}

/// Batch advancement law: when the first `k` outcomes of a batch are
/// successes and the `k`-th record (if any) fails, the watermark lands
/// on the `created_at` of the last success — together with the resume
/// law, a crash or failure after `k` handled records re-delivers
/// exactly the unhandled remainder.
pub proof fn lemma_advanced_watermark_prefix(
    wm: i64,
    recs: Seq<HistoryRecord>,
    outs: Seq<bool>,
    k: int,
)
    requires
        outs.len() == recs.len(),
        0 <= k <= recs.len(),
        forall|i: int| 0 <= i < k ==> outs[i],
        k < recs.len() ==> !outs[k],
    ensures
        advanced_watermark(wm, recs, outs) == (if k == 0 {
            wm as int
        } else {
            recs[k - 1].created_at as int
        }),
    decreases recs.len(),
{
    if recs.len() > 0 && k > 0 {
        assert(forall|i: int| 0 <= i < recs.skip(1).len() ==> #[trigger] recs.skip(1)[i] == recs[i
            + 1]);
        assert(forall|i: int| 0 <= i < outs.skip(1).len() ==> #[trigger] outs.skip(1)[i] == outs[i
            + 1]);
        lemma_advanced_watermark_prefix(recs[0].created_at, recs.skip(1), outs.skip(1), k - 1);
    }
}

/// The reconciler: one watermark per partition, advancing monotonically
/// and never rewound except by an explicit reset.
pub struct DataMonitor {
    local_last_timestamp: i64,
    sender_last_timestamp: i64,
}

impl DataMonitor {
    /// The `created_at` of the last record this partition has
    /// successfully processed.
    pub closed spec fn watermark(self, p: Partition) -> i64 {
        match p {
            Partition::Local => self.local_last_timestamp,
            Partition::Sender => self.sender_last_timestamp,
        }
    }

    /// A monitor with both watermarks at `start`: every ledger record
    /// after `start` counts as unprocessed.
    pub fn new(start: i64) -> (m: DataMonitor)
        ensures
            m.watermark(Partition::Local) == start,
            m.watermark(Partition::Sender) == start,
    {
        DataMonitor { local_last_timestamp: start, sender_last_timestamp: start }
    }

    /// The current watermark of a partition.
    pub fn watermark_of(&self, p: Partition) -> (t: i64)
        ensures
            t == self.watermark(p),
    {
        match p {
            Partition::Local => self.local_last_timestamp,
            Partition::Sender => self.sender_last_timestamp,
        }
    }

    /// Explicitly rewinds or advances a partition's watermark — the
    /// one sanctioned way to rewind. The other partition is untouched.
    pub fn reset(&mut self, p: Partition, to: i64)
        ensures
            final(self).watermark(p) == to,
            forall|q: Partition| q != p ==> final(self).watermark(q) == old(self).watermark(q),
    {
        match p {
            Partition::Local => {
                self.local_last_timestamp = to;
            },
            Partition::Sender => {
                self.sender_last_timestamp = to;
            },
        }
    }

    /// Scanning phase of a cycle: the records this partition still has
    /// to process, in ascending `created_at` order.
    pub fn pending_records(&self, ledger: &HistoryLedger, p: Partition) -> (r: Vec<HistoryRecord>)
        ensures
            r@ == pending(ledger.records(), self.watermark(p), p),
    {
        let wm = self.watermark_of(p);
        let all = ledger.get_records_after(wm);
        let sender_label = String::from_str("sender");
        let mut out: Vec<HistoryRecord> = Vec::new();
        let mut i: usize = 0;
        proof {
            lemma_after_then_filter(ledger.records(), wm, p);
        }
        while i < all.len()
            invariant
                i <= all@.len(),
                sender_label@ == "sender"@,
                out@ == author_only(all@.take(i as int), p),
            decreases all@.len() - i,
        {
            let ghost prev = out@;
            let rec = &all[i];
            let is_sender = rec.author.eq(&sender_label);
            let keep = match p {
                Partition::Local => !is_sender,
                Partition::Sender => is_sender,
            };
            if keep {
                out.push(HistoryRecord {
                    id: rec.id,
                    entity_name: rec.entity_name.clone(),
                    entity_id: rec.entity_id,
                    change_type: rec.change_type,
                    author: rec.author.clone(),
                    created_at: rec.created_at,
                    sync_status: rec.sync_status,
                    try_count: rec.try_count,
                });
            }
            proof {
                let s = all@;
                let single = seq![s[i as int]];
                assert(s.take(i + 1) =~= s.take(i as int) + single);
                lemma_author_only_concat(s.take(i as int), single, p);
                assert(single.len() == 1);
                assert(single.skip(1) =~= Seq::<HistoryRecord>::empty());
                assert(author_only(single.skip(1), p) == Seq::<HistoryRecord>::empty());
                if keep {
                    assert(author_only(single, p) =~= single);
                    assert(out@ =~= prev + single);
                } else {
                    assert(author_only(single, p) == author_only(single.skip(1), p));
                }
                assert(out@ =~= author_only(s.take(i + 1), p));
            }
            i = i + 1;
        }
        proof {
            assert(all@.take(all@.len() as int) =~= all@);
        }
        out
    }

    /// Dispatching phase of a cycle: given the handled batch and each
    /// record's outcome, advances this partition's watermark along the
    /// successful prefix and stops at the first failure. The other
    /// partition's watermark is untouched, so the partitions progress
    /// independently.
    pub fn apply_outcomes(
        &mut self,
        p: Partition,
        recs: &Vec<HistoryRecord>,
        outs: &Vec<bool>,
    )
        requires
            outs@.len() == recs@.len(),
        ensures
            final(self).watermark(p) == advanced_watermark(old(self).watermark(p), recs@, outs@),
            forall|q: Partition| q != p ==> final(self).watermark(q) == old(self).watermark(q),
    {
        let mut wm = self.watermark_of(p);
        let mut i: usize = 0;
        let ghost wm0 = self.watermark(p);
        proof {
            assert(recs@.skip(0) =~= recs@);
            assert(outs@.skip(0) =~= outs@);
        }
        while i < recs.len() && outs[i]
            invariant
                outs@.len() == recs@.len(),
                i <= recs@.len(),
                forall|j: int| 0 <= j < i ==> outs@[j],
                advanced_watermark(wm0, recs@, outs@) == advanced_watermark(
                    wm,
                    recs@.skip(i as int),
                    outs@.skip(i as int),
                ),
            decreases recs@.len() - i,
        {
            proof {
                assert(recs@.skip(i as int)[0] == recs@[i as int]);
                assert(outs@.skip(i as int)[0] == outs@[i as int]);
                assert(recs@.skip(i as int).skip(1) =~= recs@.skip(i + 1));
                assert(outs@.skip(i as int).skip(1) =~= outs@.skip(i + 1));
            }
            wm = recs[i].created_at;
            i = i + 1;
        }
        proof {
            if i < recs@.len() {
                assert(recs@.skip(i as int)[0] == recs@[i as int]);
                assert(outs@.skip(i as int)[0] == outs@[i as int]);
            }
            assert(advanced_watermark(wm0, recs@, outs@) == wm);
        }
        match p {
            Partition::Local => {
                self.local_last_timestamp = wm;
            },
            Partition::Sender => {
                self.sender_last_timestamp = wm;
            },
        }
    }
}

/// The entity-specific handler a history record is routed to, selected
/// by its entity name. Unrecognized names are skipped, never fatal.
#[derive(Clone, Copy, Debug, PartialEq, Eq, Structural)]
pub enum EntityKind {
    Contact,
    Message,
    Unrecognized,
}

/// Which handler an entity name selects.
pub open spec fn routed(name: Seq<char>) -> EntityKind {
    if name == "ContactData"@ {
        EntityKind::Contact
    } else if name == "MessageData"@ {
        EntityKind::Message
    } else {
        EntityKind::Unrecognized
    }
}

/// Routes a record's entity name to its handler.
pub fn route_entity(name: &String) -> (k: EntityKind)
    ensures
        k == routed(name@),
{
    let contact = String::from_str("ContactData");
    let message = String::from_str("MessageData");
    if name.eq(&contact) {
        EntityKind::Contact
    } else if name.eq(&message) {
        EntityKind::Message
    } else {
        EntityKind::Unrecognized
    }
}

/// The records of `s` whose author belongs to the partition, in order.
pub open spec fn author_only(s: Seq<HistoryRecord>, p: Partition) -> Seq<HistoryRecord>
    decreases s.len(),
{
    if s.len() == 0 {
        Seq::empty()
    } else if author_matches(p, s[0].author@) {
        seq![s[0]] + author_only(s.skip(1), p)
    } else {
        author_only(s.skip(1), p)
    }
}

/// `author_only` distributes over concatenation.
proof fn lemma_author_only_concat(a: Seq<HistoryRecord>, b: Seq<HistoryRecord>, p: Partition)
    ensures
        author_only(a + b, p) == author_only(a, p) + author_only(b, p),
    decreases a.len(),
{
    if a.len() == 0 {
        assert(a + b =~= b);
        assert(author_only(a, p) + author_only(b, p) =~= author_only(b, p));
    } else {
        lemma_author_only_concat(a.skip(1), b, p);
        assert((a + b)[0] == a[0]);
        assert((a + b).skip(1) =~= a.skip(1) + b);
        if author_matches(p, a[0].author@) {
            assert(seq![a[0]] + (author_only(a.skip(1), p) + author_only(b, p)) =~= (seq![a[0]]
                + author_only(a.skip(1), p)) + author_only(b, p));
        }
    }
}

/// Filtering the after-watermark scan by author gives exactly the
/// partition's pending records.
proof fn lemma_after_then_filter(s: Seq<HistoryRecord>, wm: i64, p: Partition)
    ensures
        author_only(crate::history::records_after(s, wm), p) == pending(s, wm, p),
    decreases s.len(),
{
    if s.len() > 0 {
        lemma_after_then_filter(s.skip(1), wm, p);
        let ra = crate::history::records_after(s, wm);
        if s[0].created_at > wm {
            assert(ra == seq![s[0]] + crate::history::records_after(s.skip(1), wm));
            lemma_author_only_concat(seq![s[0]], crate::history::records_after(s.skip(1), wm), p);
            let single = seq![s[0]];
            assert(single.len() == 1);
            assert(single[0] == s[0]);
            assert(single.skip(1) =~= Seq::<HistoryRecord>::empty());
            assert(author_only(single.skip(1), p) == Seq::<HistoryRecord>::empty());
            if author_matches(p, s[0].author@) {
                assert(author_only(single, p) == seq![single[0]] + author_only(single.skip(1), p));
                assert(author_only(single, p) =~= single);
                assert(pending(s, wm, p) == seq![s[0]] + pending(s.skip(1), wm, p));
                assert(author_only(ra, p) =~= pending(s, wm, p));
            } else {
                assert(author_only(single, p) == author_only(single.skip(1), p));
                assert(author_only(ra, p) =~= pending(s, wm, p));
            }
        }
    }
}

} // verus!
