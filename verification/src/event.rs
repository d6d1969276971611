//! Change events: the immutable record of a single row mutation, built
//! inside the storage engine's pre-commit hook. Column values arrive
//! already rendered by the value codec; columns are labelled
//! positionally (`col_0`, `col_1`, ...) because column names are not
//! available at the hook boundary.

use vstd::prelude::*;
use crate::text::{dec_digits, u64_to_dec_string};

verus! {

/// The kind of row mutation a change event reports.
#[derive(Clone, Copy, Debug, PartialEq, Eq, Structural)]
pub enum ChangeOp {
    Insert,
    Update,
    Delete,
    Unknown,
}

impl ChangeOp {
    /// The operation tag used on the wire.
    pub open spec fn wire_name(self) -> Seq<char> {
        match self {
            ChangeOp::Insert => "INSERT"@,
            ChangeOp::Update => "UPDATE"@,
            ChangeOp::Delete => "DELETE"@,
            ChangeOp::Unknown => "UNKNOWN"@,
        }
    }

    /// Renders the operation tag used on the wire.
    pub fn to_wire_name(&self) -> (r: String)
        ensures
            r@ == self.wire_name(),
    {
        match self {
            ChangeOp::Insert => String::from_str("INSERT"),
            ChangeOp::Update => String::from_str("UPDATE"),
            ChangeOp::Delete => String::from_str("DELETE"),
            ChangeOp::Unknown => String::from_str("UNKNOWN"),
        }
    }
}

/// The positional label of column `i`: `col_` followed by the decimal
/// text of `i`.
pub open spec fn col_label(i: int) -> Seq<char> {
    "col_"@ + dec_digits(i as nat)
}

/// `pairs` carries exactly `vals`, each value under its positional
/// column label.
pub open spec fn labeled(pairs: Seq<(String, String)>, vals: Seq<String>) -> bool {
    &&& pairs.len() == vals.len()
    &&& forall|i: int|
        0 <= i < pairs.len() ==> (#[trigger] pairs[i]).0@ == col_label(i) && pairs[i].1 == vals[i]
}

/// Pairs each rendered column value with its positional label.
pub fn label_columns(vals: &Vec<String>) -> (r: Vec<(String, String)>)
    ensures
        labeled(r@, vals@),
{
    let mut out: Vec<(String, String)> = Vec::new();
    let mut i: usize = 0;
    while i < vals.len()
        invariant
            i <= vals@.len(),
            out@.len() == i,
            forall|j: int|
                0 <= j < i ==> (#[trigger] out@[j]).0@ == col_label(j) && out@[j].1 == vals@[j],
        decreases vals@.len() - i,
    {
        let mut label = String::from_str("col_");
        let num = u64_to_dec_string(i as u64);
        label.append(num.as_str());
        proof {
            assert(label@ =~= col_label(i as int));
        }
        out.push((label, vals[i].clone()));
        i = i + 1;
    }
    out
}

/// A single captured row mutation, consumed exactly once by the
/// dispatcher and never persisted.
pub struct PreUpdateEvent {
    pub db_name: String,
    pub table: String,
    pub operation: ChangeOp,
    pub rowid: i64,
    pub old_values: Option<Vec<(String, String)>>,
    pub new_values: Option<Vec<(String, String)>>,
}

impl PreUpdateEvent {
    /// Shape invariant: an insert has no old image and a new one, a
    /// delete the reverse, an update both with the same column count,
    /// and the degenerate unknown event neither and row id zero.
    pub open spec fn wf(self) -> bool {
        match self.operation {
            ChangeOp::Insert => self.old_values is None && self.new_values is Some,
            ChangeOp::Delete => self.new_values is None && self.old_values is Some,
            ChangeOp::Update => self.old_values is Some && self.new_values is Some
                && self.old_values->0@.len() == self.new_values->0@.len(),
            ChangeOp::Unknown => self.old_values is None && self.new_values is None && self.rowid
                == 0,
        }
    }

    /// The event for a pending insert: the new row image, no old one.
    pub fn insert(db_name: String, table: String, rowid: i64, new_vals: &Vec<String>) -> (e:
        PreUpdateEvent)
        ensures
            e.wf(),
            e.db_name == db_name,
            e.table == table,
            e.operation == ChangeOp::Insert,
            e.rowid == rowid,
            e.old_values is None,
            e.new_values is Some && labeled(e.new_values->0@, new_vals@),
    {
        PreUpdateEvent {
            db_name,
            table,
            operation: ChangeOp::Insert,
            rowid,
            old_values: None,
            new_values: Some(label_columns(new_vals)),
        }
    }

    /// The event for a pending delete: the old row image, no new one.
    pub fn delete(db_name: String, table: String, rowid: i64, old_vals: &Vec<String>) -> (e:
        PreUpdateEvent)
        ensures
            e.wf(),
            e.db_name == db_name,
            e.table == table,
            e.operation == ChangeOp::Delete,
            e.rowid == rowid,
            e.new_values is None,
            e.old_values is Some && labeled(e.old_values->0@, old_vals@),
    {
        PreUpdateEvent {
            db_name,
            table,
            operation: ChangeOp::Delete,
            rowid,
            old_values: Some(label_columns(old_vals)),
            new_values: None,
        }
    }

    /// The event for a pending update: both row images, column for
    /// column. The engine reports the same column count for both, and
    /// the new row id is the authoritative one.
    pub fn update(
        db_name: String,
        table: String,
        rowid: i64,
        old_vals: &Vec<String>,
        new_vals: &Vec<String>,
    ) -> (e: PreUpdateEvent)
        requires
            old_vals@.len() == new_vals@.len(),
        ensures
            e.wf(),
            e.db_name == db_name,
            e.table == table,
            e.operation == ChangeOp::Update,
            e.rowid == rowid,
            e.old_values is Some && labeled(e.old_values->0@, old_vals@),
            e.new_values is Some && labeled(e.new_values->0@, new_vals@),
    {
        PreUpdateEvent {
            db_name,
            table,
            operation: ChangeOp::Update,
            rowid,
            old_values: Some(label_columns(old_vals)),
            new_values: Some(label_columns(new_vals)),
        }
    }

    /// The degenerate event for a mutation the engine does not further
    /// describe: row id zero and no row images. It must not fail the
    /// transaction.
    pub fn unknown(db_name: String, table: String) -> (e: PreUpdateEvent)
        ensures
            e.wf(),
            e.db_name == db_name,
            e.table == table,
            e.operation == ChangeOp::Unknown,
            e.rowid == 0,
            e.old_values is None,
            e.new_values is None,
    {
        PreUpdateEvent {
            db_name,
            table,
            operation: ChangeOp::Unknown,
            rowid: 0,
            old_values: None,
            new_values: None,
        }
    }
}

/// Event shape law: for every well-formed change event, an insert
/// carries no old values, a delete carries no new values, and an update
/// carries both with equal length.
pub proof fn lemma_event_shape(e: PreUpdateEvent)
    requires
        e.wf(),
    ensures
        e.operation == ChangeOp::Insert ==> e.old_values is None,
        e.operation == ChangeOp::Delete ==> e.new_values is None,
        e.operation == ChangeOp::Update ==> e.old_values is Some && e.new_values is Some
            && e.old_values->0@.len() == e.new_values->0@.len(),
{
}

} // verus!
