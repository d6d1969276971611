//! The contact-status front end: keeps one integer status per contact
//! identifier, upserting on writes, and renders the stored state as
//! JSON for the host application. The storage-engine round trips stay
//! at the caller; this is the rule layer between them.

use vstd::prelude::*;
use crate::entity_id::{canonical_id, normalize_id, valid_id_text};
use crate::text::{int_digits, json_string, json_string_exec, i64_to_dec_string, string_push};

verus! {

/// What can go wrong on the contact-status path.
#[derive(Debug)]
pub enum ContactStatusError {
    /// A storage-engine failure, with the engine's message.
    Sql(String),
    /// A malformed JSON payload, with the decoder's message.
    Json(String),
    /// An identifier that is not a well-formed 16-byte id text.
    InvalidUuid(String),
    Other(String),
}

impl ContactStatusError {
    /// The error's display text.
    pub open spec fn message_spec(self) -> Seq<char> {
        match self {
            ContactStatusError::Sql(e) => "SqlError: "@ + e@,
            ContactStatusError::Json(e) => "JsonError: "@ + e@,
            ContactStatusError::InvalidUuid(u) => "Invalid UUID: "@ + u@,
            ContactStatusError::Other(o) => "Other: "@ + o@,
        }
    }

    /// Renders the error for display.
    pub fn message(&self) -> (r: String)
        ensures
            r@ == self.message_spec(),
    {
        let (head, body): (&str, &String) = match self {
            ContactStatusError::Sql(e) => ("SqlError: ", e),
            ContactStatusError::Json(e) => ("JsonError: ", e),
            ContactStatusError::InvalidUuid(u) => ("Invalid UUID: ", u),
            ContactStatusError::Other(o) => ("Other: ", o),
        };
        let mut out = String::from_str(head);
        out.append(body.as_str());
        out
    }
}

/// An incoming status write: the contact identifier as text and the
/// new status value.
#[derive(Debug, Clone)]
pub struct ContactStatusJsonIn {
    pub id: String,
    pub status: i64,
}

/// An outgoing status row: canonical identifier text and status value.
#[derive(Debug, Clone)]
pub struct ContactStatusJsonOut {
    pub id: String,
    pub status: i64,
}

/// One stored status row: canonical identifier and status.
#[derive(Debug, Clone)]
pub struct ContactStatusData {
    pub id: String,
    pub status: i64,
}

/// The JSON object for one status row.
pub open spec fn status_json(id: Seq<char>, status: i64) -> Seq<char> {
    "{\"id\":"@ + json_string(id) + ",\"status\":"@ + int_digits(status as int) + seq!['}']
}

/// The comma-separated JSON objects of a row sequence.
pub open spec fn status_items(s: Seq<ContactStatusData>) -> Seq<char>
    decreases s.len(),
{
    if s.len() == 0 {
        Seq::empty()
    } else if s.len() == 1 {
        status_json(s[0].id@, s[0].status)
    } else {
        status_json(s[0].id@, s[0].status) + seq![','] + status_items(s.skip(1))
    }
}

/// The JSON array of all stored status rows.
pub open spec fn status_list_json(s: Seq<ContactStatusData>) -> Seq<char> {
    seq!['['] + status_items(s) + seq![']']
}

/// `status_items` distributes over concatenation of nonempty halves.
proof fn lemma_status_items_concat(a: Seq<ContactStatusData>, b: Seq<ContactStatusData>)
    requires
        a.len() > 0,
        b.len() > 0,
    ensures
        status_items(a + b) == status_items(a) + seq![','] + status_items(b),
    decreases a.len(),
{
    if a.len() == 1 {
        assert((a + b)[0] == a[0]);
        assert((a + b).skip(1) =~= b);
        assert((a + b).len() >= 2);
        assert(status_items(a + b) == status_json(a[0].id@, a[0].status) + seq![','] + status_items(
            b,
        ));
        assert(status_json(a[0].id@, a[0].status) + seq![','] + status_items(b) =~= status_items(a)
            + seq![','] + status_items(b));
    } else {
        lemma_status_items_concat(a.skip(1), b);
        assert((a + b)[0] == a[0]);
        assert((a + b).skip(1) =~= a.skip(1) + b);
        assert(status_items(a + b) =~= status_items(a) + seq![','] + status_items(b));
    }
}

/// The in-memory image of the contact-status table: at most one row
/// per identifier.
pub struct ContactStatusRepo {
    entries: Vec<ContactStatusData>,
}

impl ContactStatusRepo {
    /// The stored rows in insertion order.
    pub closed spec fn entries(self) -> Seq<ContactStatusData> {
        self.entries@
    }

    /// Identifiers are unique across the stored rows.
    pub open spec fn wf(self) -> bool {
        forall|i: int, j: int|
            0 <= i < j < self.entries().len() ==> (#[trigger] self.entries()[i]).id@ != (
            #[trigger] self.entries()[j]).id@
    }

    /// An empty store.
    pub fn new() -> (r: ContactStatusRepo)
        ensures
            r.wf(),
            r.entries() == Seq::<ContactStatusData>::empty(),
    {
        ContactStatusRepo { entries: Vec::new() }
    }

    /// Upserts one status write and returns the resulting row as JSON.
    /// The identifier is validated and normalized: a malformed one is
    /// rejected with `InvalidUuid` carrying the offending text, and the
    /// store is then unchanged. On success the row with that canonical
    /// identifier holds the new status — updated in place when present,
    /// appended otherwise — and no other row changes.
    pub fn add_status_json(&mut self, input: &ContactStatusJsonIn) -> (r: Result<
        String,
        ContactStatusError,
    >)
        requires
            old(self).wf(),
        ensures
            final(self).wf(),
            !valid_id_text(input.id@) ==> (r matches Err(e) && e matches
                ContactStatusError::InvalidUuid(u) && u == input.id) && final(self).entries() == old(
                self,
            ).entries(),
            valid_id_text(input.id@) ==> (r matches Ok(out) && out@ == status_json(
                canonical_id(input.id@),
                input.status,
            )),
            valid_id_text(input.id@) && (exists|j: int|
                0 <= j < old(self).entries().len() && (#[trigger] old(self).entries()[j]).id@
                    == canonical_id(input.id@)) ==> {
                &&& final(self).entries().len() == old(self).entries().len()
                &&& forall|j: int|
                    0 <= j < old(self).entries().len() && (#[trigger] old(self).entries()[j]).id@
                        != canonical_id(input.id@) ==> final(self).entries()[j] == old(
                        self,
                    ).entries()[j]
                &&& forall|j: int|
                    0 <= j < old(self).entries().len() && (#[trigger] old(self).entries()[j]).id@
                        == canonical_id(input.id@) ==> final(self).entries()[j].id == old(
                        self,
                    ).entries()[j].id && final(self).entries()[j].status == input.status
            },
            valid_id_text(input.id@) && !(exists|j: int|
                0 <= j < old(self).entries().len() && (#[trigger] old(self).entries()[j]).id@
                    == canonical_id(input.id@)) ==> {
                &&& final(self).entries().len() == old(self).entries().len() + 1
                &&& final(self).entries().take(old(self).entries().len() as int) == old(
                    self,
                ).entries()
                &&& final(self).entries().last().id@ == canonical_id(input.id@)
                &&& final(self).entries().last().status == input.status
            },
    {
        let canon = match normalize_id(input.id.as_str()) {
            Option::Some(c) => c,
            Option::None => {
                return Err(ContactStatusError::InvalidUuid(input.id.clone()));
            },
        };
        let mut i: usize = 0;
        let n = self.entries.len();
        while i < n
            invariant
                *self == *old(self),
                old(self).wf(),
                n == self.entries().len(),
                i <= n,
                valid_id_text(input.id@),
                canon@ == canonical_id(input.id@),
                forall|j: int| 0 <= j < i ==> (#[trigger] self.entries()[j]).id@ != canon@,
            decreases n - i,
        {
            if self.entries[i].id.eq(&canon) {
                let updated = ContactStatusData {
                    id: self.entries[i].id.clone(),
                    status: input.status,
                };
                proof {
                    assert(old(self).entries()[i as int].id@ == canonical_id(input.id@));
                    assert forall|j: int|
                        0 <= j < old(self).entries().len() && j != i implies (#[trigger] old(
                        self,
                    ).entries()[j]).id@ != canon@ by {
                        if j < i {
                            assert(old(self).entries()[j].id@ != old(self).entries()[i as int].id@);
                        } else {
                            assert(old(self).entries()[i as int].id@ != old(self).entries()[j].id@);
                        }
                    }
                }
                self.entries.set(i, updated);
                proof {
                    assert(forall|k: int|
                        0 <= k < self.entries().len() ==> (#[trigger] self.entries()[k]).id == old(
                            self,
                        ).entries()[k].id);
                }
                let out = render_status_json(
                    &(ContactStatusJsonOut { id: canon.clone(), status: input.status }),
                );
                return Ok(out);
            }
            i = i + 1;
        }
        let out = render_status_json(
            &(ContactStatusJsonOut { id: canon.clone(), status: input.status }),
        );
        self.entries.push(ContactStatusData { id: canon, status: input.status });
        proof {
            assert(self.entries().take(old(self).entries().len() as int) =~= old(self).entries());
        }
        Ok(out)
    }

    /// Renders every stored status row as one JSON array, in insertion
    /// order.
    pub fn all_contacts_status_json(&self) -> (r: String)
        ensures
            r@ == status_list_json(self.entries()),
    {
        let mut out = String::new();
        string_push(&mut out, '[');
        let mut i: usize = 0;
        let n = self.entries.len();
        while i < n
            invariant
                n == self.entries().len(),
                i <= n,
                out@ == seq!['['] + status_items(self.entries().take(i as int)),
            decreases n - i,
        {
            let ghost prev = out@;
            if i > 0 {
                string_push(&mut out, ',');
            }
            let entry = render_status_json(
                &(ContactStatusJsonOut {
                    id: self.entries[i].id.clone(),
                    status: self.entries[i].status,
                }),
            );
            out.append(entry.as_str());
            proof {
                let s = self.entries();
                if i == 0 {
                    assert(s.take(1) =~= seq![s[0]]);
                    assert(out@ =~= seq!['['] + status_items(s.take(1)));
                } else {
                    let single = seq![s[i as int]];
                    assert(s.take(i + 1) =~= s.take(i as int) + single);
                    lemma_status_items_concat(s.take(i as int), single);
                    assert(status_items(single) == status_json(single[0].id@, single[0].status));
                    assert(out@ =~= seq!['['] + status_items(s.take(i + 1)));
                }
            }
            i = i + 1;
        }
        string_push(&mut out, ']');
        proof {
            assert(self.entries().take(n as int) =~= self.entries());
            assert(out@ =~= status_list_json(self.entries()));
        }
        out
    }
}

/// Renders the JSON object for one outgoing status row.
pub fn render_status_json(row: &ContactStatusJsonOut) -> (r: String)
    ensures
        r@ == status_json(row.id@, row.status),
{
    let mut out = String::from_str("{\"id\":");
    let idj = json_string_exec(row.id.as_str());
    out.append(idj.as_str());
    out.append(",\"status\":");
    let st = i64_to_dec_string(row.status);
    out.append(st.as_str());
    string_push(&mut out, '}');
    proof {
        assert(out@ =~= status_json(row.id@, row.status));
    }
    out
}

} // verus!
