//! The seen-at front end: keeps, per contact identifier, a map from
//! user to the time the contact was last seen, merging new sightings
//! into the stored map — a newly reported time wins over a stored one
//! for the same user. Values travel as the decimal text the host hands
//! over; the map is rendered back as JSON.

use vstd::prelude::*;
use crate::entity_id::{canonical_id, normalize_id, valid_id_text};
use crate::text::{json_string, json_string_exec, string_push};

verus! {

/// What can go wrong on the seen-at path.
#[derive(Debug)]
pub enum ContactSeenAtError {
    /// A storage-engine failure, with the engine's message.
    Sql(String),
    /// A malformed JSON payload, with the decoder's message.
    Json(String),
    /// An identifier that is not a well-formed 16-byte id text.
    InvalidUuid(String),
    Other(String),
}

impl ContactSeenAtError {
    /// The error's display text.
    pub open spec fn message_spec(self) -> Seq<char> {
        match self {
            ContactSeenAtError::Sql(e) => "SqlError: "@ + e@,
            ContactSeenAtError::Json(e) => "JsonError: "@ + e@,
            ContactSeenAtError::InvalidUuid(u) => "InvalidUUID: "@ + u@,
            ContactSeenAtError::Other(o) => "Other: "@ + o@,
        }
    }

    /// Renders the error for display.
    pub fn message(&self) -> (r: String)
        ensures
            r@ == self.message_spec(),
    {
        let (head, body): (&str, &String) = match self {
            ContactSeenAtError::Sql(e) => ("SqlError: ", e),
            ContactSeenAtError::Json(e) => ("JsonError: ", e),
            ContactSeenAtError::InvalidUuid(u) => ("InvalidUUID: ", u),
            ContactSeenAtError::Other(o) => ("Other: ", o),
        };
        let mut out = String::from_str(head);
        out.append(body.as_str());
        out
    }
}

/// An incoming sighting: the contact identifier as text and,
/// optionally, user-to-time entries; each time is the decimal text of
/// the host's timestamp.
#[derive(Debug, Clone)]
pub struct ContactSeenAtJsonIn {
    pub id: String,
    pub date: Option<Vec<(String, String)>>,
}

/// One stored row: canonical identifier and the user-to-time entries.
#[derive(Debug, Clone)]
pub struct ContactSeenAtData {
    pub id: String,
    pub date: Vec<(String, String)>,
}

/// The date entries an incoming sighting carries: none stands for the
/// empty map.
pub open spec fn date_pairs_of(input: ContactSeenAtJsonIn) -> Seq<(String, String)> {
    match input.date {
        Option::Some(v) => v@,
        Option::None => Seq::empty(),
    }
}

/// Whether some entry of `ps` has the key `k`.
pub open spec fn has_key(ps: Seq<(String, String)>, k: Seq<char>) -> bool {
    exists|i: int| 0 <= i < ps.len() && (#[trigger] ps[i]).0@ == k
}

/// The entries of `older` whose key does not occur in `newer`.
pub open spec fn missing_from(
    older: Seq<(String, String)>,
    newer: Seq<(String, String)>,
) -> Seq<(String, String)>
    decreases older.len(),
{
    if older.len() == 0 {
        Seq::empty()
    } else if !has_key(newer, older[0].0@) {
        seq![older[0]] + missing_from(older.skip(1), newer)
    } else {
        missing_from(older.skip(1), newer)
    }
}

/// The stored map after a sighting: the new entries as reported,
/// followed by the stored entries whose user the report does not
/// mention — the report wins on common users.
pub open spec fn merged_dates(
    older: Seq<(String, String)>,
    newer: Seq<(String, String)>,
) -> Seq<(String, String)> {
    newer + missing_from(older, newer)
}

/// `missing_from` distributes over concatenation of the older half.
proof fn lemma_missing_concat(
    a: Seq<(String, String)>,
    b: Seq<(String, String)>,
    newer: Seq<(String, String)>,
)
    ensures
        missing_from(a + b, newer) == missing_from(a, newer) + missing_from(b, newer),
    decreases a.len(),
{
    if a.len() == 0 {
        assert(a + b =~= b);
        assert(missing_from(a, newer) + missing_from(b, newer) =~= missing_from(b, newer));
    } else {
        lemma_missing_concat(a.skip(1), b, newer);
        assert((a + b)[0] == a[0]);
        assert((a + b).skip(1) =~= a.skip(1) + b);
        if !has_key(newer, a[0].0@) {
            assert(seq![a[0]] + (missing_from(a.skip(1), newer) + missing_from(b, newer)) =~= (
            seq![a[0]] + missing_from(a.skip(1), newer)) + missing_from(b, newer));
        }
    }
}

/// The JSON text of the date map: `null` for the empty map, otherwise
/// an object with the times as bare values.
pub open spec fn date_json(ps: Seq<(String, String)>) -> Seq<char> {
    if ps.len() == 0 {
        "null"@
    } else {
        seq!['{'] + date_items(ps) + seq!['}']
    }
}

/// The comma-separated members of the date object.
pub open spec fn date_items(ps: Seq<(String, String)>) -> Seq<char>
    decreases ps.len(),
{
    if ps.len() == 0 {
        Seq::empty()
    } else if ps.len() == 1 {
        json_string(ps[0].0@) + seq![':'] + ps[0].1@
    } else {
        json_string(ps[0].0@) + seq![':'] + ps[0].1@ + seq![','] + date_items(ps.skip(1))
    }
}

/// `date_items` distributes over concatenation of nonempty halves.
proof fn lemma_date_items_concat(a: Seq<(String, String)>, b: Seq<(String, String)>)
    requires
        a.len() > 0,
        b.len() > 0,
    ensures
        date_items(a + b) == date_items(a) + seq![','] + date_items(b),
    decreases a.len(),
{
    if a.len() == 1 {
        assert((a + b)[0] == a[0]);
        assert((a + b).skip(1) =~= b);
        assert((a + b).len() >= 2);
        assert(date_items(a + b) == json_string(a[0].0@) + seq![':'] + a[0].1@ + seq![',']
            + date_items(b));
        assert(json_string(a[0].0@) + seq![':'] + a[0].1@ + seq![','] + date_items(b)
            =~= date_items(a) + seq![','] + date_items(b));
    } else {
        lemma_date_items_concat(a.skip(1), b);
        assert((a + b)[0] == a[0]);
        assert((a + b).skip(1) =~= a.skip(1) + b);
        assert(date_items(a + b) =~= date_items(a) + seq![','] + date_items(b));
    }
}

/// The JSON object for one stored row.
pub open spec fn seen_json(id: Seq<char>, ps: Seq<(String, String)>) -> Seq<char> {
    "{\"id\":"@ + json_string(id) + ",\"date\":"@ + date_json(ps) + seq!['}']
}

/// The comma-separated JSON objects of a row sequence.
pub open spec fn seen_items(s: Seq<ContactSeenAtData>) -> Seq<char>
    decreases s.len(),
{
    if s.len() == 0 {
        Seq::empty()
    } else if s.len() == 1 {
        seen_json(s[0].id@, s[0].date@)
    } else {
        seen_json(s[0].id@, s[0].date@) + seq![','] + seen_items(s.skip(1))
    }
}

/// The JSON array of all stored rows.
pub open spec fn seen_list_json(s: Seq<ContactSeenAtData>) -> Seq<char> {
    seq!['['] + seen_items(s) + seq![']']
}

/// `seen_items` distributes over concatenation of nonempty halves.
proof fn lemma_seen_items_concat(a: Seq<ContactSeenAtData>, b: Seq<ContactSeenAtData>)
    requires
        a.len() > 0,
        b.len() > 0,
    ensures
        seen_items(a + b) == seen_items(a) + seq![','] + seen_items(b),
    decreases a.len(),
{
    if a.len() == 1 {
        assert((a + b)[0] == a[0]);
        assert((a + b).skip(1) =~= b);
        assert((a + b).len() >= 2);
        assert(seen_items(a + b) == seen_json(a[0].id@, a[0].date@) + seq![','] + seen_items(b));
        assert(seen_json(a[0].id@, a[0].date@) + seq![','] + seen_items(b) =~= seen_items(a)
            + seq![','] + seen_items(b));
    } else {
        lemma_seen_items_concat(a.skip(1), b);
        assert((a + b)[0] == a[0]);
        assert((a + b).skip(1) =~= a.skip(1) + b);
        assert(seen_items(a + b) =~= seen_items(a) + seq![','] + seen_items(b));
    }
}

/// Whether some entry of `ps` has the key of `k`.
fn has_key_exec(ps: &Vec<(String, String)>, k: &String) -> (r: bool)
    ensures
        r == has_key(ps@, k@),
{
    let mut i: usize = 0;
    while i < ps.len()
        invariant
            i <= ps@.len(),
            forall|j: int| 0 <= j < i ==> (#[trigger] ps@[j]).0@ != k@,
        decreases ps@.len() - i,
    {
        if ps[i].0.eq(k) {
            proof {
                assert(ps@[i as int].0@ == k@);
            }
            return true;
        }
        i = i + 1;
    }
    false
}

/// A copy of the entries.
fn clone_pairs(ps: &Vec<(String, String)>) -> (r: Vec<(String, String)>)
    ensures
        r@ == ps@,
{
    let mut out: Vec<(String, String)> = Vec::new();
    let mut i: usize = 0;
    while i < ps.len()
        invariant
            i <= ps@.len(),
            out@ == ps@.take(i as int),
        decreases ps@.len() - i,
    {
        out.push((ps[i].0.clone(), ps[i].1.clone()));
        proof {
            assert(out@ =~= ps@.take(i + 1));
        }
        i = i + 1;
    }
    proof {
        assert(ps@.take(ps@.len() as int) =~= ps@);
    }
    out
}

/// Merges a stored map with a reported one: the report's entries come
/// first and win on common users; stored entries for unmentioned users
/// follow in their stored order.
fn merge_dates(older: &Vec<(String, String)>, newer: &Vec<(String, String)>) -> (r: Vec<
    (String, String),
>)
    ensures
        r@ == merged_dates(older@, newer@),
{
    let mut out = clone_pairs(newer);
    let mut i: usize = 0;
    while i < older.len()
        invariant
            i <= older@.len(),
            out@ == newer@ + missing_from(older@.take(i as int), newer@),
        decreases older@.len() - i,
    {
        let ghost prev = out@;
        let keep = !has_key_exec(newer, &older[i].0);
        if keep {
            out.push((older[i].0.clone(), older[i].1.clone()));
        }
        proof {
            let s = older@;
            let single = seq![s[i as int]];
            assert(s.take(i + 1) =~= s.take(i as int) + single);
            lemma_missing_concat(s.take(i as int), single, newer@);
            assert(single.len() == 1);
            assert(single[0] == s[i as int]);
            assert(single.skip(1) =~= Seq::<(String, String)>::empty());
            assert(missing_from(single.skip(1), newer@) == Seq::<(String, String)>::empty());
            if keep {
                assert(missing_from(single, newer@) == seq![single[0]] + missing_from(
                    single.skip(1),
                    newer@,
                ));
                assert(missing_from(single, newer@) =~= single);
                assert(out@ =~= prev + single);
            } else {
                assert(missing_from(single, newer@) == missing_from(single.skip(1), newer@));
            }
            assert(out@ =~= newer@ + missing_from(s.take(i + 1), newer@));
        }
        i = i + 1;
    }
    proof {
        assert(older@.take(older@.len() as int) =~= older@);
    }
    out
}

/// Renders the JSON object for one stored row.
fn render_seen_json(id: &String, ps: &Vec<(String, String)>) -> (r: String)
    ensures
        r@ == seen_json(id@, ps@),
{
    let mut out = String::from_str("{\"id\":");
    let idj = json_string_exec(id.as_str());
    out.append(idj.as_str());
    out.append(",\"date\":");
    if ps.len() == 0 {
        out.append("null");
    } else {
        string_push(&mut out, '{');
        let mut i: usize = 0;
        let ghost base = out@;
        while i < ps.len()
            invariant
                0 < ps@.len(),
                i <= ps@.len(),
                out@ == base + date_items(ps@.take(i as int)),
            decreases ps@.len() - i,
        {
            let ghost prev = out@;
            if i > 0 {
                string_push(&mut out, ',');
            }
            let key = json_string_exec(ps[i].0.as_str());
            out.append(key.as_str());
            string_push(&mut out, ':');
            out.append(ps[i].1.as_str());
            proof {
                let s = ps@;
                if i == 0 {
                    assert(s.take(1) =~= seq![s[0]]);
                    assert(out@ =~= base + date_items(s.take(1)));
                } else {
                    let single = seq![s[i as int]];
                    assert(s.take(i + 1) =~= s.take(i as int) + single);
                    lemma_date_items_concat(s.take(i as int), single);
                    assert(date_items(single) == json_string(single[0].0@) + seq![':']
                        + single[0].1@);
                    assert(out@ =~= base + date_items(s.take(i + 1)));
                }
            }
            i = i + 1;
        }
        string_push(&mut out, '}');
        proof {
            assert(ps@.take(ps@.len() as int) =~= ps@);
        }
    }
    string_push(&mut out, '}');
    proof {
        assert(out@ =~= seen_json(id@, ps@));
    }
    out
}

/// The in-memory image of the seen-at table: at most one row per
/// identifier.
pub struct ContactSeenAtRepo {
    entries: Vec<ContactSeenAtData>,
}

impl ContactSeenAtRepo {
    /// The stored rows in insertion order.
    pub closed spec fn entries(self) -> Seq<ContactSeenAtData> {
        self.entries@
    }

    /// Identifiers are unique across the stored rows.
    pub open spec fn wf(self) -> bool {
        forall|i: int, j: int|
            0 <= i < j < self.entries().len() ==> (#[trigger] self.entries()[i]).id@ != (
            #[trigger] self.entries()[j]).id@
    }

    /// An empty store.
    pub fn new() -> (r: ContactSeenAtRepo)
        ensures
            r.wf(),
            r.entries() == Seq::<ContactSeenAtData>::empty(),
    {
        ContactSeenAtRepo { entries: Vec::new() }
    }

    /// Records one sighting and returns the row's resulting state as
    /// JSON. The identifier is validated and normalized: a malformed
    /// one is rejected with `InvalidUuid` carrying the offending text,
    /// leaving the store unchanged. On success the row with that
    /// canonical identifier holds the reported entries merged over the
    /// stored ones — the report wins on common users — and no other
    /// row changes.
    pub fn add_seen_json(&mut self, input: &ContactSeenAtJsonIn) -> (r: Result<
        String,
        ContactSeenAtError,
    >)
        requires
            old(self).wf(),
        ensures
            final(self).wf(),
            !valid_id_text(input.id@) ==> (r matches Err(e) && e matches
                ContactSeenAtError::InvalidUuid(u) && u == input.id) && final(self).entries() == old(
                self,
            ).entries(),
            valid_id_text(input.id@) && (exists|j: int|
                0 <= j < old(self).entries().len() && (#[trigger] old(self).entries()[j]).id@
                    == canonical_id(input.id@)) ==> {
                &&& final(self).entries().len() == old(self).entries().len()
                &&& forall|j: int|
                    0 <= j < old(self).entries().len() && (#[trigger] old(self).entries()[j]).id@
                        != canonical_id(input.id@) ==> final(self).entries()[j] == old(
                        self,
                    ).entries()[j]
                &&& forall|j: int|
                    0 <= j < old(self).entries().len() && (#[trigger] old(self).entries()[j]).id@
                        == canonical_id(input.id@) ==> final(self).entries()[j].id == old(
                        self,
                    ).entries()[j].id && final(self).entries()[j].date@ == merged_dates(
                        old(self).entries()[j].date@,
                        date_pairs_of(*input),
                    ) && (r matches Ok(out) && out@ == seen_json(
                        canonical_id(input.id@),
                        final(self).entries()[j].date@,
                    ))
            },
            valid_id_text(input.id@) && !(exists|j: int|
                0 <= j < old(self).entries().len() && (#[trigger] old(self).entries()[j]).id@
                    == canonical_id(input.id@)) ==> {
                &&& final(self).entries().len() == old(self).entries().len() + 1
                &&& final(self).entries().take(old(self).entries().len() as int) == old(
                    self,
                ).entries()
                &&& final(self).entries().last().id@ == canonical_id(input.id@)
                &&& final(self).entries().last().date@ == date_pairs_of(*input)
                &&& (r matches Ok(out) && out@ == seen_json(
                    canonical_id(input.id@),
                    date_pairs_of(*input),
                ))
            },
    {
        let canon = match normalize_id(input.id.as_str()) {
            Option::Some(c) => c,
            Option::None => {
                return Err(ContactSeenAtError::InvalidUuid(input.id.clone()));
            },
        };
        let incoming: Vec<(String, String)> = match &input.date {
            Option::Some(v) => clone_pairs(v),
            Option::None => Vec::new(),
        };
        let mut i: usize = 0;
        let n = self.entries.len();
        while i < n
            invariant
                *self == *old(self),
                old(self).wf(),
                n == self.entries().len(),
                i <= n,
                valid_id_text(input.id@),
                canon@ == canonical_id(input.id@),
                incoming@ == date_pairs_of(*input),
                forall|j: int| 0 <= j < i ==> (#[trigger] self.entries()[j]).id@ != canon@,
            decreases n - i,
        {
            if self.entries[i].id.eq(&canon) {
                let merged = merge_dates(&self.entries[i].date, &incoming);
                let out = render_seen_json(&canon, &merged);
                let updated = ContactSeenAtData { id: self.entries[i].id.clone(), date: merged };
                proof {
                    assert(old(self).entries()[i as int].id@ == canonical_id(input.id@));
                    assert forall|j: int|
                        0 <= j < old(self).entries().len() && j != i implies (#[trigger] old(
                        self,
                    ).entries()[j]).id@ != canon@ by {
                        if j < i {
                            assert(old(self).entries()[j].id@ != old(self).entries()[i as int].id@);
                        } else {
                            assert(old(self).entries()[i as int].id@ != old(self).entries()[j].id@);
                        }
                    }
                }
                self.entries.set(i, updated);
                proof {
                    assert(forall|k: int|
                        0 <= k < self.entries().len() ==> (#[trigger] self.entries()[k]).id == old(
                            self,
                        ).entries()[k].id);
                }
                return Ok(out);
            }
            i = i + 1;
        }
        let out = render_seen_json(&canon, &incoming);
        self.entries.push(ContactSeenAtData { id: canon, date: incoming });
        proof {
            assert(self.entries().take(old(self).entries().len() as int) =~= old(self).entries());
        }
        Ok(out)
    }

    /// Renders every stored row as one JSON array, in insertion order.
    pub fn all_seen_json(&self) -> (r: String)
        ensures
            r@ == seen_list_json(self.entries()),
    {
        let mut out = String::new();
        string_push(&mut out, '[');
        let mut i: usize = 0;
        let n = self.entries.len();
        while i < n
            invariant
                n == self.entries().len(),
                i <= n,
                out@ == seq!['['] + seen_items(self.entries().take(i as int)),
            decreases n - i,
        {
            let ghost prev = out@;
            if i > 0 {
                string_push(&mut out, ',');
            }
            let entry = render_seen_json(&self.entries[i].id, &self.entries[i].date);
            out.append(entry.as_str());
            proof {
                let s = self.entries();
                if i == 0 {
                    assert(s.take(1) =~= seq![s[0]]);
                    assert(out@ =~= seq!['['] + seen_items(s.take(1)));
                } else {
                    let single = seq![s[i as int]];
                    assert(s.take(i + 1) =~= s.take(i as int) + single);
                    lemma_seen_items_concat(s.take(i as int), single);
                    assert(seen_items(single) == seen_json(single[0].id@, single[0].date@));
                    assert(out@ =~= seq!['['] + seen_items(s.take(i + 1)));
                }
            }
            i = i + 1;
        }
        string_push(&mut out, ']');
        proof {
            assert(self.entries().take(n as int) =~= self.entries());
            assert(out@ =~= seen_list_json(self.entries()));
        }
        out
    }
}

} // verus!
