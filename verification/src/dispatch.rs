//! The event dispatcher: drains the event queue, serializes each change
//! event to its JSON wire form and hands the payload to the registered
//! external callback. Absence of a callback drops the event silently;
//! the queue itself is never blocked by callback latency.

use vstd::prelude::*;
use crate::event::PreUpdateEvent;
use crate::queue::EventQueue;
use crate::text::{int_digits, json_string, json_string_exec, i64_to_dec_string, string_push};

verus! {

/// One column entry on the wire: a two-element array of label and value.
pub open spec fn json_pair(p: (String, String)) -> Seq<char> {
    seq!['['] + json_string(p.0@) + seq![','] + json_string(p.1@) + seq![']']
}

/// The comma-separated column entries of a row image.
pub open spec fn json_pair_items(ps: Seq<(String, String)>) -> Seq<char>
    decreases ps.len(),
{
    if ps.len() == 0 {
        Seq::empty()
    } else if ps.len() == 1 {
        json_pair(ps[0])
    } else {
        json_pair(ps[0]) + seq![','] + json_pair_items(ps.skip(1))
    }
}

/// A row image on the wire: a JSON array of column entries, or `null`
/// when the image is absent.
pub open spec fn json_values(o: Option<Vec<(String, String)>>) -> Seq<char> {
    match o {
        Option::None => "null"@,
        Option::Some(v) => seq!['['] + json_pair_items(v@) + seq![']'],
    }
}

/// The serialized wire form of a change event: a JSON object with all
/// fields explicit, absent row images written as `null`.
pub open spec fn event_json(e: PreUpdateEvent) -> Seq<char> {
    "{\"db_name\":"@ + json_string(e.db_name@) + ",\"table\":"@ + json_string(e.table@)
        + ",\"operation\":"@ + json_string(e.operation.wire_name()) + ",\"rowid\":"@ + int_digits(
        e.rowid as int,
    ) + ",\"old_values\":"@ + json_values(e.old_values) + ",\"new_values\":"@ + json_values(
        e.new_values,
    ) + seq!['}']
}

/// The column entries distribute over concatenation of nonempty halves.
proof fn lemma_pair_items_concat(a: Seq<(String, String)>, b: Seq<(String, String)>)
    requires
        a.len() > 0,
        b.len() > 0,
    ensures
        json_pair_items(a + b) == json_pair_items(a) + seq![','] + json_pair_items(b),
    decreases a.len(),
{
    if a.len() == 1 {
        assert((a + b)[0] == a[0]);
        assert((a + b).skip(1) =~= b);
        assert((a + b).len() >= 2);
        assert(json_pair_items(a + b) == json_pair(a[0]) + seq![','] + json_pair_items(b));
        assert(json_pair(a[0]) + seq![','] + json_pair_items(b) =~= json_pair_items(a) + seq![',']
            + json_pair_items(b));
    } else {
        lemma_pair_items_concat(a.skip(1), b);
        assert((a + b)[0] == a[0]);
        assert((a + b).skip(1) =~= a.skip(1) + b);
        assert(json_pair_items(a + b) =~= json_pair_items(a) + seq![','] + json_pair_items(b));
    }
}

/// Serializing one more column entry appends a comma and that entry.
proof fn lemma_pair_items_snoc(ps: Seq<(String, String)>, i: int)
    requires
        0 < i < ps.len(),
    ensures
        json_pair_items(ps.take(i + 1)) == json_pair_items(ps.take(i)) + seq![','] + json_pair(
            ps[i],
        ),
{
    let single = seq![ps[i]];
    assert(ps.take(i + 1) =~= ps.take(i) + single);
    lemma_pair_items_concat(ps.take(i), single);
    assert(json_pair_items(single) == json_pair(single[0]));
}

/// Renders one column entry as a two-element JSON array.
fn json_pair_exec(p: &(String, String)) -> (r: String)
    ensures
        r@ == json_pair(*p),
{
    let mut out = String::new();
    string_push(&mut out, '[');
    let label = json_string_exec(p.0.as_str());
    out.append(label.as_str());
    string_push(&mut out, ',');
    let value = json_string_exec(p.1.as_str());
    out.append(value.as_str());
    string_push(&mut out, ']');
    proof {
        assert(out@ =~= json_pair(*p));
    }
    out
}

/// Renders a row image as a JSON array of column entries, `null` when
/// the image is absent.
fn json_values_exec(o: &Option<Vec<(String, String)>>) -> (r: String)
    ensures
        r@ == json_values(*o),
{
    match o {
        Option::None => String::from_str("null"),
        Option::Some(v) => {
            let mut out = String::new();
            string_push(&mut out, '[');
            let mut i: usize = 0;
            while i < v.len()
                invariant
                    i <= v@.len(),
                    out@ == seq!['['] + json_pair_items(v@.take(i as int)),
                decreases v@.len() - i,
            {
                let ghost prev = out@;
                if i > 0 {
                    string_push(&mut out, ',');
                }
                let entry = json_pair_exec(&v[i]);
                out.append(entry.as_str());
                proof {
                    if i == 0 {
                        assert(v@.take(1) =~= seq![v@[0]]);
                        assert(out@ =~= seq!['['] + json_pair_items(v@.take(1)));
                    } else {
                        lemma_pair_items_snoc(v@, i as int);
                        assert(out@ =~= seq!['['] + json_pair_items(v@.take(i + 1)));
                    }
                }
                i = i + 1;
            }
            string_push(&mut out, ']');
            proof {
                assert(v@.take(v@.len() as int) =~= v@);
                assert(out@ =~= json_values(Option::Some(*v)));
            }
            out
        },
    }
}

/// Serializes a change event to its JSON wire form, every field
/// explicit and absent row images written as `null`.
pub fn serialize_event(e: &PreUpdateEvent) -> (r: String)
    ensures
        r@ == event_json(*e),
{
    let mut out = String::from_str("{\"db_name\":");
    let db = json_string_exec(e.db_name.as_str());
    out.append(db.as_str());
    out.append(",\"table\":");
    let table = json_string_exec(e.table.as_str());
    out.append(table.as_str());
    out.append(",\"operation\":");
    let op_name = e.operation.to_wire_name();
    let op = json_string_exec(op_name.as_str());
    out.append(op.as_str());
    out.append(",\"rowid\":");
    let rowid = i64_to_dec_string(e.rowid);
    out.append(rowid.as_str());
    out.append(",\"old_values\":");
    let old_vals = json_values_exec(&e.old_values);
    out.append(old_vals.as_str());
    out.append(",\"new_values\":");
    let new_vals = json_values_exec(&e.new_values);
    out.append(new_vals.as_str());
    string_push(&mut out, '}');
    proof {
        assert(out@ =~= event_json(*e));
    }
    out
}

/// What one dispatcher step did.
pub enum DispatchOutcome {
    /// The queue was empty; nothing to do.
    Idle,
    /// An event was dequeued and serialized; the payload is to be
    /// handed to the registered callback.
    Deliver(String),
    /// An event was dequeued while no callback was registered; it is
    /// dropped silently.
    Skipped,
}

/// The dispatch point: owns the receiving half of the event queue and
/// the knowledge whether an external callback is currently registered.
pub struct Dispatcher {
    queue: EventQueue,
    callback_registered: bool,
}

impl Dispatcher {
    /// The events waiting to be dispatched, oldest first.
    pub closed spec fn pending(self) -> Seq<PreUpdateEvent> {
        self.queue.contents()
    }

    /// The queue capacity.
    pub closed spec fn cap(self) -> nat {
        self.queue.cap()
    }

    /// Whether an external callback is currently registered.
    pub closed spec fn callback_present(self) -> bool {
        self.callback_registered
    }

    pub open spec fn wf(self) -> bool {
        self.pending().len() <= self.cap()
    }

    /// A dispatcher over an empty queue of the given capacity, with no
    /// callback registered yet: registration happens later, possibly
    /// after events have already been queued.
    pub fn new(capacity: usize) -> (d: Dispatcher)
        ensures
            d.wf(),
            d.cap() == capacity,
            d.pending() == Seq::<PreUpdateEvent>::empty(),
            !d.callback_present(),
    {
        Dispatcher { queue: EventQueue::new(capacity), callback_registered: false }
    }

    /// Records whether a callback is registered. Callable at any time
    /// and any number of times — the last registration wins — and never
    /// loses in-flight events.
    pub fn set_callback_registered(&mut self, present: bool)
        requires
            old(self).wf(),
        ensures
            final(self).wf(),
            final(self).callback_present() == present,
            final(self).pending() == old(self).pending(),
            final(self).cap() == old(self).cap(),
    {
        self.callback_registered = present;
    }

    /// Producer side: non-blocking send into the queue. The event is
    /// enqueued exactly when there is room and dropped otherwise; a
    /// full queue never stalls or fails the writer.
    pub fn submit(&mut self, e: PreUpdateEvent) -> (ok: bool)
        requires
            old(self).wf(),
        ensures
            final(self).wf(),
            final(self).cap() == old(self).cap(),
            final(self).callback_present() == old(self).callback_present(),
            ok == (old(self).pending().len() < old(self).cap()),
            ok ==> final(self).pending() == old(self).pending().push(e),
            !ok ==> final(self).pending() == old(self).pending(),
    {
        self.queue.try_send(e)
    }

    /// Consumer side: one dispatch step. Dequeues the oldest event and
    /// serializes it for the callback; with no callback registered the
    /// event is dropped silently, and an empty queue leaves everything
    /// unchanged. Events are handed out strictly in queue order.
    pub fn step(&mut self) -> (r: DispatchOutcome)
        requires
            old(self).wf(),
        ensures
            final(self).wf(),
            final(self).cap() == old(self).cap(),
            final(self).callback_present() == old(self).callback_present(),
            old(self).pending().len() == 0 ==> r is Idle && final(self).pending() == old(
                self,
            ).pending(),
            old(self).pending().len() > 0 ==> final(self).pending() == old(self).pending().skip(1),
            old(self).pending().len() > 0 && old(self).callback_present() ==> (r matches
                DispatchOutcome::Deliver(payload) && payload@ == event_json(
                old(self).pending()[0],
            )),
            old(self).pending().len() > 0 && !old(self).callback_present() ==> r is Skipped,
    {
        match self.queue.recv() {
            Option::None => DispatchOutcome::Idle,
            Option::Some(e) => {
                if self.callback_registered {
                    DispatchOutcome::Deliver(serialize_event(&e))
                } else {
                    DispatchOutcome::Skipped
                }
            },
        }
    }
}

} // verus!
