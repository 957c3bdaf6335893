//! Phase buckets: ordered lists of listener entries for one
//! (object, event type, phase) combination.
//!
//! A bucket keeps its entries sorted by descending priority; entries of
//! equal priority keep their registration order.  A callback appears at
//! most once per bucket: re-registering it is a no-op, whatever the new
//! priority.

use vstd::prelude::*;

verus! {

/// One registered interest: the callback handle the interpreter knows
/// the listener under, and the priority it fires at.  The event type
/// and the phase are fixed by the bucket the entry sits in.
#[derive(Clone, Copy, PartialEq, Eq, Structural, Debug)]
pub struct Listener {
    pub callback: u64,
    pub priority: i32,
}

/// A bucket is well formed when priorities descend and no callback
/// occurs twice.
pub open spec fn bucket_wf(b: Seq<Listener>) -> bool {
    &&& forall|i: int, j: int| 0 <= i < j < b.len() ==> b[i].priority >= b[j].priority
    &&& forall|i: int, j: int| 0 <= i < j < b.len() ==> b[i].callback != b[j].callback
}

/// Whether `cb` is registered in the bucket.
pub open spec fn bucket_has(b: Seq<Listener>, cb: u64) -> bool {
    exists|i: int| 0 <= i < b.len() && b[i].callback == cb
}

/// Where an entry of priority `pri` is inserted: the first position
/// whose entry has lower priority.  Insertion there keeps the bucket
/// sorted and places the new entry after every earlier entry of equal
/// priority.
pub open spec fn insert_pos(b: Seq<Listener>, pri: i32) -> int
    decreases b.len(),
{
    if b.len() == 0 {
        0
    } else if b[0].priority < pri {
        0
    } else {
        1 + insert_pos(b.subrange(1, b.len() as int), pri)
    }
}

/// The bucket after a registration: unchanged when the callback is
/// already present, else the new entry stands at its priority position.
pub open spec fn bucket_insert(b: Seq<Listener>, cb: u64, pri: i32) -> Seq<Listener> {
    if bucket_has(b, cb) {
        b
    } else {
        let k = insert_pos(b, pri);
        b.subrange(0, k) + seq![Listener { callback: cb, priority: pri }]
            + b.subrange(k, b.len() as int)
    }
}

/// The bucket after a removal: the entry holding `cb` is taken out;
/// an absent callback leaves the bucket unchanged.
pub open spec fn bucket_remove(b: Seq<Listener>, cb: u64) -> Seq<Listener> {
    if bucket_has(b, cb) {
        b.remove(choose|i: int| 0 <= i < b.len() && b[i].callback == cb)
    } else {
        b
    }
}

/// `insert_pos` is the first position whose entry has priority below
/// `pri`: everything before it is at least `pri`.
pub proof fn lemma_insert_pos(b: Seq<Listener>, pri: i32)
    ensures
        0 <= insert_pos(b, pri) <= b.len(),
        forall|j: int| 0 <= j < insert_pos(b, pri) ==> b[j].priority >= pri,
        insert_pos(b, pri) < b.len() ==> b[insert_pos(b, pri)].priority < pri,
    decreases b.len(),
{
    if b.len() == 0 {
    } else if b[0].priority < pri {
    } else {
        let tail = b.subrange(1, b.len() as int);
        lemma_insert_pos(tail, pri);
        assert forall|j: int| 0 <= j < insert_pos(b, pri) implies b[j].priority >= pri by {
            if j > 0 {
                assert(b[j] == tail[j - 1]);
            }
        }
        if insert_pos(b, pri) < b.len() {
            assert(b[insert_pos(b, pri)] == tail[insert_pos(tail, pri)]);
        }
    }
}

/// Insertion preserves well-formedness.
pub proof fn lemma_bucket_insert_wf(b: Seq<Listener>, cb: u64, pri: i32)
    requires
        bucket_wf(b),
    ensures
        bucket_wf(bucket_insert(b, cb, pri)),
{
    if !bucket_has(b, cb) {
        let k = insert_pos(b, pri);
        lemma_insert_pos(b, pri);
        let r = bucket_insert(b, cb, pri);
        assert forall|i: int, j: int| 0 <= i < j < r.len() implies r[i].priority >= r[j].priority
            && r[i].callback != r[j].callback by {
            assert(i < k ==> r[i] == b[i]);
            assert(i > k ==> r[i] == b[i - 1]);
            assert(j < k ==> r[j] == b[j]);
            assert(j > k ==> r[j] == b[j - 1]);
            if r[i].callback == cb && i != k {
                assert(bucket_has(b, cb));
            }
            if r[j].callback == cb && j != k {
                assert(bucket_has(b, cb));
            }
        }
    }
}

/// Removal preserves well-formedness.
pub proof fn lemma_bucket_remove_wf(b: Seq<Listener>, cb: u64)
    requires
        bucket_wf(b),
    ensures
        bucket_wf(bucket_remove(b, cb)),
{
    if bucket_has(b, cb) {
        let w = choose|i: int| 0 <= i < b.len() && b[i].callback == cb;
        let r = b.remove(w);
        assert forall|i: int, j: int| 0 <= i < j < r.len() implies r[i].priority >= r[j].priority
            && r[i].callback != r[j].callback by {
            assert(r[i] == (if i < w { b[i] } else { b[i + 1] }));
            assert(r[j] == (if j < w { b[j] } else { b[j + 1] }));
        }
    }
}

/// Equal priority preserves registration order: a new entry of
/// priority `pri` lands after every entry already registered at `pri`
/// (and the earlier entries keep their positions), so entries of one
/// priority fire in the order they were registered.
pub proof fn lemma_equal_priority_is_stable(b: Seq<Listener>, i: int, cb: u64, pri: i32)
    requires
        bucket_wf(b),
        0 <= i < b.len(),
        b[i].priority == pri,
        !bucket_has(b, cb),
    ensures
        i < insert_pos(b, pri),
        bucket_insert(b, cb, pri)[i] == b[i],
        bucket_insert(b, cb, pri)[insert_pos(b, pri)].callback == cb,
{
    lemma_insert_pos(b, pri);
    let k = insert_pos(b, pri);
    if k <= i {
        assert(b[k].priority < pri);
        if k < i {
            assert(b[k].priority >= b[i].priority);
        }
        assert(false);
    }
    assert(bucket_insert(b, cb, pri)[i] == b.subrange(0, k)[i]);
}

/// Register `cb` at priority `pri`.  A callback already present is
/// left where it stands, at its old priority.
pub fn bucket_insert_entry(b: &mut Vec<Listener>, cb: u64, pri: i32)
    ensures
        final(b)@ == bucket_insert(old(b)@, cb, pri),
{
    let mut i: usize = 0;
    while i < b.len()
        invariant
            i <= b@.len(),
            forall|j: int| 0 <= j < i ==> b@[j].callback != cb,
            *b == *old(b),
        decreases b@.len() - i,
    {
        if b[i].callback == cb {
            return;
        }
        i += 1;
    }
    assert(!bucket_has(b@, cb));
    let mut k: usize = 0;
    while k < b.len() && b[k].priority >= pri
        invariant
            k <= b@.len(),
            forall|j: int| 0 <= j < k ==> b@[j].priority >= pri,
            *b == *old(b),
        decreases b@.len() - k,
    {
        k += 1;
    }
    proof {
        lemma_insert_pos(b@, pri);
        let p = insert_pos(b@, pri);
        if p < k {
            assert(b@[p].priority >= pri);
        }
        if k < p {
            assert(b@[k as int].priority >= pri);
        }
        assert(p == k as int);
    }
    b.insert(k, Listener { callback: cb, priority: pri });
    proof {
        assert(final(b)@ =~= bucket_insert(old(b)@, cb, pri));
    }
}

/// Unregister `cb`.  An absent callback is a silent no-op.
pub fn bucket_remove_entry(b: &mut Vec<Listener>, cb: u64)
    requires
        bucket_wf(old(b)@),
    ensures
        final(b)@ == bucket_remove(old(b)@, cb),
{
    let mut i: usize = 0;
    while i < b.len()
        invariant
            i <= b@.len(),
            forall|j: int| 0 <= j < i ==> b@[j].callback != cb,
            *b == *old(b),
            bucket_wf(b@),
        decreases b@.len() - i,
    {
        if b[i].callback == cb {
            proof {
                assert(bucket_has(b@, cb));
                let w = choose|n: int| 0 <= n < b@.len() && b@[n].callback == cb;
                assert(old(b)@[w].callback == cb);
                assert(old(b)@[i as int].callback == cb);
                assert(w == i as int);
            }
            b.remove(i);
            return;
        }
        i += 1;
    }
    assert(!bucket_has(b@, cb));
}

} // verus!
