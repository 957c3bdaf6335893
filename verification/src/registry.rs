//! The per-object dispatch list: a registry mapping each event type
//! name to its two phase buckets (capture and bubble/target).
//!
//! Re-registering an identical (callback, phase) pair for a type is a
//! no-op even if the priority differs; removing an absent entry is a
//! silent no-op; a type whose buckets are both empty counts as absent.

use vstd::prelude::*;
use crate::listeners::Listener;
use crate::listeners::bucket_wf;
use crate::listeners::bucket_has;
use crate::listeners::bucket_insert;
use crate::listeners::bucket_remove;
use crate::listeners::lemma_bucket_insert_wf;
use crate::listeners::lemma_bucket_remove_wf;
use crate::listeners::bucket_insert_entry;
use crate::listeners::bucket_remove_entry;

verus! {

/// The two phase buckets registered for one event type on one object.
pub struct TypeListeners {
    pub name: String,
    /// Fires during the capture phase, on ancestors of the target.
    pub capture: Vec<Listener>,
    /// Fires at the target and during the bubble phase.
    pub bubble: Vec<Listener>,
}

/// The mathematical model of one registry entry.
pub ghost struct TypeRow {
    pub name: Seq<char>,
    pub capture: Seq<Listener>,
    pub bubble: Seq<Listener>,
}

impl TypeListeners {
    pub open spec fn row(self) -> TypeRow {
        TypeRow { name: self.name@, capture: self.capture@, bubble: self.bubble@ }
    }
}

/// Whether some row of the registry carries the type name `ty`.
pub open spec fn has_type(s: Seq<TypeRow>, ty: Seq<char>) -> bool {
    exists|i: int| 0 <= i < s.len() && s[i].name == ty
}

/// The index of the row carrying `ty`; meaningful only under
/// `has_type` and key uniqueness.
pub open spec fn type_index(s: Seq<TypeRow>, ty: Seq<char>) -> int {
    choose|i: int| 0 <= i < s.len() && s[i].name == ty
}

/// A registry is well formed when no type name occurs twice and every
/// bucket is well formed.
pub open spec fn registry_wf(s: Seq<TypeRow>) -> bool {
    &&& forall|i: int, j: int| 0 <= i < j < s.len() ==> s[i].name != s[j].name
    &&& forall|i: int| 0 <= i < s.len() ==> bucket_wf(#[trigger] s[i].capture) && bucket_wf(
        s[i].bubble,
    )
}

/// The capture bucket registered for `ty`; empty when the type is
/// absent.
pub open spec fn capture_bucket(s: Seq<TypeRow>, ty: Seq<char>) -> Seq<Listener> {
    if has_type(s, ty) {
        s[type_index(s, ty)].capture
    } else {
        Seq::empty()
    }
}

/// The bubble/target bucket registered for `ty`; empty when the type
/// is absent.
pub open spec fn bubble_bucket(s: Seq<TypeRow>, ty: Seq<char>) -> Seq<Listener> {
    if has_type(s, ty) {
        s[type_index(s, ty)].bubble
    } else {
        Seq::empty()
    }
}

/// The bucket a registration with flag `use_capture` goes to.
pub open spec fn bucket_of(s: Seq<TypeRow>, ty: Seq<char>, use_capture: bool) -> Seq<Listener> {
    if use_capture {
        capture_bucket(s, ty)
    } else {
        bubble_bucket(s, ty)
    }
}

/// Whether any listener at all is registered for `ty`: a type whose
/// buckets are both empty is logically absent.
pub open spec fn spec_has_listener(s: Seq<TypeRow>, ty: Seq<char>) -> bool {
    capture_bucket(s, ty).len() > 0 || bubble_bucket(s, ty).len() > 0
}

/// The registry after registering (`callback`, `use_capture`) at
/// `priority` for the type `ty`.
pub open spec fn spec_add(
    s: Seq<TypeRow>,
    ty: Seq<char>,
    callback: u64,
    use_capture: bool,
    priority: i32,
) -> Seq<TypeRow> {
    if has_type(s, ty) {
        let i = type_index(s, ty);
        let row = s[i];
        if use_capture {
            s.update(i, TypeRow { capture: bucket_insert(row.capture, callback, priority), ..row })
        } else {
            s.update(i, TypeRow { bubble: bucket_insert(row.bubble, callback, priority), ..row })
        }
    } else {
        if use_capture {
            s.push(
                TypeRow {
                    name: ty,
                    capture: bucket_insert(Seq::empty(), callback, priority),
                    bubble: Seq::empty(),
                },
            )
        } else {
            s.push(
                TypeRow {
                    name: ty,
                    capture: Seq::empty(),
                    bubble: bucket_insert(Seq::empty(), callback, priority),
                },
            )
        }
    }
}

/// The registry after unregistering (`callback`, `use_capture`) from
/// the type `ty`.
pub open spec fn spec_remove(
    s: Seq<TypeRow>,
    ty: Seq<char>,
    callback: u64,
    use_capture: bool,
) -> Seq<TypeRow> {
    if has_type(s, ty) {
        let i = type_index(s, ty);
        let row = s[i];
        if use_capture {
            s.update(i, TypeRow { capture: bucket_remove(row.capture, callback), ..row })
        } else {
            s.update(i, TypeRow { bubble: bucket_remove(row.bubble, callback), ..row })
        }
    } else {
        s
    }
}

/// A row that carries `ty` in a registry with unique keys is the one
/// the lookup finds.
pub proof fn lemma_type_index(s: Seq<TypeRow>, ty: Seq<char>, i: int)
    requires
        forall|m: int, n: int| 0 <= m < n < s.len() ==> s[m].name != s[n].name,
        0 <= i < s.len(),
        s[i].name == ty,
    ensures
        has_type(s, ty),
        type_index(s, ty) == i,
{
    assert(has_type(s, ty));
    let w = type_index(s, ty);
    if w < i {
        assert(s[w].name != s[i].name);
    } else if w > i {
        assert(s[i].name != s[w].name);
    }
}

/// Registration preserves well-formedness.
pub proof fn lemma_spec_add_wf(
    s: Seq<TypeRow>,
    ty: Seq<char>,
    callback: u64,
    use_capture: bool,
    priority: i32,
)
    requires
        registry_wf(s),
    ensures
        registry_wf(spec_add(s, ty, callback, use_capture, priority)),
{
    let r = spec_add(s, ty, callback, use_capture, priority);
    if has_type(s, ty) {
        let i = type_index(s, ty);
        if use_capture {
            lemma_bucket_insert_wf(s[i].capture, callback, priority);
        } else {
            lemma_bucket_insert_wf(s[i].bubble, callback, priority);
        }
        assert forall|m: int, n: int| 0 <= m < n < r.len() implies r[m].name != r[n].name by {
            assert(s[m].name != s[n].name);
        }
    } else {
        lemma_bucket_insert_wf(Seq::empty(), callback, priority);
        assert forall|m: int, n: int| 0 <= m < n < r.len() implies r[m].name != r[n].name by {
            if n < s.len() {
                assert(s[m].name != s[n].name);
            } else {
                assert(!(s[m].name == ty));
            }
        }
    }
}

/// Removal preserves well-formedness.
pub proof fn lemma_spec_remove_wf(s: Seq<TypeRow>, ty: Seq<char>, callback: u64, use_capture: bool)
    requires
        registry_wf(s),
    ensures
        registry_wf(spec_remove(s, ty, callback, use_capture)),
{
    if has_type(s, ty) {
        let i = type_index(s, ty);
        if use_capture {
            lemma_bucket_remove_wf(s[i].capture, callback);
        } else {
            lemma_bucket_remove_wf(s[i].bubble, callback);
        }
        let r = spec_remove(s, ty, callback, use_capture);
        assert forall|m: int, n: int| 0 <= m < n < r.len() implies r[m].name != r[n].name by {
            assert(s[m].name != s[n].name);
        }
    }
}

/// A registration is immediately visible: after it, the registry has
/// a listener for the type.
pub proof fn lemma_add_then_has(
    s: Seq<TypeRow>,
    ty: Seq<char>,
    callback: u64,
    use_capture: bool,
    priority: i32,
)
    requires
        registry_wf(s),
    ensures
        spec_has_listener(spec_add(s, ty, callback, use_capture, priority), ty),
{
    let r = spec_add(s, ty, callback, use_capture, priority);
    if has_type(s, ty) {
        let i = type_index(s, ty);
        lemma_type_index(r, ty, i);
        if use_capture {
            if bucket_has(s[i].capture, callback) {
                assert(s[i].capture.len() > 0);
            } else {
                assert(bucket_insert(s[i].capture, callback, priority).len() > 0);
            }
        } else {
            if bucket_has(s[i].bubble, callback) {
                assert(s[i].bubble.len() > 0);
            } else {
                assert(bucket_insert(s[i].bubble, callback, priority).len() > 0);
            }
        }
    } else {
        lemma_type_index(r, ty, s.len() as int);
        assert(!bucket_has(Seq::empty(), callback));
        assert(bucket_insert(Seq::empty(), callback, priority).len() > 0);
    }
}

/// Registering the same (callback, phase) pair twice is a no-op, even
/// at a different priority: the original entry keeps its priority and
/// its position.
pub proof fn lemma_duplicate_registration(
    s: Seq<TypeRow>,
    ty: Seq<char>,
    callback: u64,
    use_capture: bool,
    first_priority: i32,
    second_priority: i32,
)
    requires
        registry_wf(s),
    ensures
        spec_add(
            spec_add(s, ty, callback, use_capture, first_priority),
            ty,
            callback,
            use_capture,
            second_priority,
        ) == spec_add(s, ty, callback, use_capture, first_priority),
{
    let r = spec_add(s, ty, callback, use_capture, first_priority);
    let i = if has_type(s, ty) { type_index(s, ty) } else { s.len() as int };
    lemma_type_index(r, ty, i);
    if has_type(s, ty) {
        if use_capture {
            assert(bucket_has(r[i].capture, callback)) by {
                if !bucket_has(s[i].capture, callback) {
                    let k = crate::listeners::insert_pos(s[i].capture, first_priority);
                    crate::listeners::lemma_insert_pos(s[i].capture, first_priority);
                    assert(r[i].capture[k].callback == callback);
                }
            }
        } else {
            assert(bucket_has(r[i].bubble, callback)) by {
                if !bucket_has(s[i].bubble, callback) {
                    let k = crate::listeners::insert_pos(s[i].bubble, first_priority);
                    crate::listeners::lemma_insert_pos(s[i].bubble, first_priority);
                    assert(r[i].bubble[k].callback == callback);
                }
            }
        }
    } else {
        if use_capture {
            assert(bucket_insert(Seq::empty(), callback, first_priority)[0].callback == callback);
            assert(bucket_has(r[i].capture, callback));
        } else {
            assert(bucket_insert(Seq::empty(), callback, first_priority)[0].callback == callback);
            assert(bucket_has(r[i].bubble, callback));
        }
    }
    assert(spec_add(r, ty, callback, use_capture, second_priority) =~= r);
}

/// Removing the only listener registered for a type makes the type
/// logically absent again.
pub proof fn lemma_remove_sole_listener(
    s: Seq<TypeRow>,
    ty: Seq<char>,
    callback: u64,
    use_capture: bool,
)
    requires
        registry_wf(s),
        bucket_of(s, ty, use_capture).len() == 1,
        bucket_of(s, ty, use_capture)[0].callback == callback,
        bucket_of(s, ty, !use_capture).len() == 0,
    ensures
        !spec_has_listener(spec_remove(s, ty, callback, use_capture), ty),
{
    assert(has_type(s, ty));
    let i = type_index(s, ty);
    let r = spec_remove(s, ty, callback, use_capture);
    lemma_type_index(r, ty, i);
    if use_capture {
        assert(bucket_has(s[i].capture, callback));
        let w = choose|n: int| 0 <= n < s[i].capture.len() && s[i].capture[n].callback == callback;
        assert(w == 0);
        assert(bucket_remove(s[i].capture, callback) =~= Seq::<Listener>::empty());
    } else {
        assert(bucket_has(s[i].bubble, callback));
        let w = choose|n: int| 0 <= n < s[i].bubble.len() && s[i].bubble[n].callback == callback;
        assert(w == 0);
        assert(bucket_remove(s[i].bubble, callback) =~= Seq::<Listener>::empty());
    }
}

/// The per-object registry.  Created lazily: an object that never
/// registered a listener owns none.
pub struct DispatchList {
    pub entries: Vec<TypeListeners>,
}

impl DispatchList {
    /// The mathematical model: the sequence of rows.
    pub open spec fn rows(self) -> Seq<TypeRow> {
        self.entries@.map_values(|e: TypeListeners| e.row())
    }

    pub open spec fn wf(self) -> bool {
        registry_wf(self.rows())
    }

    /// A registry with no rows at all.
    pub fn empty_list() -> (dl: DispatchList)
        ensures
            dl.rows() == Seq::<TypeRow>::empty(),
            dl.wf(),
    {
        let dl = DispatchList { entries: Vec::new() };
        proof {
            assert(dl.rows() =~= Seq::<TypeRow>::empty());
        }
        dl
    }

    /// The index of the row for `event_type`, if the type is present.
    fn find_type(&self, event_type: &String) -> (r: Option<usize>)
        requires
            self.wf(),
        ensures
            match r {
                Some(i) => i < self.rows().len() && self.rows()[i as int].name == event_type@
                    && has_type(self.rows(), event_type@) && type_index(self.rows(), event_type@)
                    == i as int,
                None => !has_type(self.rows(), event_type@),
            },
    {
        let mut i: usize = 0;
        while i < self.entries.len()
            invariant
                i <= self.entries@.len(),
                forall|j: int| 0 <= j < i ==> self.rows()[j].name != event_type@,
                self.wf(),
            decreases self.entries@.len() - i,
        {
            if self.entries[i].name == *event_type {
                proof {
                    lemma_type_index(self.rows(), event_type@, i as int);
                }
                return Some(i);
            }
            i += 1;
        }
        None
    }

    /// Register `callback` for `event_type` in the bucket picked by
    /// `use_capture`.  A (callback, phase) pair already present is left
    /// unmodified, whatever `priority` says.
    pub fn add_event_listener(
        &mut self,
        event_type: &String,
        priority: i32,
        callback: u64,
        use_capture: bool,
    )
        requires
            old(self).wf(),
        ensures
            final(self).rows() == spec_add(
                old(self).rows(),
                event_type@,
                callback,
                use_capture,
                priority,
            ),
            final(self).wf(),
    {
        proof {
            lemma_spec_add_wf(self.rows(), event_type@, callback, use_capture, priority);
        }
        let found = self.find_type(event_type);
        match found {
            Some(i) => {
                let entry = &mut self.entries[i];
                if use_capture {
                    bucket_insert_entry(&mut entry.capture, callback, priority);
                } else {
                    bucket_insert_entry(&mut entry.bubble, callback, priority);
                }
                proof {
                    assert(final(self).rows() =~= spec_add(
                        old(self).rows(),
                        event_type@,
                        callback,
                        use_capture,
                        priority,
                    ));
                }
            },
            None => {
                let mut capture: Vec<Listener> = Vec::new();
                let mut bubble: Vec<Listener> = Vec::new();
                if use_capture {
                    bucket_insert_entry(&mut capture, callback, priority);
                } else {
                    bucket_insert_entry(&mut bubble, callback, priority);
                }
                self.entries.push(
                    TypeListeners { name: event_type.clone(), capture, bubble },
                );
                proof {
                    assert(final(self).rows() =~= spec_add(
                        old(self).rows(),
                        event_type@,
                        callback,
                        use_capture,
                        priority,
                    ));
                }
            },
        }
    }

    /// Unregister (`callback`, `use_capture`) from `event_type`.  An
    /// absent entry is a silent no-op.
    pub fn remove_event_listener(&mut self, event_type: &String, callback: u64, use_capture: bool)
        requires
            old(self).wf(),
        ensures
            final(self).rows() == spec_remove(
                old(self).rows(),
                event_type@,
                callback,
                use_capture,
            ),
            final(self).wf(),
    {
        proof {
            lemma_spec_remove_wf(self.rows(), event_type@, callback, use_capture);
        }
        let found = self.find_type(event_type);
        match found {
            Some(i) => {
                let entry = &mut self.entries[i];
                if use_capture {
                    bucket_remove_entry(&mut entry.capture, callback);
                } else {
                    bucket_remove_entry(&mut entry.bubble, callback);
                }
                proof {
                    assert(final(self).rows() =~= spec_remove(
                        old(self).rows(),
                        event_type@,
                        callback,
                        use_capture,
                    ));
                }
            },
            None => {
                proof {
                    assert(final(self).rows() =~= spec_remove(
                        old(self).rows(),
                        event_type@,
                        callback,
                        use_capture,
                    ));
                }
            },
        }
    }

    /// The callbacks registered for `event_type` in the bucket picked
    /// by `use_capture`, in firing order.  The dispatch algorithm
    /// iterates over such a copy, taken when firing begins at a node,
    /// so re-entrant mutation never touches an in-progress pass.
    pub fn snapshot(&self, event_type: &String, use_capture: bool) -> (r: Vec<u64>)
        requires
            self.wf(),
        ensures
            r@ == bucket_of(self.rows(), event_type@, use_capture).map_values(
                |l: Listener| l.callback,
            ),
    {
        let ghost bucket = bucket_of(self.rows(), event_type@, use_capture);
        let mut r: Vec<u64> = Vec::new();
        let found = self.find_type(event_type);
        match found {
            Some(i) => {
                let entry = &self.entries[i];
                let b = if use_capture {
                    &entry.capture
                } else {
                    &entry.bubble
                };
                let mut k: usize = 0;
                while k < b.len()
                    invariant
                        k <= b@.len(),
                        b@ == bucket,
                        r@ =~= bucket.subrange(0, k as int).map_values(|l: Listener| l.callback),
                    decreases b@.len() - k,
                {
                    r.push(b[k].callback);
                    proof {
                        assert(bucket.subrange(0, k + 1 as int).drop_last() =~= bucket.subrange(
                            0,
                            k as int,
                        ));
                        assert(r@ =~= bucket.subrange(0, (k + 1) as int).map_values(
                            |l: Listener| l.callback,
                        ));
                    }
                    k += 1;
                }
                proof {
                    assert(bucket.subrange(0, bucket.len() as int) =~= bucket);
                    assert(r@ =~= bucket.map_values(|l: Listener| l.callback));
                }
            },
            None => {
                proof {
                    assert(r@ =~= bucket.map_values(|l: Listener| l.callback));
                }
            },
        }
        r
    }

    /// Whether any listener, in either bucket, is registered for
    /// `event_type`.
    pub fn has_event_listener(&self, event_type: &String) -> (r: bool)
        requires
            self.wf(),
        ensures
            r == spec_has_listener(self.rows(), event_type@),
    {
        let found = self.find_type(event_type);
        match found {
            Some(i) => {
                let entry = &self.entries[i];
                entry.capture.len() > 0 || entry.bubble.len() > 0
            },
            None => false,
        }
    }
}

} // verus!
