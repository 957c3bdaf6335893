//! The broadcast registry: process-wide record of the objects that
//! ever registered a non-capturing listener for a type.
//!
//! It is explicit state owned by the runtime context, not a hidden
//! singleton, so independent runtimes never share it.  It only grows:
//! removing a listener leaves its broadcast record behind.  Staleness
//! is harmless, since listeners are re-checked live at delivery time;
//! the enumeration and invocation loop belongs to the host runtime.

use vstd::prelude::*;

verus! {

/// Whether the model already records `obj` for the type `ty`.
pub open spec fn spec_registered(s: Seq<(Seq<char>, usize)>, ty: Seq<char>, obj: usize) -> bool {
    exists|i: int| 0 <= i < s.len() && s[i].0 == ty && s[i].1 == obj
}

/// No (type name, object) pair is recorded twice, so enumeration
/// never hands an object out twice for one type.
pub open spec fn registry_distinct(s: Seq<(Seq<char>, usize)>) -> bool {
    forall|i: int, j: int| 0 <= i < j < s.len() ==> s[i] != s[j]
}

/// Whether the model records `obj` for `ty` somewhere below `bound`.
pub open spec fn recorded_before(
    s: Seq<(Seq<char>, usize)>,
    bound: int,
    ty: Seq<char>,
    obj: usize,
) -> bool {
    exists|j: int| 0 <= j < bound && s[j] == (ty, obj)
}

/// The model after recording `obj` for `ty`: unchanged when already
/// present, else the pair is appended.
pub open spec fn spec_register(
    s: Seq<(Seq<char>, usize)>,
    ty: Seq<char>,
    obj: usize,
) -> Seq<(Seq<char>, usize)> {
    if spec_registered(s, ty, obj) {
        s
    } else {
        s.push((ty, obj))
    }
}

/// The set of (type name, object) pairs that ever registered a
/// non-capturing listener.
pub struct BroadcastRegistry {
    pub pairs: Vec<(String, usize)>,
}

impl BroadcastRegistry {
    /// The mathematical model: the recorded pairs, type names by view.
    pub open spec fn entries_model(self) -> Seq<(Seq<char>, usize)> {
        self.pairs@.map_values(|p: (String, usize)| (p.0@, p.1))
    }

    /// An empty registry, for a freshly initialized runtime.
    pub fn new() -> (r: BroadcastRegistry)
        ensures
            r.entries_model() == Seq::<(Seq<char>, usize)>::empty(),
            registry_distinct(r.entries_model()),
    {
        let r = BroadcastRegistry { pairs: Vec::new() };
        proof {
            assert(r.entries_model() =~= Seq::<(Seq<char>, usize)>::empty());
        }
        r
    }

    /// Whether `object` is recorded for `event_type`.
    pub fn is_registered(&self, event_type: &String, object: usize) -> (r: bool)
        ensures
            r == spec_registered(self.entries_model(), event_type@, object),
    {
        let mut i: usize = 0;
        while i < self.pairs.len()
            invariant
                i <= self.pairs@.len(),
                forall|j: int|
                    0 <= j < i ==> !(#[trigger] self.entries_model()[j].0 == event_type@
                        && self.entries_model()[j].1 == object),
            decreases self.pairs@.len() - i,
        {
            let p = &self.pairs[i];
            if p.0 == *event_type && p.1 == object {
                proof {
                    assert(self.entries_model()[i as int] == (event_type@, object));
                }
                return true;
            }
            i += 1;
        }
        false
    }

    /// The objects recorded for `event_type`: exactly those whose
    /// registration the model holds.  The delivery loop enumerates
    /// these and re-checks each object's listeners live.
    pub fn registered_objects(&self, event_type: &String) -> (r: Vec<usize>)
        requires
            registry_distinct(self.entries_model()),
        ensures
            forall|k: int|
                0 <= k < r@.len() ==> spec_registered(self.entries_model(), event_type@, r@[k]),
            forall|obj: usize|
                spec_registered(self.entries_model(), event_type@, obj) ==> r@.contains(obj),
            forall|k: int, l: int| 0 <= k < l < r@.len() ==> r@[k] != r@[l],
    {
        let mut r: Vec<usize> = Vec::new();
        let mut i: usize = 0;
        while i < self.pairs.len()
            invariant
                i <= self.pairs@.len(),
                registry_distinct(self.entries_model()),
                forall|k: int|
                    0 <= k < r@.len() ==> recorded_before(
                        self.entries_model(),
                        i as int,
                        event_type@,
                        #[trigger] r@[k],
                    ),
                forall|j: int|
                    0 <= j < i && #[trigger] self.entries_model()[j].0 == event_type@
                        ==> r@.contains(self.entries_model()[j].1),
                forall|k: int, l: int| 0 <= k < l < r@.len() ==> r@[k] != r@[l],
            decreases self.pairs@.len() - i,
        {
            let p = &self.pairs[i];
            if p.0 == *event_type {
                let ghost before = r@;
                r.push(p.1);
                proof {
                    assert(r@[before.len() as int] == self.entries_model()[i as int].1);
                    assert(self.entries_model()[i as int] == (event_type@, p.1));
                    assert forall|y: usize| before.contains(y) implies r@.contains(y) by {
                        let w = choose|w: int| 0 <= w < before.len() && before[w] == y;
                        assert(r@[w] == y);
                    }
                    assert forall|k: int|
                        0 <= k < r@.len() implies recorded_before(
                        self.entries_model(),
                        i as int + 1,
                        event_type@,
                        r@[k],
                    ) by {
                        if k < before.len() {
                            let j = choose|j: int|
                                0 <= j < i && self.entries_model()[j] == (event_type@, before[k]);
                            assert(0 <= j < i as int + 1 && self.entries_model()[j] == (
                                event_type@,
                                r@[k],
                            ));
                        } else {
                            assert(self.entries_model()[i as int] == (event_type@, r@[k]));
                        }
                    }
                    assert forall|k: int, l: int| 0 <= k < l < r@.len() implies r@[k] != r@[l] by {
                        if l == before.len() && r@[k] == r@[l] {
                            let j = choose|j: int|
                                0 <= j < i && self.entries_model()[j] == (event_type@, before[k]);
                            assert(self.entries_model()[j] == self.entries_model()[i as int]);
                        }
                    }
                }
            } else {
                proof {
                    assert forall|k: int|
                        0 <= k < r@.len() implies recorded_before(
                        self.entries_model(),
                        i as int + 1,
                        event_type@,
                        r@[k],
                    ) by {
                        let j = choose|j: int|
                            0 <= j < i && self.entries_model()[j] == (event_type@, r@[k]);
                        assert(0 <= j < i as int + 1 && self.entries_model()[j] == (
                            event_type@,
                            r@[k],
                        ));
                    }
                }
            }
            i += 1;
        }
        proof {
            assert forall|k: int|
                0 <= k < r@.len() implies spec_registered(
                self.entries_model(),
                event_type@,
                r@[k],
            ) by {
                let j = choose|j: int|
                    0 <= j < i && self.entries_model()[j] == (event_type@, r@[k]);
                assert(self.entries_model()[j].0 == event_type@ && self.entries_model()[j].1
                    == r@[k]);
            }
        }
        proof {
            assert forall|obj: usize|
                spec_registered(self.entries_model(), event_type@, obj) implies r@.contains(
                obj,
            ) by {
                let w = choose|w: int|
                    0 <= w < self.entries_model().len() && self.entries_model()[w].0 == event_type@
                        && self.entries_model()[w].1 == obj;
                assert(self.entries_model()[w].0 == event_type@);
            }
        }
        r
    }

    /// Record `object` as a broadcast target for `event_type`.  A pair
    /// already recorded is not recorded twice.
    pub fn register_broadcast_listener(&mut self, event_type: &String, object: usize)
        ensures
            final(self).entries_model() == spec_register(
                old(self).entries_model(),
                event_type@,
                object,
            ),
            registry_distinct(old(self).entries_model()) ==> registry_distinct(
                final(self).entries_model(),
            ),
    {
        if !self.is_registered(event_type, object) {
            self.pairs.push((event_type.clone(), object));
            proof {
                assert(final(self).entries_model() =~= spec_register(
                    old(self).entries_model(),
                    event_type@,
                    object,
                ));
                let o = old(self).entries_model();
                let f = final(self).entries_model();
                if registry_distinct(o) {
                    assert forall|i: int, j: int| 0 <= i < j < f.len() implies f[i] != f[j] by {
                        if j == o.len() {
                            if f[i] == (event_type@, object) {
                                assert(spec_registered(o, event_type@, object));
                            }
                        }
                    }
                }
            }
        }
    }
}

} // verus!
