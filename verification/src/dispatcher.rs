//! The runtime context: the tree nodes, each owning at most one lazily
//! created dispatch list, and the broadcast registry.
//!
//! Nodes are handles (indices) into externally grown storage; the
//! parent link is a lookup-only back-reference, never an owning edge.
//! A node may stand in for another one (its `target` slot): parent
//! walks go through that slot when it is set, as script-visible
//! dispatchers proxy for the display object they were constructed for.

use vstd::prelude::*;
use crate::broadcast::BroadcastRegistry;
use crate::broadcast::spec_register;
use crate::event::EventError;
use crate::event::Value;
use crate::registry::DispatchList;
use crate::registry::TypeRow;
use crate::registry::spec_add;
use crate::registry::spec_remove;
use crate::registry::spec_has_listener;

verus! {

/// One tree node.
pub struct Node {
    /// The object this dispatcher answers for when walking parents;
    /// the node itself when unset.
    pub target: Option<usize>,
    /// The lookup-only link to the parent node, if attached.
    pub parent: Option<usize>,
    /// The per-object listener registry, created on first registration
    /// and never at construction.
    pub dispatch: Option<DispatchList>,
}

/// The registry rows of node `n`; a node without a dispatch list has
/// none.
pub open spec fn node_rows(nodes: Seq<Node>, n: int) -> Seq<TypeRow> {
    match nodes[n].dispatch {
        Some(dl) => dl.rows(),
        None => Seq::empty(),
    }
}

/// Whether node `n` has any listener for `ty`, in either bucket.
pub open spec fn node_has_listener(nodes: Seq<Node>, n: int, ty: Seq<char>) -> bool {
    spec_has_listener(node_rows(nodes, n), ty)
}

/// The step a propagation walk takes from `n`: the parent of the node
/// `n` answers for.
pub open spec fn hop(nodes: Seq<Node>, n: usize) -> Option<usize> {
    let t = match nodes[n as int].target {
        Some(t) => t,
        None => n,
    };
    nodes[t as int].parent
}

/// The nodes a walk starting at `n` visits: `n` itself, then parents
/// upward.  `fuel` bounds the walk, so the chain is defined even on a
/// cyclic parent relation; with fuel at least the node count it is the
/// full chain of any acyclic tree.
pub open spec fn ancestor_chain(nodes: Seq<Node>, n: usize, fuel: nat) -> Seq<usize>
    decreases fuel,
{
    seq![n] + if fuel == 0 {
        Seq::empty()
    } else {
        match hop(nodes, n) {
            Some(p) => ancestor_chain(nodes, p, (fuel - 1) as nat),
            None => Seq::empty(),
        }
    }
}

/// The value a callable script value carries.
pub open spec fn as_callable(v: Value) -> Option<u64> {
    match v {
        Value::Callable(h) => Some(h),
        _ => None,
    }
}

/// A registration is immediately visible: a world whose node `obj`
/// came out of `add_event_listener`, as that contract states it,
/// answers `has_event_listener` with true for the type.
pub proof fn lemma_add_then_has(
    before: World,
    after: World,
    obj: int,
    ty: Seq<char>,
    callback: u64,
    use_capture: bool,
    priority: i32,
)
    requires
        before.wf(),
        0 <= obj < before.nodes@.len(),
        after.nodes@.len() == before.nodes@.len(),
        0 <= obj < after.nodes@.len(),
        after.nodes@[obj].dispatch is Some,
        after.nodes@[obj].dispatch->0.rows() == spec_add(
            node_rows(before.nodes@, obj),
            ty,
            callback,
            use_capture,
            priority,
        ),
    ensures
        node_has_listener(after.nodes@, obj, ty),
{
    crate::registry::lemma_add_then_has(
        node_rows(before.nodes@, obj),
        ty,
        callback,
        use_capture,
        priority,
    );
}

/// Removing the only listener a type had makes `has_event_listener`
/// false again: a world whose node `obj` came out of
/// `remove_event_listener`, as that contract states it, has no
/// listener left for the type.
pub proof fn lemma_remove_only_listener(
    before: World,
    after: World,
    obj: int,
    ty: Seq<char>,
    callback: u64,
    use_capture: bool,
)
    requires
        before.wf(),
        0 <= obj < before.nodes@.len(),
        crate::registry::bucket_of(node_rows(before.nodes@, obj), ty, use_capture).len() == 1,
        crate::registry::bucket_of(node_rows(before.nodes@, obj), ty, use_capture)[0].callback
            == callback,
        crate::registry::bucket_of(node_rows(before.nodes@, obj), ty, !use_capture).len() == 0,
        after.nodes@.len() == before.nodes@.len(),
        0 <= obj < after.nodes@.len(),
        after.nodes@[obj].dispatch is Some,
        after.nodes@[obj].dispatch->0.rows() == spec_remove(
            node_rows(before.nodes@, obj),
            ty,
            callback,
            use_capture,
        ),
    ensures
        !node_has_listener(after.nodes@, obj, ty),
{
    crate::registry::lemma_remove_sole_listener(
        node_rows(before.nodes@, obj),
        ty,
        callback,
        use_capture,
    );
}

/// The runtime context.  Independent contexts share nothing, the
/// broadcast registry included.
pub struct World {
    pub nodes: Vec<Node>,
    pub broadcast: BroadcastRegistry,
}

impl World {
    /// Every stored node id points into the storage, and every
    /// dispatch list is well formed.
    pub open spec fn wf(self) -> bool {
        &&& forall|i: int|
            0 <= i < self.nodes@.len() ==> {
                let n = #[trigger] self.nodes@[i];
                &&& (n.target is Some ==> n.target->0 < self.nodes@.len())
                &&& (n.parent is Some ==> n.parent->0 < self.nodes@.len())
                &&& (n.dispatch is Some ==> n.dispatch->0.wf())
            }
        &&& crate::broadcast::registry_distinct(self.broadcast.entries_model())
    }

    /// A freshly initialized runtime context: no nodes, an empty
    /// broadcast registry.
    pub fn new() -> (w: World)
        ensures
            w.nodes@ == Seq::<Node>::empty(),
            w.broadcast.entries_model() == Seq::<(Seq<char>, usize)>::empty(),
            w.wf(),
    {
        let w = World { nodes: Vec::new(), broadcast: BroadcastRegistry::new() };
        proof {
            assert(w.nodes@ =~= Seq::<Node>::empty());
        }
        w
    }

    /// Construct a dispatcher node.  It may answer for `target`, and it
    /// owns no dispatch list yet: a node can become script-visible
    /// before its constructor body runs, so the list is created on
    /// first registration instead.
    pub fn instance_init(&mut self, target: Option<usize>) -> (id: usize)
        requires
            old(self).wf(),
            target is Some ==> target->0 < old(self).nodes@.len(),
        ensures
            id == old(self).nodes@.len(),
            final(self).nodes@ == old(self).nodes@.push(
                (Node { target, parent: None, dispatch: None }),
            ),
            final(self).broadcast == old(self).broadcast,
            final(self).wf(),
    {
        let id = self.nodes.len();
        self.nodes.push(Node { target, parent: None, dispatch: None });
        id
    }

    /// Attach `obj` under `parent`, or detach it.  The tree owns this
    /// relation; the dispatcher only reads it back during walks.
    pub fn set_parent(&mut self, obj: usize, parent: Option<usize>)
        requires
            old(self).wf(),
            obj < old(self).nodes@.len(),
            parent is Some ==> parent->0 < old(self).nodes@.len(),
        ensures
            final(self).nodes@ == old(self).nodes@.update(
                obj as int,
                (Node { parent, ..old(self).nodes@[obj as int] }),
            ),
            final(self).broadcast == old(self).broadcast,
            final(self).wf(),
    {
        let node = &mut self.nodes[obj];
        node.parent = parent;
    }

    /// Get an object's dispatch list slot ready, creating the list on
    /// first access.
    pub fn dispatch_list(&mut self, obj: usize)
        requires
            old(self).wf(),
            obj < old(self).nodes@.len(),
        ensures
            final(self).nodes@.len() == old(self).nodes@.len(),
            forall|k: int|
                0 <= k < old(self).nodes@.len() && k != obj ==> final(self).nodes@[k] == old(
                    self,
                ).nodes@[k],
            final(self).nodes@[obj as int].target == old(self).nodes@[obj as int].target,
            final(self).nodes@[obj as int].parent == old(self).nodes@[obj as int].parent,
            final(self).nodes@[obj as int].dispatch is Some,
            final(self).nodes@[obj as int].dispatch->0.rows() == node_rows(
                old(self).nodes@,
                obj as int,
            ),
            final(self).broadcast == old(self).broadcast,
            final(self).wf(),
    {
        let node = &mut self.nodes[obj];
        if node.dispatch.is_none() {
            node.dispatch = Some(DispatchList::empty_list());
        }
    }

    /// Register `listener` for `event_type` on `obj`.  A value that is
    /// not callable is rejected before anything is touched.  A
    /// non-capturing registration is also recorded in the broadcast
    /// registry.
    pub fn add_event_listener(
        &mut self,
        obj: usize,
        event_type: &String,
        listener: &Value,
        use_capture: bool,
        priority: i32,
    ) -> (r: Result<(), EventError>)
        requires
            old(self).wf(),
            obj < old(self).nodes@.len(),
        ensures
            match r {
                Ok(_) => {
                    &&& as_callable(*listener) is Some
                    &&& final(self).nodes@.len() == old(self).nodes@.len()
                    &&& forall|k: int|
                        0 <= k < old(self).nodes@.len() && k != obj ==> final(self).nodes@[k]
                            == old(self).nodes@[k]
                    &&& final(self).nodes@[obj as int].target == old(self).nodes@[obj as int].target
                    &&& final(self).nodes@[obj as int].parent == old(self).nodes@[obj as int].parent
                    &&& final(self).nodes@[obj as int].dispatch is Some
                    &&& final(self).nodes@[obj as int].dispatch->0.rows() == spec_add(
                        node_rows(old(self).nodes@, obj as int),
                        event_type@,
                        as_callable(*listener)->0,
                        use_capture,
                        priority,
                    )
                    &&& final(self).broadcast.entries_model() == if use_capture {
                        old(self).broadcast.entries_model()
                    } else {
                        spec_register(old(self).broadcast.entries_model(), event_type@, obj)
                    }
                },
                Err(e) => {
                    &&& e == EventError::InvalidListener
                    &&& as_callable(*listener) is None
                    &&& *final(self) == *old(self)
                },
            },
            final(self).wf(),
    {
        let callback: u64 = match listener {
            Value::Callable(h) => *h,
            _ => { return Err(EventError::InvalidListener); },
        };
        self.dispatch_list(obj);
        let node = &mut self.nodes[obj];
        let mut dl = match node.dispatch.take() {
            Some(d) => d,
            None => DispatchList::empty_list(),
        };
        dl.add_event_listener(event_type, priority, callback, use_capture);
        node.dispatch = Some(dl);
        if !use_capture {
            self.broadcast.register_broadcast_listener(event_type, obj);
        }
        Ok(())
    }

    /// Unregister (`listener`, `use_capture`) from `event_type` on
    /// `obj`.  An absent entry is a silent no-op; a value that is not
    /// callable is rejected.  The broadcast registry keeps its record:
    /// stale entries are harmless, listeners are re-checked live.
    pub fn remove_event_listener(
        &mut self,
        obj: usize,
        event_type: &String,
        listener: &Value,
        use_capture: bool,
    ) -> (r: Result<(), EventError>)
        requires
            old(self).wf(),
            obj < old(self).nodes@.len(),
        ensures
            match r {
                Ok(_) => {
                    &&& as_callable(*listener) is Some
                    &&& final(self).nodes@.len() == old(self).nodes@.len()
                    &&& forall|k: int|
                        0 <= k < old(self).nodes@.len() && k != obj ==> final(self).nodes@[k]
                            == old(self).nodes@[k]
                    &&& final(self).nodes@[obj as int].target == old(self).nodes@[obj as int].target
                    &&& final(self).nodes@[obj as int].parent == old(self).nodes@[obj as int].parent
                    &&& final(self).nodes@[obj as int].dispatch is Some
                    &&& final(self).nodes@[obj as int].dispatch->0.rows() == spec_remove(
                        node_rows(old(self).nodes@, obj as int),
                        event_type@,
                        as_callable(*listener)->0,
                        use_capture,
                    )
                    &&& final(self).broadcast == old(self).broadcast
                },
                Err(e) => {
                    &&& e == EventError::InvalidListener
                    &&& as_callable(*listener) is None
                    &&& *final(self) == *old(self)
                },
            },
            final(self).wf(),
    {
        let callback: u64 = match listener {
            Value::Callable(h) => *h,
            _ => { return Err(EventError::InvalidListener); },
        };
        self.dispatch_list(obj);
        let node = &mut self.nodes[obj];
        let mut dl = match node.dispatch.take() {
            Some(d) => d,
            None => DispatchList::empty_list(),
        };
        dl.remove_event_listener(event_type, callback, use_capture);
        node.dispatch = Some(dl);
        Ok(())
    }

    /// Whether `obj` itself has any listener for `event_type`, in
    /// either bucket.
    pub fn has_event_listener(&self, obj: usize, event_type: &String) -> (r: bool)
        requires
            self.wf(),
            obj < self.nodes@.len(),
        ensures
            r == node_has_listener(self.nodes@, obj as int, event_type@),
    {
        match &self.nodes[obj].dispatch {
            Some(dl) => dl.has_event_listener(event_type),
            None => false,
        }
    }

    /// Whether a dispatch of `event_type` would reach `obj` along the
    /// walk it would currently take: true exactly when some node of
    /// the ancestor chain, `obj` included, has a listener for it.
    pub fn will_trigger(&self, obj: usize, event_type: &String) -> (r: bool)
        requires
            self.wf(),
            obj < self.nodes@.len(),
        ensures
            ({
                let walk = ancestor_chain(self.nodes@, obj, self.nodes@.len() as nat);
                r == exists|k: int|
                    0 <= k < walk.len() && node_has_listener(self.nodes@, walk[k] as int,
                    event_type@)
            }),
    {
        let ghost walk = ancestor_chain(self.nodes@, obj, self.nodes@.len() as nat);
        let mut cur: usize = obj;
        let mut fuel: usize = self.nodes.len();
        let ghost mut j: int = 0;
        loop
            invariant
                self.wf(),
                walk == ancestor_chain(self.nodes@, obj, self.nodes@.len() as nat),
                cur < self.nodes@.len(),
                fuel <= self.nodes@.len(),
                0 <= j < walk.len(),
                walk[j] == cur,
                ancestor_chain(self.nodes@, cur, fuel as nat) == walk.subrange(j, walk.len() as int),
                forall|k: int|
                    0 <= k < j ==> !node_has_listener(self.nodes@, walk[k] as int, event_type@),
            decreases fuel,
        {
            let here = match &self.nodes[cur].dispatch {
                Some(dl) => dl.has_event_listener(event_type),
                None => false,
            };
            if here {
                proof {
                    assert(node_has_listener(self.nodes@, walk[j] as int, event_type@));
                }
                return true;
            }
            let through = match self.nodes[cur].target {
                Some(t) => t,
                None => cur,
            };
            let next = self.nodes[through].parent;
            proof {
                assert(hop(self.nodes@, cur) == next);
            }
            match next {
                None => {
                    proof {
                        assert(ancestor_chain(self.nodes@, cur, fuel as nat) =~= seq![cur]);
                        assert(j == walk.len() - 1);
                        assert forall|k: int| 0 <= k < walk.len() implies !node_has_listener(
                            self.nodes@,
                            walk[k] as int,
                            event_type@,
                        ) by {
                            if k == j {
                                assert(walk[k] == cur);
                            }
                        }
                    }
                    return false;
                },
                Some(p) => {
                    if fuel == 0 {
                        proof {
                            assert(ancestor_chain(self.nodes@, cur, 0) =~= seq![cur]);
                            assert(j == walk.len() - 1);
                            assert forall|k: int| 0 <= k < walk.len() implies !node_has_listener(
                                self.nodes@,
                                walk[k] as int,
                                event_type@,
                            ) by {
                                if k == j {
                                    assert(walk[k] == cur);
                                }
                            }
                        }
                        return false;
                    }
                    proof {
                        assert(ancestor_chain(self.nodes@, cur, fuel as nat) == seq![cur]
                            + ancestor_chain(self.nodes@, p, (fuel - 1) as nat));
                        assert(walk.subrange(j, walk.len() as int).drop_first()
                            =~= walk.subrange(j + 1, walk.len() as int));
                        assert(ancestor_chain(self.nodes@, p, (fuel - 1) as nat) =~= walk.subrange(
                            j + 1,
                            walk.len() as int,
                        ));
                        assert(ancestor_chain(self.nodes@, p, (fuel - 1) as nat)[0] == p);
                        j = j + 1;
                    }
                    cur = p;
                    fuel = fuel - 1;
                },
            }
        }
    }
}

} // verus!
