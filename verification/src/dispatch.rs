//! The dispatch algorithm: a three-phase walk over a propagation path
//! fixed at dispatch start, exposed as a stepper.
//!
//! Invoking a listener belongs to the host interpreter, and a listener
//! may re-enter the registry (register, unregister, stop the event).
//! So `dispatch_event` only validates the argument, resets the event
//! and fixes the path; `dispatch_next` then yields one callback handle
//! at a time.  The caller invokes the callback between steps; a failing
//! listener is handled by not stepping further, which aborts the
//! remaining phases, and the failure travels to the dispatch caller.
//!
//! Each node's listeners fire from a snapshot taken when firing begins
//! at that node, so mutation during firing only affects later nodes
//! and later dispatches, never the pass in progress.

use vstd::prelude::*;
use crate::event::Event;
use crate::event::EventError;
use crate::event::EventPhase;
use crate::event::Value;
use crate::dispatcher::World;
use crate::dispatcher::Node;
use crate::dispatcher::ancestor_chain;
use crate::dispatcher::hop;
use crate::listeners::Listener;
use crate::registry::bucket_of;

verus! {

/// Where the walk stands: which path position is being visited, or
/// that the walk is over.
#[derive(Clone, Copy, PartialEq, Eq, Structural, Debug)]
pub enum Stage {
    /// Visiting the path position held, walking root-to-target; the
    /// position is never 0, the target itself is excluded.
    Capturing(usize),
    /// Visiting the target, path position 0.
    AtTarget,
    /// Visiting the path position held, walking target-to-root.
    Bubbling(usize),
    Finished,
}

/// What one step of the walk asks of the caller.
#[derive(Clone, Copy, PartialEq, Eq, Structural, Debug)]
pub enum DispatchStep {
    /// Invoke this callback handle with the event, then step again.
    Fire(u64),
    /// Bookkeeping was done; step again.
    Continue,
    /// The dispatch is complete.
    Done,
}

/// The event value carried by a script value, when it carries one.
pub open spec fn as_event(v: Value) -> Option<Event> {
    match v {
        Value::Event(e) => Some(e),
        _ => None,
    }
}

/// The node a stage visits.
pub open spec fn stage_node(path: Seq<usize>, stage: Stage) -> usize {
    match stage {
        Stage::Capturing(p) => path[p as int],
        Stage::AtTarget => path[0],
        Stage::Bubbling(p) => path[p as int],
        Stage::Finished => path[0],
    }
}

/// The phase the event reports while a stage's listeners fire.
pub open spec fn stage_phase(stage: Stage) -> EventPhase {
    match stage {
        Stage::Capturing(_) => EventPhase::Capturing,
        Stage::AtTarget => EventPhase::AtTarget,
        Stage::Bubbling(_) => EventPhase::Bubbling,
        Stage::Finished => EventPhase::Idle,
    }
}

/// The callbacks a stage fires, in order: the visited node's capture
/// bucket during capture, its bubble/target bucket otherwise.
pub open spec fn stage_snapshot(
    nodes: Seq<Node>,
    path: Seq<usize>,
    stage: Stage,
    ty: Seq<char>,
) -> Seq<u64> {
    let rows = crate::dispatcher::node_rows(nodes, stage_node(path, stage) as int);
    match stage {
        Stage::Capturing(_) => bucket_of(rows, ty, true).map_values(|l: Listener| l.callback),
        Stage::Finished => Seq::empty(),
        _ => bucket_of(rows, ty, false).map_values(|l: Listener| l.callback),
    }
}

/// The stage after the one now finishing.  Stopped propagation skips
/// the remaining ancestors of the phase — but a stop taken during
/// capture still lets the target itself fire — and skips bubbling
/// entirely; bubbling also needs the event's `bubbles` flag and a path
/// of more than one node.
pub open spec fn advance_stage(
    stage: Stage,
    path_len: int,
    propagation_stopped: bool,
    bubbles: bool,
) -> Stage {
    match stage {
        Stage::Capturing(pos) => if propagation_stopped || pos <= 1 {
            Stage::AtTarget
        } else {
            Stage::Capturing((pos - 1) as usize)
        },
        Stage::AtTarget => if propagation_stopped || !bubbles || path_len <= 1 {
            Stage::Finished
        } else {
            Stage::Bubbling(1)
        },
        Stage::Bubbling(pos) => if propagation_stopped || pos + 1 >= path_len {
            Stage::Finished
        } else {
            Stage::Bubbling((pos + 1) as usize)
        },
        Stage::Finished => Stage::Finished,
    }
}

/// One dispatch in flight: the propagation path fixed when dispatch
/// began, the walk's position, and the current node's snapshot.
pub struct DispatchSession {
    /// The target first, the root last.  Fixed at dispatch start: tree
    /// mutation mid-flight does not change the walk.
    pub path: Vec<usize>,
    pub stage: Stage,
    /// The callbacks still owed to the node being visited, in firing
    /// order, read when firing began there.
    pub snapshot: Vec<u64>,
    pub cursor: usize,
    /// Whether the current stage's node was entered (its snapshot
    /// taken, the event's `current_target` and `phase` set).
    pub entered: bool,
}

impl DispatchSession {
    pub open spec fn wf(self, nodes_len: int) -> bool {
        &&& self.path@.len() >= 1
        &&& forall|i: int| 0 <= i < self.path@.len() ==> (self.path@[i] as int) < nodes_len
        &&& self.cursor <= self.snapshot@.len()
        &&& match self.stage {
            Stage::Capturing(p) => 1 <= p < self.path@.len(),
            Stage::Bubbling(p) => 1 <= p < self.path@.len(),
            _ => true,
        }
    }

    /// One step of the walk.
    ///
    /// Entering a node reads its bucket from the live world — that is
    /// the snapshot moment.  Yielding a callback touches the world not
    /// at all: a listener unregistering itself, or anything else, still
    /// sees its own firing pass complete.
    pub fn dispatch_next(&mut self, world: &World, event: &mut Event) -> (step: DispatchStep)
        requires
            world.wf(),
            old(self).wf(world.nodes@.len() as int),
        ensures
            final(self).wf(world.nodes@.len() as int),
            final(self).path == old(self).path,
            old(self).stage is Finished ==> step == DispatchStep::Done && *final(self) == *old(
                self,
            ) && *final(event) == *old(event),
            !(old(self).stage is Finished) && !old(self).entered ==> {
                &&& step == DispatchStep::Continue
                &&& *final(self) == (DispatchSession {
                    snapshot: final(self).snapshot,
                    cursor: 0,
                    entered: true,
                    ..*old(self)
                })
                &&& final(self).snapshot@ == stage_snapshot(
                    world.nodes@,
                    old(self).path@,
                    old(self).stage,
                    old(event).event_type@,
                )
                &&& *final(event) == (Event {
                    current_target: Some(stage_node(old(self).path@, old(self).stage)),
                    phase: stage_phase(old(self).stage),
                    ..*old(event)
                })
            },
            !(old(self).stage is Finished) && old(self).entered && !old(
                event,
            ).immediate_propagation_stopped && old(self).cursor < old(self).snapshot@.len() ==> {
                &&& step == DispatchStep::Fire(old(self).snapshot@[old(self).cursor as int])
                &&& *final(self) == (DispatchSession {
                    cursor: (old(self).cursor + 1) as usize,
                    ..*old(self)
                })
                &&& *final(event) == *old(event)
            },
            !(old(self).stage is Finished) && old(self).entered && (old(
                event,
            ).immediate_propagation_stopped || old(self).cursor >= old(self).snapshot@.len()) ==> {
                let next = advance_stage(
                    old(self).stage,
                    old(self).path@.len() as int,
                    old(event).propagation_stopped,
                    old(event).bubbles,
                );
                &&& *final(self) == (DispatchSession {
                    stage: next,
                    entered: false,
                    ..*old(self)
                })
                &&& if next is Finished {
                    &&& step == DispatchStep::Done
                    &&& *final(event) == (Event {
                        current_target: None,
                        phase: EventPhase::Idle,
                        ..*old(event)
                    })
                } else {
                    &&& step == DispatchStep::Continue
                    &&& *final(event) == *old(event)
                }
            },
    {
        match self.stage {
            Stage::Finished => {
                return DispatchStep::Done;
            },
            _ => {},
        }
        if !self.entered {
            let (node, cap): (usize, bool) = match self.stage {
                Stage::Capturing(p) => (self.path[p], true),
                Stage::AtTarget => (self.path[0], false),
                Stage::Bubbling(p) => (self.path[p], false),
                Stage::Finished => (self.path[0], false),
            };
            let snap: Vec<u64> = match &world.nodes[node].dispatch {
                Some(dl) => dl.snapshot(&event.event_type, cap),
                None => Vec::new(),
            };
            proof {
                assert(snap@ =~= stage_snapshot(
                    world.nodes@,
                    self.path@,
                    self.stage,
                    event.event_type@,
                ));
            }
            event.current_target = Some(node);
            event.phase = match self.stage {
                Stage::Capturing(_) => EventPhase::Capturing,
                Stage::AtTarget => EventPhase::AtTarget,
                Stage::Bubbling(_) => EventPhase::Bubbling,
                Stage::Finished => EventPhase::Idle,
            };
            self.snapshot = snap;
            self.cursor = 0;
            self.entered = true;
            return DispatchStep::Continue;
        }
        if !event.immediate_propagation_stopped && self.cursor < self.snapshot.len() {
            let cb = self.snapshot[self.cursor];
            self.cursor = self.cursor + 1;
            return DispatchStep::Fire(cb);
        }
        let plen = self.path.len();
        let next: Stage = match self.stage {
            Stage::Capturing(pos) => if event.propagation_stopped || pos <= 1 {
                Stage::AtTarget
            } else {
                Stage::Capturing(pos - 1)
            },
            Stage::AtTarget => if event.propagation_stopped || !event.bubbles || plen <= 1 {
                Stage::Finished
            } else {
                Stage::Bubbling(1)
            },
            Stage::Bubbling(pos) => if event.propagation_stopped || pos + 1 >= plen {
                Stage::Finished
            } else {
                Stage::Bubbling(pos + 1)
            },
            Stage::Finished => Stage::Finished,
        };
        self.entered = false;
        match next {
            Stage::Finished => {
                self.stage = Stage::Finished;
                event.current_target = None;
                event.phase = EventPhase::Idle;
                DispatchStep::Done
            },
            s => {
                self.stage = s;
                DispatchStep::Continue
            },
        }
    }
}

impl World {
    /// The propagation path a dispatch on `obj` walks: `obj` first,
    /// then parents up to the root.  Computed once per dispatch.
    fn propagation_path(&self, obj: usize) -> (path: Vec<usize>)
        requires
            self.wf(),
            obj < self.nodes@.len(),
        ensures
            path@ == ancestor_chain(self.nodes@, obj, self.nodes@.len() as nat),
            path@.len() >= 1,
            path@[0] == obj,
            forall|i: int| 0 <= i < path@.len() ==> (path@[i] as int) < self.nodes@.len(),
    {
        let ghost walk = ancestor_chain(self.nodes@, obj, self.nodes@.len() as nat);
        let mut path: Vec<usize> = Vec::new();
        let mut cur: usize = obj;
        let mut fuel: usize = self.nodes.len();
        loop
            invariant
                self.wf(),
                walk == ancestor_chain(self.nodes@, obj, self.nodes@.len() as nat),
                cur < self.nodes@.len(),
                fuel <= self.nodes@.len(),
                walk =~= path@ + ancestor_chain(self.nodes@, cur, fuel as nat),
                forall|i: int| 0 <= i < path@.len() ==> (path@[i] as int) < self.nodes@.len(),
            decreases fuel,
        {
            path.push(cur);
            let through = match self.nodes[cur].target {
                Some(t) => t,
                None => cur,
            };
            let next = self.nodes[through].parent;
            proof {
                assert(hop(self.nodes@, cur) == next);
            }
            match next {
                None => {
                    proof {
                        assert(ancestor_chain(self.nodes@, cur, fuel as nat) =~= seq![cur]);
                        assert(path@ =~= walk);
                        assert(walk[0] == obj);
                    }
                    return path;
                },
                Some(p) => {
                    if fuel == 0 {
                        proof {
                            assert(ancestor_chain(self.nodes@, cur, 0) =~= seq![cur]);
                            assert(path@ =~= walk);
                            assert(walk[0] == obj);
                        }
                        return path;
                    }
                    proof {
                        assert(ancestor_chain(self.nodes@, cur, fuel as nat) == seq![cur]
                            + ancestor_chain(self.nodes@, p, (fuel - 1) as nat));
                    }
                    cur = p;
                    fuel = fuel - 1;
                },
            }
        }
    }

    /// Begin a dispatch of `arg` on `obj`.  A value that is not an
    /// event fails with `InvalidEvent` before any listener state or
    /// event field is touched.  Otherwise the event's dispatch-time
    /// state is reset, its target set, and the walk fixed; the caller
    /// then drives `dispatch_next` and, once it reports `Done`, reads
    /// the outcome off the event: default behaviour stands unless the
    /// event was cancelable and some listener prevented it.
    pub fn dispatch_event(&self, obj: usize, arg: Value) -> (r: Result<
        (Event, DispatchSession),
        EventError,
    >)
        requires
            self.wf(),
            obj < self.nodes@.len(),
        ensures
            match r {
                Ok(p) => {
                    &&& as_event(arg) is Some
                    &&& p.0 == (Event {
                        target: Some(obj),
                        current_target: None,
                        phase: EventPhase::Idle,
                        propagation_stopped: false,
                        immediate_propagation_stopped: false,
                        default_prevented: false,
                        ..as_event(arg)->0
                    })
                    &&& p.1.path@ == ancestor_chain(self.nodes@, obj, self.nodes@.len() as nat)
                    &&& p.1.stage == if p.1.path@.len() > 1 {
                        Stage::Capturing((p.1.path@.len() - 1) as usize)
                    } else {
                        Stage::AtTarget
                    }
                    &&& p.1.snapshot@ == Seq::<u64>::empty()
                    &&& p.1.cursor == 0
                    &&& !p.1.entered
                    &&& p.1.wf(self.nodes@.len() as int)
                },
                Err(e) => {
                    &&& e == EventError::InvalidEvent
                    &&& as_event(arg) is None
                },
            },
    {
        let mut event: Event = match arg {
            Value::Event(e) => e,
            _ => { return Err(EventError::InvalidEvent); },
        };
        let path = self.propagation_path(obj);
        event.target = Some(obj);
        event.current_target = None;
        event.phase = EventPhase::Idle;
        event.propagation_stopped = false;
        event.immediate_propagation_stopped = false;
        event.default_prevented = false;
        let stage = if path.len() > 1 {
            Stage::Capturing(path.len() - 1)
        } else {
            Stage::AtTarget
        };
        let session = DispatchSession { path, stage, snapshot: Vec::new(), cursor: 0, entered: false };
        proof {
            assert(session.snapshot@ =~= Seq::<u64>::empty());
        }
        Ok((event, session))
    }
}

} // verus!

