use event_dispatch::dispatch::DispatchStep;
use event_dispatch::dispatcher::World;
use event_dispatch::event::{Event, EventError, EventPhase, Value};

/// Drive one dispatch to completion, invoking `on_fire` for each
/// callback handle the stepper yields, as the host interpreter would.
/// Returns the handles in firing order and whether default behaviour
/// still stands.
fn run_dispatch(
    w: &mut World,
    target: usize,
    event: Event,
    mut on_fire: impl FnMut(&mut World, &mut Event, u64),
) -> (Vec<u64>, bool) {
    let (mut ev, mut session) = w.dispatch_event(target, Value::Event(event)).unwrap();
    let mut fired: Vec<u64> = Vec::new();
    loop {
        match session.dispatch_next(w, &mut ev) {
            DispatchStep::Fire(cb) => {
                fired.push(cb);
                on_fire(w, &mut ev, cb);
            }
            DispatchStep::Continue => {}
            DispatchStep::Done => break,
        }
    }
    (fired, !ev.default_prevented)
}

#[test]
fn priority_order_is_descending_and_stable() {
    let mut w = World::new();
    let n = w.instance_init(None);
    let ty = String::from("go");
    for (cb, pri) in [(1u64, 5), (2u64, 1), (3u64, 5), (4u64, 0)] {
        w.add_event_listener(n, &ty, &Value::Callable(cb), false, pri).unwrap();
    }
    let (fired, _) = run_dispatch(&mut w, n, Event::new(ty, false, false), |_, _, _| {});
    assert_eq!(fired, vec![1, 3, 2, 4]);
}

#[test]
fn duplicate_registration_keeps_priority_and_position() {
    let mut w = World::new();
    let n = w.instance_init(None);
    let ty = String::from("go");
    w.add_event_listener(n, &ty, &Value::Callable(7), false, 5).unwrap();
    // Same (listener, phase) at another priority: a no-op.
    w.add_event_listener(n, &ty, &Value::Callable(7), false, 0).unwrap();
    w.add_event_listener(n, &ty, &Value::Callable(8), false, 3).unwrap();
    let (fired, _) = run_dispatch(&mut w, n, Event::new(ty, false, false), |_, _, _| {});
    // Had the second registration taken effect, 8 would fire first.
    assert_eq!(fired, vec![7, 8]);
}

#[test]
fn capture_then_target_then_bubble() {
    let mut w = World::new();
    let a = w.instance_init(None);
    let b = w.instance_init(None);
    let c = w.instance_init(None);
    w.set_parent(b, Some(a));
    w.set_parent(c, Some(b));
    let ty = String::from("ping");
    w.add_event_listener(a, &ty, &Value::Callable(1), true, 0).unwrap();
    w.add_event_listener(b, &ty, &Value::Callable(2), false, 0).unwrap();
    w.add_event_listener(c, &ty, &Value::Callable(3), false, 0).unwrap();
    w.add_event_listener(a, &ty, &Value::Callable(4), false, 0).unwrap();
    let (fired, ok) = run_dispatch(&mut w, c, Event::new(ty, true, true), |_, _, _| {});
    assert_eq!(fired, vec![1, 3, 2, 4]);
    assert!(ok);
}

#[test]
fn capture_walks_root_to_target_bubble_walks_back() {
    let mut w = World::new();
    let a = w.instance_init(None);
    let b = w.instance_init(None);
    let c = w.instance_init(None);
    w.set_parent(b, Some(a));
    w.set_parent(c, Some(b));
    let ty = String::from("ping");
    w.add_event_listener(a, &ty, &Value::Callable(1), true, 0).unwrap();
    w.add_event_listener(b, &ty, &Value::Callable(2), true, 0).unwrap();
    w.add_event_listener(c, &ty, &Value::Callable(3), false, 0).unwrap();
    w.add_event_listener(b, &ty, &Value::Callable(4), false, 0).unwrap();
    w.add_event_listener(a, &ty, &Value::Callable(5), false, 0).unwrap();
    let (fired, _) = run_dispatch(&mut w, c, Event::new(ty, true, false), |_, _, _| {});
    assert_eq!(fired, vec![1, 2, 3, 4, 5]);
}

#[test]
fn stop_propagation_in_bubble_skips_further_ancestors() {
    let mut w = World::new();
    let a = w.instance_init(None);
    let b = w.instance_init(None);
    let c = w.instance_init(None);
    w.set_parent(b, Some(a));
    w.set_parent(c, Some(b));
    let ty = String::from("ping");
    w.add_event_listener(a, &ty, &Value::Callable(1), true, 0).unwrap();
    w.add_event_listener(b, &ty, &Value::Callable(2), false, 0).unwrap();
    w.add_event_listener(c, &ty, &Value::Callable(3), false, 0).unwrap();
    w.add_event_listener(a, &ty, &Value::Callable(4), false, 0).unwrap();
    let (fired, _) = run_dispatch(&mut w, c, Event::new(ty, true, true), |_, ev, cb| {
        if cb == 2 {
            ev.stop_propagation();
        }
    });
    // A's capture listener fired long before the stop; bubbling ends at B.
    assert_eq!(fired, vec![1, 3, 2]);
}

#[test]
fn stop_propagation_during_capture_still_fires_target() {
    let mut w = World::new();
    let a = w.instance_init(None);
    let b = w.instance_init(None);
    w.set_parent(b, Some(a));
    let ty = String::from("ping");
    w.add_event_listener(a, &ty, &Value::Callable(1), true, 0).unwrap();
    w.add_event_listener(b, &ty, &Value::Callable(2), false, 0).unwrap();
    w.add_event_listener(a, &ty, &Value::Callable(3), false, 0).unwrap();
    let (fired, _) = run_dispatch(&mut w, b, Event::new(ty, true, false), |_, ev, cb| {
        if cb == 1 {
            ev.stop_propagation();
        }
    });
    // The target still fires; bubbling to A does not happen.
    assert_eq!(fired, vec![1, 2]);
}

#[test]
fn stop_immediate_propagation_skips_rest_of_node() {
    let mut w = World::new();
    let n = w.instance_init(None);
    let ty = String::from("go");
    w.add_event_listener(n, &ty, &Value::Callable(1), false, 0).unwrap();
    w.add_event_listener(n, &ty, &Value::Callable(2), false, 0).unwrap();
    let (fired, _) = run_dispatch(&mut w, n, Event::new(ty, false, false), |_, ev, cb| {
        if cb == 1 {
            ev.stop_immediate_propagation();
        }
    });
    assert_eq!(fired, vec![1]);
}

#[test]
fn self_removal_completes_current_pass_only() {
    let mut w = World::new();
    let n = w.instance_init(None);
    let ty = String::from("go");
    w.add_event_listener(n, &ty, &Value::Callable(10), false, 0).unwrap();
    w.add_event_listener(n, &ty, &Value::Callable(11), false, 0).unwrap();
    let t2 = ty.clone();
    let (fired, _) = run_dispatch(&mut w, n, Event::new(ty.clone(), false, false), |w, _, cb| {
        if cb == 10 {
            w.remove_event_listener(n, &t2, &Value::Callable(10), false).unwrap();
        }
    });
    // The snapshot rule: the pass in progress is unaffected.
    assert_eq!(fired, vec![10, 11]);
    let (fired_again, _) = run_dispatch(&mut w, n, Event::new(ty, false, false), |_, _, _| {});
    assert_eq!(fired_again, vec![11]);
}

#[test]
fn registration_during_firing_misses_current_pass() {
    let mut w = World::new();
    let n = w.instance_init(None);
    let ty = String::from("go");
    w.add_event_listener(n, &ty, &Value::Callable(1), false, 0).unwrap();
    let t2 = ty.clone();
    let (fired, _) = run_dispatch(&mut w, n, Event::new(ty.clone(), false, false), |w, _, cb| {
        if cb == 1 {
            w.add_event_listener(n, &t2, &Value::Callable(2), false, 9).unwrap();
        }
    });
    assert_eq!(fired, vec![1]);
    let (fired_again, _) = run_dispatch(&mut w, n, Event::new(ty, false, false), |_, _, _| {});
    assert_eq!(fired_again, vec![2, 1]);
}

#[test]
fn invalid_event_value_is_rejected() {
    let mut w = World::new();
    let n = w.instance_init(None);
    w.add_event_listener(n, &String::from("go"), &Value::Callable(1), false, 0).unwrap();
    assert!(matches!(
        w.dispatch_event(n, Value::Integer(3)),
        Err(EventError::InvalidEvent)
    ));
    assert!(matches!(w.dispatch_event(n, Value::Undefined), Err(EventError::InvalidEvent)));
    // Listener state is untouched.
    assert!(w.has_event_listener(n, &String::from("go")));
}

#[test]
fn prevent_default_reaches_caller_only_when_cancelable() {
    let mut w = World::new();
    let n = w.instance_init(None);
    let ty = String::from("go");
    w.add_event_listener(n, &ty, &Value::Callable(1), false, 0).unwrap();
    let (_, ok) = run_dispatch(&mut w, n, Event::new(ty.clone(), false, true), |_, ev, _| {
        ev.prevent_default();
    });
    assert!(!ok);
    let (_, ok) = run_dispatch(&mut w, n, Event::new(ty, false, false), |_, ev, _| {
        ev.prevent_default();
    });
    assert!(ok);
}

#[test]
fn dispatch_sets_and_resets_event_state() {
    let mut w = World::new();
    let a = w.instance_init(None);
    let b = w.instance_init(None);
    w.set_parent(b, Some(a));
    let ty = String::from("ping");
    w.add_event_listener(b, &ty, &Value::Callable(1), false, 0).unwrap();
    w.add_event_listener(a, &ty, &Value::Callable(2), false, 0).unwrap();
    let mut seen: Vec<(u64, Option<usize>, EventPhase)> = Vec::new();
    let (mut ev, mut session) = w
        .dispatch_event(b, Value::Event(Event::new(ty, true, false)))
        .unwrap();
    assert_eq!(ev.target, Some(b));
    loop {
        match session.dispatch_next(&w, &mut ev) {
            DispatchStep::Fire(cb) => seen.push((cb, ev.current_target, ev.phase)),
            DispatchStep::Continue => {}
            DispatchStep::Done => break,
        }
    }
    assert_eq!(
        seen,
        vec![(1, Some(b), EventPhase::AtTarget), (2, Some(a), EventPhase::Bubbling)]
    );
    assert_eq!(ev.current_target, None);
    assert_eq!(ev.phase, EventPhase::Idle);
}

#[test]
fn redispatch_clears_cancellation_state() {
    let mut w = World::new();
    let n = w.instance_init(None);
    let ty = String::from("go");
    w.add_event_listener(n, &ty, &Value::Callable(1), false, 0).unwrap();
    let (mut ev, mut session) = w
        .dispatch_event(n, Value::Event(Event::new(ty, false, true)))
        .unwrap();
    loop {
        match session.dispatch_next(&w, &mut ev) {
            DispatchStep::Fire(_) => {
                ev.stop_immediate_propagation();
                ev.prevent_default();
            }
            DispatchStep::Continue => {}
            DispatchStep::Done => break,
        }
    }
    assert!(ev.default_prevented);
    assert!(ev.propagation_stopped);
    // Dispatch the same instance again: state is reset at entry.
    let (ev, mut session) = w.dispatch_event(n, Value::Event(ev)).unwrap();
    let mut ev = ev;
    assert!(!ev.default_prevented);
    assert!(!ev.propagation_stopped);
    assert!(!ev.immediate_propagation_stopped);
    let mut fired = 0;
    loop {
        match session.dispatch_next(&w, &mut ev) {
            DispatchStep::Fire(_) => fired += 1,
            DispatchStep::Continue => {}
            DispatchStep::Done => break,
        }
    }
    assert_eq!(fired, 1);
}

#[test]
fn non_bubbling_event_skips_bubble_phase() {
    let mut w = World::new();
    let a = w.instance_init(None);
    let b = w.instance_init(None);
    w.set_parent(b, Some(a));
    let ty = String::from("ping");
    w.add_event_listener(a, &ty, &Value::Callable(1), false, 0).unwrap();
    w.add_event_listener(b, &ty, &Value::Callable(2), false, 0).unwrap();
    let (fired, _) = run_dispatch(&mut w, b, Event::new(ty, false, false), |_, _, _| {});
    assert_eq!(fired, vec![2]);
}

#[test]
fn capture_listeners_do_not_fire_at_target() {
    let mut w = World::new();
    let n = w.instance_init(None);
    let ty = String::from("go");
    w.add_event_listener(n, &ty, &Value::Callable(1), true, 0).unwrap();
    let (fired, _) = run_dispatch(&mut w, n, Event::new(ty, true, false), |_, _, _| {});
    assert_eq!(fired, Vec::<u64>::new());
}
