use event_dispatch::dispatcher::World;
use event_dispatch::event::{EventError, Value};

#[test]
fn add_then_has_listener() {
    let mut w = World::new();
    let n = w.instance_init(None);
    let ty = String::from("click");
    assert!(!w.has_event_listener(n, &ty));
    w.add_event_listener(n, &ty, &Value::Callable(1), false, 0).unwrap();
    assert!(w.has_event_listener(n, &ty));
    assert!(!w.has_event_listener(n, &String::from("hover")));
}

#[test]
fn add_capture_then_has_listener() {
    let mut w = World::new();
    let n = w.instance_init(None);
    let ty = String::from("click");
    w.add_event_listener(n, &ty, &Value::Callable(1), true, 0).unwrap();
    assert!(w.has_event_listener(n, &ty));
}

#[test]
fn remove_only_listener_clears_has() {
    let mut w = World::new();
    let n = w.instance_init(None);
    let ty = String::from("click");
    w.add_event_listener(n, &ty, &Value::Callable(1), false, 0).unwrap();
    w.remove_event_listener(n, &ty, &Value::Callable(1), false).unwrap();
    assert!(!w.has_event_listener(n, &ty));
}

#[test]
fn remove_needs_matching_phase_flag() {
    let mut w = World::new();
    let n = w.instance_init(None);
    let ty = String::from("click");
    w.add_event_listener(n, &ty, &Value::Callable(1), false, 0).unwrap();
    // Wrong phase bucket: a silent no-op.
    w.remove_event_listener(n, &ty, &Value::Callable(1), true).unwrap();
    assert!(w.has_event_listener(n, &ty));
}

#[test]
fn remove_absent_listener_is_silent() {
    let mut w = World::new();
    let n = w.instance_init(None);
    let ty = String::from("click");
    w.remove_event_listener(n, &ty, &Value::Callable(9), false).unwrap();
    assert!(!w.has_event_listener(n, &ty));
}

#[test]
fn non_callable_listener_is_rejected() {
    let mut w = World::new();
    let n = w.instance_init(None);
    let ty = String::from("click");
    assert_eq!(
        w.add_event_listener(n, &ty, &Value::Null, false, 0),
        Err(EventError::InvalidListener)
    );
    assert_eq!(
        w.remove_event_listener(n, &ty, &Value::Integer(3), false),
        Err(EventError::InvalidListener)
    );
    assert!(!w.has_event_listener(n, &ty));
}

#[test]
fn will_trigger_sees_ancestor_listener() {
    let mut w = World::new();
    let a = w.instance_init(None);
    let b = w.instance_init(None);
    let c = w.instance_init(None);
    w.set_parent(b, Some(a));
    w.set_parent(c, Some(b));
    let ty = String::from("x");
    w.add_event_listener(a, &ty, &Value::Callable(1), false, 0).unwrap();
    assert!(!w.has_event_listener(c, &ty));
    assert!(w.will_trigger(c, &ty));
    assert!(w.will_trigger(a, &ty));
}

#[test]
fn will_trigger_false_on_bare_chain() {
    let mut w = World::new();
    let a = w.instance_init(None);
    let b = w.instance_init(None);
    let c = w.instance_init(None);
    w.set_parent(b, Some(a));
    w.set_parent(c, Some(b));
    let ty = String::from("x");
    assert!(!w.will_trigger(c, &ty));
    w.add_event_listener(b, &String::from("y"), &Value::Callable(1), false, 0).unwrap();
    // A listener for another type does not help.
    assert!(!w.will_trigger(c, &ty));
}

#[test]
fn will_trigger_walks_through_target_slot() {
    let mut w = World::new();
    let parent = w.instance_init(None);
    let display = w.instance_init(None);
    w.set_parent(display, Some(parent));
    // A dispatcher answering for `display`: its walk goes through it.
    let proxy = w.instance_init(Some(display));
    let ty = String::from("x");
    w.add_event_listener(parent, &ty, &Value::Callable(1), false, 0).unwrap();
    assert!(w.will_trigger(proxy, &ty));
}

#[test]
fn broadcast_registry_records_non_capturing() {
    let mut w = World::new();
    let n = w.instance_init(None);
    let ty = String::from("enterFrame");
    w.add_event_listener(n, &ty, &Value::Callable(1), false, 0).unwrap();
    assert!(w.broadcast.is_registered(&ty, n));
    assert!(!w.broadcast.is_registered(&String::from("exitFrame"), n));
}

#[test]
fn broadcast_registry_skips_capturing() {
    let mut w = World::new();
    let n = w.instance_init(None);
    let ty = String::from("enterFrame");
    w.add_event_listener(n, &ty, &Value::Callable(1), true, 0).unwrap();
    assert!(!w.broadcast.is_registered(&ty, n));
}

#[test]
fn broadcast_registry_enumerates_recorded_objects() {
    let mut w = World::new();
    let a = w.instance_init(None);
    let b = w.instance_init(None);
    let c = w.instance_init(None);
    let ty = String::from("enterFrame");
    w.add_event_listener(a, &ty, &Value::Callable(1), false, 0).unwrap();
    w.add_event_listener(c, &ty, &Value::Callable(2), false, 0).unwrap();
    w.add_event_listener(b, &String::from("other"), &Value::Callable(3), false, 0).unwrap();
    // Registering a second listener on a recorded object adds no record.
    w.add_event_listener(a, &ty, &Value::Callable(4), false, 0).unwrap();
    assert_eq!(w.broadcast.registered_objects(&ty), vec![a, c]);
}

#[test]
fn broadcast_registry_keeps_stale_entries() {
    let mut w = World::new();
    let n = w.instance_init(None);
    let ty = String::from("enterFrame");
    w.add_event_listener(n, &ty, &Value::Callable(1), false, 0).unwrap();
    w.remove_event_listener(n, &ty, &Value::Callable(1), false).unwrap();
    // Removal leaves the record; delivery re-checks listeners live.
    assert!(w.broadcast.is_registered(&ty, n));
    assert!(!w.has_event_listener(n, &ty));
}
