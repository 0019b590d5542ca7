use chat_core::registry::{ConnHandle, Registry, RouteError};

#[test]
fn fresh_registry_has_no_entries() {
    let r = Registry::new();
    assert_eq!(r.lookup(&"u1".to_string()), None);
}

#[test]
fn register_then_lookup_returns_handle() {
    let mut r = Registry::new();
    r.register(&"u1".to_string(), ConnHandle { id: 1 });
    assert_eq!(r.lookup(&"u1".to_string()), Some(ConnHandle { id: 1 }));
    assert_eq!(r.lookup(&"u2".to_string()), None);
}

#[test]
fn reregister_supersedes_prior_handle() {
    let mut r = Registry::new();
    r.register(&"u1".to_string(), ConnHandle { id: 1 });
    r.register(&"u1".to_string(), ConnHandle { id: 2 });
    assert_eq!(r.lookup(&"u1".to_string()), Some(ConnHandle { id: 2 }));
}

#[test]
fn stale_unregister_is_a_no_op() {
    let mut r = Registry::new();
    r.register(&"u1".to_string(), ConnHandle { id: 1 });
    r.register(&"u1".to_string(), ConnHandle { id: 2 });
    r.unregister(&"u1".to_string(), ConnHandle { id: 1 });
    assert_eq!(r.lookup(&"u1".to_string()), Some(ConnHandle { id: 2 }));
}

#[test]
fn matching_unregister_removes_entry() {
    let mut r = Registry::new();
    r.register(&"u1".to_string(), ConnHandle { id: 1 });
    r.unregister(&"u1".to_string(), ConnHandle { id: 1 });
    assert_eq!(r.lookup(&"u1".to_string()), None);
}

#[test]
fn unregister_of_absent_user_is_a_no_op() {
    let mut r = Registry::new();
    r.register(&"u1".to_string(), ConnHandle { id: 1 });
    r.unregister(&"u2".to_string(), ConnHandle { id: 1 });
    assert_eq!(r.lookup(&"u1".to_string()), Some(ConnHandle { id: 1 }));
}

#[test]
fn register_for_distinct_users_do_not_interfere() {
    let mut r = Registry::new();
    r.register(&"u1".to_string(), ConnHandle { id: 1 });
    r.register(&"u2".to_string(), ConnHandle { id: 2 });
    assert_eq!(r.lookup(&"u1".to_string()), Some(ConnHandle { id: 1 }));
    assert_eq!(r.lookup(&"u2".to_string()), Some(ConnHandle { id: 2 }));
}

#[test]
fn send_reaches_the_live_handle() {
    let mut r = Registry::new();
    r.register(&"u1".to_string(), ConnHandle { id: 9 });
    let d = r.send(&"u1".to_string(), "hi".to_string()).unwrap();
    assert_eq!(d.target, ConnHandle { id: 9 });
    assert_eq!(d.message, "hi".to_string());
}

#[test]
fn send_to_absent_user_is_unreachable() {
    let r = Registry::new();
    let e = r.send(&"u1".to_string(), "hi".to_string()).unwrap_err();
    assert_eq!(e, RouteError::Unreachable);
}

#[test]
fn clear_drops_every_entry() {
    let mut r = Registry::new();
    r.register(&"u1".to_string(), ConnHandle { id: 1 });
    r.register(&"u2".to_string(), ConnHandle { id: 2 });
    r.clear();
    assert_eq!(r.lookup(&"u1".to_string()), None);
    assert_eq!(r.lookup(&"u2".to_string()), None);
}
