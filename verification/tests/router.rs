use chat_core::friends::{FriendGraph, Status};
use chat_core::registry::{ConnHandle, Registry, RouteError};
use chat_core::router::route;

#[test]
fn route_echoes_to_the_senders_own_handle() {
    let mut r = Registry::new();
    r.register(&"u1".to_string(), ConnHandle { id: 1 });
    let d = route(&r, &"u1".to_string(), &"hello".to_string()).unwrap();
    assert_eq!(d.target, ConnHandle { id: 1 });
    assert_eq!(d.message, "Echo: hello".to_string());
}

#[test]
fn route_for_a_sender_with_no_entry_is_unreachable() {
    let r = Registry::new();
    let e = route(&r, &"u1".to_string(), &"hello".to_string()).unwrap_err();
    assert_eq!(e, RouteError::Unreachable);
}

#[test]
fn route_echoes_an_empty_payload() {
    let mut r = Registry::new();
    r.register(&"u1".to_string(), ConnHandle { id: 1 });
    let d = route(&r, &"u1".to_string(), &"".to_string()).unwrap();
    assert_eq!(d.message, "Echo: ".to_string());
}

#[test]
fn registry_friends_and_router_work_through_one_scenario() {
    let mut reg = Registry::new();
    let h1 = ConnHandle { id: 1 };
    let h2 = ConnHandle { id: 2 };
    reg.register(&"u1".to_string(), h1);
    reg.register(&"u2".to_string(), h2);

    let mut g = FriendGraph::new();
    g.request_friend(&"u1".to_string(), &"u2".to_string());
    assert_eq!(g.edge_status(&"u1".to_string(), &"u2".to_string()), Some(Status::Pending));

    g.accept_friend(&"u1".to_string(), &"u2".to_string());
    assert_eq!(g.edge_status(&"u1".to_string(), &"u2".to_string()), Some(Status::Accepted));
    assert_eq!(g.edge_status(&"u2".to_string(), &"u1".to_string()), Some(Status::Accepted));

    let d = route(&reg, &"u1".to_string(), &"ping".to_string()).unwrap();
    assert_eq!(d.message, "Echo: ping".to_string());
    assert_eq!(d.target, h1);
    assert_ne!(d.target, h2);
}
