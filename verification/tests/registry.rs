use roomcast::registry::Registry;

#[test]
fn fresh_registry_has_no_members() {
    let reg = Registry::new();
    assert!(reg.broadcast(1).is_empty());
    assert!(reg.broadcast(42).is_empty());
}

#[test]
fn connect_puts_the_session_in_its_room() {
    let mut reg = Registry::new();
    let id = reg.connect(42);
    assert_ne!(id, 0);
    assert_eq!(reg.broadcast(42), vec![id]);
}

#[test]
fn issued_ids_are_pairwise_distinct() {
    let mut reg = Registry::new();
    let a = reg.connect(1);
    let b = reg.connect(1);
    let c = reg.connect(2);
    assert_ne!(a, b);
    assert_ne!(a, c);
    assert_ne!(b, c);
}

#[test]
fn disconnect_removes_the_session() {
    let mut reg = Registry::new();
    let id = reg.connect(3);
    reg.disconnect(id);
    assert!(reg.broadcast(3).is_empty());
}

#[test]
fn disconnect_is_idempotent() {
    let mut reg = Registry::new();
    let id = reg.connect(3);
    let other = reg.connect(3);
    reg.disconnect(id);
    let after_first = reg.broadcast(3);
    reg.disconnect(id);
    let after_second = reg.broadcast(3);
    assert_eq!(after_first, vec![other]);
    assert_eq!(after_second, vec![other]);
}

#[test]
fn disconnect_of_an_unknown_id_is_a_silent_no_op() {
    let mut reg = Registry::new();
    let id = reg.connect(9);
    reg.disconnect(id.wrapping_add(100));
    assert_eq!(reg.broadcast(9), vec![id]);
}

#[test]
fn a_session_is_in_at_most_one_room() {
    let mut reg = Registry::new();
    let id = reg.connect(5);
    assert_eq!(reg.broadcast(5), vec![id]);
    assert!(reg.broadcast(6).is_empty());
    assert!(reg.broadcast(0).is_empty());
}
