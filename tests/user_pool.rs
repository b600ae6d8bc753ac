use lobic::connections::UserPool;

#[test]
fn register_and_lookup() {
    let mut users = UserPool::new();
    assert_eq!(users.lookup("alice"), None);
    users.register("alice", 1);
    users.register("bob", 2);
    assert_eq!(users.lookup("alice"), Some(1));
    assert_eq!(users.lookup("bob"), Some(2));
    assert_eq!(users.list_ids(), vec!["alice".to_string(), "bob".to_string()]);
    assert_eq!(users.connections(), vec![1, 2]);
}

#[test]
fn later_register_wins() {
    let mut users = UserPool::new();
    users.register("alice", 1);
    users.register("bob", 2);
    users.register("alice", 3);
    assert_eq!(users.lookup("alice"), Some(3));
    assert_eq!(users.list_ids(), vec!["alice".to_string(), "bob".to_string()]);
    assert_eq!(users.connections(), vec![3, 2]);
}

#[test]
fn unregister_needs_matching_handle() {
    let mut users = UserPool::new();
    users.register("alice", 1);
    users.register("alice", 2);
    assert!(!users.unregister("alice", 1));
    assert_eq!(users.lookup("alice"), Some(2));
    assert!(users.unregister("alice", 2));
    assert_eq!(users.lookup("alice"), None);
    assert!(!users.unregister("alice", 2));
    assert!(users.list_ids().is_empty());
}
