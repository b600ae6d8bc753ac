use lobic::lobby::{Lobby, LobbyError, LobbyPool};

#[test]
fn new_pool_is_empty() {
    let pool = LobbyPool::new();
    assert!(pool.get_ids().is_empty());
    assert!(!pool.lobby_exists("nope"));
    assert!(pool.get("nope").is_none());
}

#[test]
fn create_lobby_makes_host_the_only_member() {
    let mut pool = LobbyPool::new();
    let id = pool.create_lobby("alice", true).unwrap();
    assert_eq!(id.chars().count(), 36);
    assert!(pool.lobby_exists(&id));
    let lobby = pool.get(&id).unwrap();
    assert_eq!(lobby.id, id);
    assert_eq!(lobby.host_id, "alice");
    assert_eq!(lobby.clients, vec!["alice".to_string()]);
    assert_eq!(pool.get_ids(), vec![id]);
}

#[test]
fn create_lobby_refuses_unknown_host() {
    let mut pool = LobbyPool::new();
    assert_eq!(pool.create_lobby("ghost", false), Err(LobbyError::UnknownAccount));
    assert!(pool.get_ids().is_empty());
}

#[test]
fn created_ids_are_distinct_and_kept_in_order() {
    let mut pool = LobbyPool::new();
    let mut ids = Vec::new();
    for _ in 0..20 {
        ids.push(pool.create_lobby("alice", true).unwrap());
    }
    for a in 0..ids.len() {
        for b in (a + 1)..ids.len() {
            assert_ne!(ids[a], ids[b]);
        }
    }
    assert_eq!(pool.get_ids(), ids);
}

#[test]
fn join_unknown_lobby_is_refused_before_account() {
    let mut pool = LobbyPool::new();
    let id = pool.create_lobby("alice", true).unwrap();
    assert_eq!(pool.join_lobby("missing", "bob", true), Err(LobbyError::UnknownLobby));
    assert_eq!(pool.join_lobby("missing", "ghost", false), Err(LobbyError::UnknownLobby));
    assert_eq!(pool.get(&id).unwrap().clients, vec!["alice".to_string()]);
    assert_eq!(pool.get_ids(), vec![id]);
}

#[test]
fn join_unknown_account_is_refused() {
    let mut pool = LobbyPool::new();
    let id = pool.create_lobby("alice", true).unwrap();
    assert_eq!(pool.join_lobby(&id, "ghost", false), Err(LobbyError::UnknownAccount));
    assert_eq!(pool.get(&id).unwrap().clients, vec!["alice".to_string()]);
}

#[test]
fn join_twice_is_idempotent() {
    let mut pool = LobbyPool::new();
    let id = pool.create_lobby("alice", true).unwrap();
    assert_eq!(pool.join_lobby(&id, "bob", true), Ok(()));
    assert_eq!(pool.join_lobby(&id, "bob", true), Ok(()));
    assert_eq!(pool.get(&id).unwrap().clients, vec!["alice".to_string(), "bob".to_string()]);
}

#[test]
fn leave_twice_is_idempotent() {
    let mut pool = LobbyPool::new();
    let id = pool.create_lobby("alice", true).unwrap();
    pool.join_lobby(&id, "bob", true).unwrap();
    pool.join_lobby(&id, "carol", true).unwrap();
    assert_eq!(pool.leave_lobby(&id, "bob", true), Ok(()));
    assert_eq!(pool.get(&id).unwrap().clients, vec!["alice".to_string(), "carol".to_string()]);
    assert_eq!(pool.leave_lobby(&id, "bob", true), Ok(()));
    assert_eq!(pool.get(&id).unwrap().clients, vec!["alice".to_string(), "carol".to_string()]);
}

#[test]
fn leave_keeps_an_emptied_lobby() {
    let mut pool = LobbyPool::new();
    let id = pool.create_lobby("alice", true).unwrap();
    assert_eq!(pool.leave_lobby(&id, "alice", true), Ok(()));
    let lobby = pool.get(&id).unwrap();
    assert!(lobby.clients.is_empty());
    assert_eq!(lobby.host_id, "alice");
}

#[test]
fn leave_errors() {
    let mut pool = LobbyPool::new();
    let id = pool.create_lobby("alice", true).unwrap();
    assert_eq!(pool.leave_lobby("missing", "alice", true), Err(LobbyError::UnknownLobby));
    assert_eq!(pool.leave_lobby(&id, "alice", false), Err(LobbyError::UnknownAccount));
    assert_eq!(pool.leave_lobby("missing", "ghost", false), Err(LobbyError::UnknownAccount));
    assert_eq!(pool.get(&id).unwrap().clients, vec!["alice".to_string()]);
}

#[test]
fn delete_then_join_fails() {
    let mut pool = LobbyPool::new();
    let a = pool.create_lobby("alice", true).unwrap();
    let b = pool.create_lobby("bob", true).unwrap();
    let removed = pool.delete_lobby(&a).unwrap();
    assert_eq!(removed.id, a);
    assert_eq!(removed.clients, vec!["alice".to_string()]);
    assert_eq!(pool.get_ids(), vec![b]);
    assert_eq!(pool.join_lobby(&a, "carol", true), Err(LobbyError::UnknownLobby));
    assert_eq!(pool.delete_lobby(&a).err(), Some(LobbyError::UnknownLobby));
}

#[test]
fn insert_adds_and_replaces() {
    let mut pool = LobbyPool::new();
    let lobby = Lobby { id: "r1".to_string(), host_id: "h".to_string(), clients: vec!["h".to_string()] };
    pool.insert("r1", lobby);
    assert_eq!(pool.get_ids(), vec!["r1".to_string()]);
    let other = Lobby {
        id: "r1".to_string(),
        host_id: "h".to_string(),
        clients: vec!["h".to_string(), "x".to_string()],
    };
    pool.insert("r1", other);
    assert_eq!(pool.get_ids(), vec!["r1".to_string()]);
    assert_eq!(pool.get("r1").unwrap().clients, vec!["h".to_string(), "x".to_string()]);
}

#[test]
fn get_returns_a_copy() {
    let mut pool = LobbyPool::new();
    let id = pool.create_lobby("alice", true).unwrap();
    let mut copy = pool.get(&id).unwrap();
    copy.clients.push("mallory".to_string());
    assert_eq!(pool.get(&id).unwrap().clients, vec!["alice".to_string()]);
    let snap = copy.snapshot();
    assert_eq!(snap.clients, copy.clients);
}
