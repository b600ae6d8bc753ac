use lobic::hub::Hub;
use lobic::protocol::{Delivery, Failure, Field, Frame, Notice, OpCode, Payload, ProtocolError, Reply, Request};
use lobic::session::{checked_account, frame_account, Session};
use lobic::connections::OUTBOUND_CAPACITY;
use tokio::sync::broadcast;

fn created_id(out: &[Delivery]) -> String {
    match &out[0].reply {
        Reply::Success { for_op: OpCode::CreateLobby, value: Payload::LobbyId(id) } => id.clone(),
        other => panic!("unexpected reply {:?}", other),
    }
}

fn notice(op: OpCode, n: Notice) -> Reply {
    Reply::Success { for_op: op, value: Payload::Notice(n) }
}

#[test]
fn message_reaches_other_member_only() {
    let mut hub = Hub::new();
    let (a, b) = (1u64, 2u64);
    hub.handle(a, Request::Connect { user_id: "A".to_string() }, false);
    let out = hub.handle(a, Request::CreateLobby { host_id: "A".to_string() }, true);
    let room = created_id(&out);
    hub.handle(b, Request::Connect { user_id: "B".to_string() }, false);
    let joined = hub.handle(b, Request::JoinLobby { lobby_id: room.clone(), user_id: "B".to_string() }, true);
    assert_eq!(
        joined,
        vec![Delivery { to: b, reply: Reply::Success { for_op: OpCode::JoinLobby, value: Payload::LobbyId(room.clone()) } }]
    );
    let out = hub.handle(
        a,
        Request::Message { lobby_id: room.clone(), user_id: "A".to_string(), message: "hello".to_string() },
        true,
    );
    assert_eq!(
        out,
        vec![Delivery { to: b, reply: Reply::Message { from: "A".to_string(), message: "hello".to_string() } }]
    );
    assert!(out.iter().all(|d| d.to != a));
}

#[test]
fn message_skips_members_without_connection() {
    let mut hub = Hub::new();
    hub.handle(1, Request::Connect { user_id: "A".to_string() }, false);
    let room = created_id(&hub.handle(1, Request::CreateLobby { host_id: "A".to_string() }, true));
    hub.handle(9, Request::JoinLobby { lobby_id: room.clone(), user_id: "offline".to_string() }, true);
    let out = hub.handle(1, Request::Message { lobby_id: room, user_id: "A".to_string(), message: "x".to_string() }, true);
    assert!(out.is_empty());
}

#[test]
fn message_errors() {
    let mut hub = Hub::new();
    let room = created_id(&hub.handle(1, Request::CreateLobby { host_id: "A".to_string() }, true));
    let out = hub.handle(1, Request::Message { lobby_id: "nope".to_string(), user_id: "A".to_string(), message: "x".to_string() }, false);
    assert_eq!(out, vec![Delivery { to: 1, reply: Reply::Error(Failure::UnknownLobby("nope".to_string())) }]);
    let out = hub.handle(1, Request::Message { lobby_id: room, user_id: "ghost".to_string(), message: "x".to_string() }, false);
    assert_eq!(out, vec![Delivery { to: 1, reply: Reply::Error(Failure::UnknownAccount("ghost".to_string())) }]);
}

#[test]
fn connect_is_not_seen_by_listing() {
    let mut hub = Hub::new();
    let room = created_id(&hub.handle(1, Request::CreateLobby { host_id: "A".to_string() }, true));
    let before = hub.handle(2, Request::GetLobbyIds, false);
    let out = hub.handle(3, Request::Connect { user_id: "C".to_string() }, false);
    assert_eq!(out, vec![Delivery { to: 3, reply: notice(OpCode::Connect, Notice::Connected) }]);
    let after = hub.handle(2, Request::GetLobbyIds, false);
    assert_eq!(before, after);
    assert_eq!(
        after,
        vec![Delivery { to: 2, reply: Reply::Success { for_op: OpCode::GetLobbyIds, value: Payload::LobbyIds(vec![room]) } }]
    );
}

#[test]
fn connect_makes_account_a_target() {
    let mut hub = Hub::new();
    let room = created_id(&hub.handle(1, Request::CreateLobby { host_id: "A".to_string() }, true));
    hub.handle(1, Request::JoinLobby { lobby_id: room.clone(), user_id: "C".to_string() }, true);
    let out = hub.handle(1, Request::Message { lobby_id: room.clone(), user_id: "A".to_string(), message: "m".to_string() }, true);
    assert!(out.is_empty());
    hub.handle(3, Request::Connect { user_id: "C".to_string() }, false);
    let out = hub.handle(1, Request::Message { lobby_id: room, user_id: "A".to_string(), message: "m".to_string() }, true);
    assert_eq!(out, vec![Delivery { to: 3, reply: Reply::Message { from: "A".to_string(), message: "m".to_string() } }]);
}

#[test]
fn create_broadcasts_room_list() {
    let mut hub = Hub::new();
    hub.handle(1, Request::Connect { user_id: "A".to_string() }, false);
    hub.handle(2, Request::Connect { user_id: "B".to_string() }, false);
    let out = hub.handle(1, Request::CreateLobby { host_id: "A".to_string() }, true);
    let room = created_id(&out);
    let list = Reply::Success { for_op: OpCode::GetLobbyIds, value: Payload::LobbyIds(vec![room.clone()]) };
    assert_eq!(
        out,
        vec![
            Delivery { to: 1, reply: Reply::Success { for_op: OpCode::CreateLobby, value: Payload::LobbyId(room) } },
            Delivery { to: 1, reply: list.clone() },
            Delivery { to: 2, reply: list },
        ]
    );
}

#[test]
fn create_unknown_host_only_errors() {
    let mut hub = Hub::new();
    hub.handle(1, Request::Connect { user_id: "A".to_string() }, false);
    let out = hub.handle(1, Request::CreateLobby { host_id: "ghost".to_string() }, false);
    assert_eq!(out, vec![Delivery { to: 1, reply: Reply::Error(Failure::UnknownAccount("ghost".to_string())) }]);
    assert!(hub.lobbies.get_ids().is_empty());
}

#[test]
fn delete_notifies_each_connected_member_once() {
    let mut hub = Hub::new();
    hub.handle(1, Request::Connect { user_id: "A".to_string() }, false);
    hub.handle(2, Request::Connect { user_id: "B".to_string() }, false);
    let room = created_id(&hub.handle(1, Request::CreateLobby { host_id: "A".to_string() }, true));
    hub.handle(2, Request::JoinLobby { lobby_id: room.clone(), user_id: "B".to_string() }, true);
    hub.handle(2, Request::JoinLobby { lobby_id: room.clone(), user_id: "B".to_string() }, true);
    hub.handle(9, Request::JoinLobby { lobby_id: room.clone(), user_id: "offline".to_string() }, true);
    let out = hub.handle(5, Request::DeleteLobby { lobby_id: room.clone() }, false);
    assert_eq!(
        out,
        vec![
            Delivery { to: 1, reply: notice(OpCode::LeaveLobby, Notice::HostDisconnected) },
            Delivery { to: 2, reply: notice(OpCode::LeaveLobby, Notice::HostDisconnected) },
            Delivery { to: 5, reply: notice(OpCode::DeleteLobby, Notice::Deleted) },
        ]
    );
    let out = hub.handle(3, Request::JoinLobby { lobby_id: room.clone(), user_id: "A".to_string() }, true);
    assert_eq!(out, vec![Delivery { to: 3, reply: Reply::Error(Failure::UnknownLobby(room.clone())) }]);
    let out = hub.handle(3, Request::DeleteLobby { lobby_id: room.clone() }, false);
    assert_eq!(out, vec![Delivery { to: 3, reply: Reply::Error(Failure::UnknownLobby(room)) }]);
}

#[test]
fn leave_twice_through_hub() {
    let mut hub = Hub::new();
    let room = created_id(&hub.handle(1, Request::CreateLobby { host_id: "A".to_string() }, true));
    hub.handle(2, Request::JoinLobby { lobby_id: room.clone(), user_id: "B".to_string() }, true);
    let leave = Request::LeaveLobby { lobby_id: room.clone(), user_id: "B".to_string() };
    let ok = vec![Delivery { to: 2, reply: notice(OpCode::LeaveLobby, Notice::Left) }];
    assert_eq!(hub.handle(2, leave.clone(), true), ok);
    assert_eq!(hub.handle(2, leave, true), ok);
    assert_eq!(hub.lobbies.get(&room).unwrap().clients, vec!["A".to_string()]);
}

#[test]
fn many_creations_give_distinct_rooms() {
    let mut hub = Hub::new();
    let n = 25u64;
    let mut ids: Vec<String> = Vec::new();
    for c in 0..n {
        let out = hub.handle(c, Request::CreateLobby { host_id: format!("user{}", c) }, true);
        assert_eq!(out[0].to, c);
        let id = created_id(&out);
        assert!(!ids.contains(&id));
        ids.push(id);
    }
    assert_eq!(hub.lobbies.get_ids().len(), n as usize);
    assert_eq!(hub.lobbies.get_ids(), ids);
}

#[test]
fn session_binds_and_releases_accounts() {
    let mut hub = Hub::new();
    let mut s = Session::new(7);
    assert_eq!(s.conn(), 7);
    s.on_request(&mut hub, Request::Connect { user_id: "A".to_string() }, false);
    s.on_request(&mut hub, Request::Connect { user_id: "B".to_string() }, false);
    let mut other = Session::new(8);
    other.on_request(&mut hub, Request::Connect { user_id: "B".to_string() }, false);
    assert_eq!(hub.users.lookup("A"), Some(7));
    assert_eq!(hub.users.lookup("B"), Some(8));
    s.close(&mut hub.users);
    assert_eq!(hub.users.lookup("A"), None);
    assert_eq!(hub.users.lookup("B"), Some(8));
    other.close(&mut hub.users);
    assert!(hub.users.list_ids().is_empty());
}

#[test]
fn session_refuses_bad_envelopes() {
    let s = Session::new(4);
    assert_eq!(s.refuse(ProtocolError::MalformedEnvelope), vec![Delivery { to: 4, reply: Reply::Error(Failure::Malformed) }]);
    assert_eq!(
        s.refuse(ProtocolError::MissingField(Field::LobbyId)),
        vec![Delivery { to: 4, reply: Reply::Error(Failure::MissingField(Field::LobbyId)) }]
    );
}

#[test]
fn checked_account_names_the_acting_account() {
    let join = Request::JoinLobby { lobby_id: "r".to_string(), user_id: "u".to_string() };
    assert_eq!(checked_account(&join), Some(&"u".to_string()));
    let create = Request::CreateLobby { host_id: "h".to_string() };
    assert_eq!(checked_account(&create), Some(&"h".to_string()));
    assert_eq!(checked_account(&Request::GetLobbyIds), None);
    assert_eq!(checked_account(&Request::DeleteLobby { lobby_id: "r".to_string() }), None);
}

fn frame(op: OpCode, user: Option<&str>, host: Option<&str>, lobby: Option<&str>, message: Option<&str>) -> Frame {
    Frame {
        op_code: op,
        user_id: user.map(|s| s.to_string()),
        host_id: host.map(|s| s.to_string()),
        lobby_id: lobby.map(|s| s.to_string()),
        message: message.map(|s| s.to_string()),
    }
}

#[test]
fn frames_run_in_two_phases() {
    let mut hub = Hub::new();
    let mut a = Session::new(1);
    let mut b = Session::new(2);
    let p = a.begin_frame(&mut hub.lobbies, Some(frame(OpCode::Connect, Some("A"), None, None, None)), false);
    a.finish(&mut hub.users, p);
    let p = b.begin_frame(&mut hub.lobbies, Some(frame(OpCode::Connect, Some("B"), None, None, None)), false);
    b.finish(&mut hub.users, p);
    let p = a.begin_frame(&mut hub.lobbies, Some(frame(OpCode::CreateLobby, None, Some("A"), None, None)), true);
    let out = a.finish(&mut hub.users, p);
    let room = created_id(&out);
    assert_eq!(out.len(), 3);
    let p = b.begin_frame(&mut hub.lobbies, Some(frame(OpCode::JoinLobby, Some("B"), None, Some(&room), None)), true);
    b.finish(&mut hub.users, p);
    let p = a.begin_frame(&mut hub.lobbies, Some(frame(OpCode::Message, Some("A"), None, Some(&room), Some("hey"))), true);
    let out = a.finish(&mut hub.users, p);
    assert_eq!(out, vec![Delivery { to: 2, reply: Reply::Message { from: "A".to_string(), message: "hey".to_string() } }]);
    a.close(&mut hub.users);
    assert_eq!(hub.users.lookup("A"), None);
    assert_eq!(hub.users.lookup("B"), Some(2));
}

#[test]
fn bad_frames_are_refused_or_ignored() {
    let mut hub = Hub::new();
    let mut s = Session::new(4);
    let p = s.begin_frame(&mut hub.lobbies, None, false);
    assert_eq!(s.finish(&mut hub.users, p), vec![Delivery { to: 4, reply: Reply::Error(Failure::Malformed) }]);
    let p = s.begin_frame(&mut hub.lobbies, Some(frame(OpCode::JoinLobby, Some("u"), None, None, None)), true);
    assert_eq!(
        s.finish(&mut hub.users, p),
        vec![Delivery { to: 4, reply: Reply::Error(Failure::MissingField(Field::LobbyId)) }]
    );
    let p = s.begin_frame(&mut hub.lobbies, Some(frame(OpCode::Success, None, None, None, None)), false);
    assert!(s.finish(&mut hub.users, p).is_empty());
    assert!(hub.lobbies.get_ids().is_empty());
}

#[test]
fn frame_account_names_the_checked_account() {
    let f = frame(OpCode::CreateLobby, Some("u"), Some("h"), None, None);
    assert_eq!(frame_account(&f), Some(&"h".to_string()));
    let f = frame(OpCode::Message, Some("u"), Some("h"), Some("r"), Some("m"));
    assert_eq!(frame_account(&f), Some(&"u".to_string()));
    let f = frame(OpCode::Connect, Some("u"), None, None, None);
    assert_eq!(frame_account(&f), None);
}

#[test]
fn full_outbound_queue_drops_oldest() {
    let (tx, mut rx) = broadcast::channel::<String>(OUTBOUND_CAPACITY);
    for i in 0..(OUTBOUND_CAPACITY + 3) {
        let _ = tx.send(format!("m{}", i));
    }
    assert!(matches!(rx.try_recv(), Err(broadcast::error::TryRecvError::Lagged(3))));
    assert_eq!(rx.try_recv().unwrap(), "m3");
    let mut last = String::new();
    while let Ok(m) = rx.try_recv() {
        last = m;
    }
    assert_eq!(last, format!("m{}", OUTBOUND_CAPACITY + 2));
}
