use vstd::prelude::*;

use crate::connections::{ConnId, UserPool};
use crate::lobby::{copy_ids, ids_of, joined, left, opened, LobbyError, LobbyPool};
use crate::protocol::{
    deliveries_of, Delivery, Failure, FailureView, Notice, OpCode, Payload, PayloadView, Reply,
    ReplyView, Request,
};

verus! {

/// The two registries that the handlers read and change. Handlers never
/// perform I/O: they return the envelopes to deliver. Each request runs in
/// two phases, `begin` on the room registry and `finish` on the connection
/// registry, so that a caller holding each registry behind its own lock
/// never needs both at once; the methods of `Hub` run both phases in turn.
pub struct Hub {
    pub lobbies: LobbyPool,
    pub users: UserPool,
}

/// A success reply for operation `op`.
pub open spec fn success(op: OpCode, value: PayloadView) -> ReplyView {
    ReplyView::Success { for_op: op, value }
}

/// The reply that lists the room ids `ids`.
pub open spec fn lobby_list(ids: Seq<Seq<char>>) -> ReplyView {
    success(OpCode::GetLobbyIds, PayloadView::LobbyIds(ids))
}

/// The notice that a room a member was in has been closed.
pub open spec fn closure_notice() -> ReplyView {
    success(OpCode::LeaveLobby, PayloadView::Notice(Notice::HostDisconnected))
}

/// The room list `ids`, sent to every registered connection in registration order.
pub open spec fn broadcast(pairs: Seq<(Seq<char>, ConnId)>, ids: Seq<Seq<char>>) -> Seq<(ConnId, ReplyView)> {
    pairs.map_values(|p: (Seq<char>, ConnId)| (p.1, lobby_list(ids)))
}

/// One closure notice for each member, in order, that has a live connection;
/// members without one are skipped.
pub open spec fn notify(members: Seq<Seq<char>>, users: Map<Seq<char>, ConnId>) -> Seq<(ConnId, ReplyView)>
    decreases members.len(),
{
    if members.len() == 0 {
        Seq::empty()
    } else {
        let rest = notify(members.drop_last(), users);
        if users.contains_key(members.last()) {
            rest.push((users[members.last()], closure_notice()))
        } else {
            rest
        }
    }
}

/// Message `text` from `from`, for each member in order but `from` that has a
/// live connection; members without one are skipped.
pub open spec fn relay(
    members: Seq<Seq<char>>,
    from: Seq<char>,
    text: Seq<char>,
    users: Map<Seq<char>, ConnId>,
) -> Seq<(ConnId, ReplyView)>
    decreases members.len(),
{
    if members.len() == 0 {
        Seq::empty()
    } else {
        let rest = relay(members.drop_last(), from, text, users);
        if members.last() != from && users.contains_key(members.last()) {
            rest.push((users[members.last()], ReplyView::Message { from, message: text }))
        } else {
            rest
        }
    }
}

/// The room id that a create reply carries.
pub open spec fn created_id(out: Seq<(ConnId, ReplyView)>) -> Seq<char> {
    match out[0].1 {
        ReplyView::Success { value: PayloadView::LobbyId(id), .. } => id,
        _ => Seq::empty(),
    }
}

/// `connect`: binds the account to the connection and acknowledges it.
pub open spec fn connect_done(pre: Hub, post: Hub, conn: ConnId, user: Seq<char>, out: Seq<(ConnId, ReplyView)>) -> bool {
    &&& post.lobbies == pre.lobbies
    &&& post.users@ == pre.users@.insert(user, conn)
    &&& out == seq![(conn, success(OpCode::Connect, PayloadView::Notice(Notice::Connected)))]
}

/// `create_lobby`: an unknown host is refused; otherwise a room under a fresh
/// id, with the host as its only member, is registered, its id goes back to
/// the caller and the new room list to every registered connection.
pub open spec fn create_done(
    pre: Hub,
    post: Hub,
    conn: ConnId,
    host: Seq<char>,
    known: bool,
    out: Seq<(ConnId, ReplyView)>,
) -> bool {
    if !known {
        post == pre && out == seq![(conn, ReplyView::Error(FailureView::UnknownAccount(host)))]
    } else {
        let id = created_id(out);
        &&& !pre.lobbies@.contains_key(id)
        &&& post.lobbies@ == pre.lobbies@.insert(id, opened(id, host))
        &&& post.lobbies.id_seq() == pre.lobbies.id_seq().push(id)
        &&& post.users == pre.users
        &&& out == seq![(conn, success(OpCode::CreateLobby, PayloadView::LobbyId(id)))] + broadcast(
            post.users.pairs(),
            post.lobbies.id_seq(),
        )
    }
}

/// `join_lobby`: a missing room, then an unknown account, is refused;
/// otherwise the account is a member afterwards and the caller is told.
pub open spec fn join_done(
    pre: Hub,
    post: Hub,
    conn: ConnId,
    lobby: Seq<char>,
    user: Seq<char>,
    known: bool,
    out: Seq<(ConnId, ReplyView)>,
) -> bool {
    if !pre.lobbies@.contains_key(lobby) {
        post == pre && out == seq![(conn, ReplyView::Error(FailureView::UnknownLobby(lobby)))]
    } else if !known {
        post == pre && out == seq![(conn, ReplyView::Error(FailureView::UnknownAccount(user)))]
    } else {
        &&& post.lobbies@ == pre.lobbies@.insert(lobby, joined(pre.lobbies@[lobby], user))
        &&& post.lobbies.id_seq() == pre.lobbies.id_seq()
        &&& post.users == pre.users
        &&& out == seq![(conn, success(OpCode::JoinLobby, PayloadView::LobbyId(lobby)))]
    }
}

/// `leave_lobby`: an unknown account, then a missing room, is refused;
/// otherwise the account is no member afterwards and the caller is told.
pub open spec fn leave_done(
    pre: Hub,
    post: Hub,
    conn: ConnId,
    lobby: Seq<char>,
    user: Seq<char>,
    known: bool,
    out: Seq<(ConnId, ReplyView)>,
) -> bool {
    if !known {
        post == pre && out == seq![(conn, ReplyView::Error(FailureView::UnknownAccount(user)))]
    } else if !pre.lobbies@.contains_key(lobby) {
        post == pre && out == seq![(conn, ReplyView::Error(FailureView::UnknownLobby(lobby)))]
    } else {
        &&& post.lobbies@ == pre.lobbies@.insert(lobby, left(pre.lobbies@[lobby], user))
        &&& post.lobbies.id_seq() == pre.lobbies.id_seq()
        &&& post.users == pre.users
        &&& out == seq![(conn, success(OpCode::LeaveLobby, PayloadView::Notice(Notice::Left)))]
    }
}

/// `delete_lobby`: a missing room is refused; otherwise each member with a
/// live connection is told the room closed, the room is unregistered and the
/// caller is told.
pub open spec fn delete_done(
    pre: Hub,
    post: Hub,
    conn: ConnId,
    lobby: Seq<char>,
    out: Seq<(ConnId, ReplyView)>,
) -> bool {
    if !pre.lobbies@.contains_key(lobby) {
        post == pre && out == seq![(conn, ReplyView::Error(FailureView::UnknownLobby(lobby)))]
    } else {
        &&& post.lobbies@ == pre.lobbies@.remove(lobby)
        &&& exists|i: int|
            0 <= i < pre.lobbies.id_seq().len() && #[trigger] pre.lobbies.id_seq()[i] == lobby
                && post.lobbies.id_seq() == pre.lobbies.id_seq().remove(i)
        &&& post.users == pre.users
        &&& out == notify(pre.lobbies@[lobby].members, pre.users@).push(
            (conn, success(OpCode::DeleteLobby, PayloadView::Notice(Notice::Deleted))),
        )
    }
}

/// `get_lobby_ids`: the room ids go back to the caller.
pub open spec fn list_done(pre: Hub, post: Hub, conn: ConnId, out: Seq<(ConnId, ReplyView)>) -> bool {
    post == pre && out == seq![(conn, lobby_list(pre.lobbies.id_seq()))]
}

/// `message`: a missing room, then an unknown sender, is refused; otherwise
/// the text goes to every other member with a live connection, and nothing
/// goes back to the sender.
pub open spec fn message_done(
    pre: Hub,
    post: Hub,
    conn: ConnId,
    lobby: Seq<char>,
    user: Seq<char>,
    text: Seq<char>,
    known: bool,
    out: Seq<(ConnId, ReplyView)>,
) -> bool {
    &&& post == pre
    &&& if !pre.lobbies@.contains_key(lobby) {
        out == seq![(conn, ReplyView::Error(FailureView::UnknownLobby(lobby)))]
    } else if !known {
        out == seq![(conn, ReplyView::Error(FailureView::UnknownAccount(user)))]
    } else {
        out == relay(pre.lobbies@[lobby].members, user, text, pre.users@)
    }
}

/// What handling `req` on connection `conn` does; `known` is the identity
/// check's verdict on the account the request names.
pub open spec fn handled(pre: Hub, post: Hub, conn: ConnId, req: Request, known: bool, out: Seq<(ConnId, ReplyView)>) -> bool {
    match req {
        Request::Connect { user_id } => connect_done(pre, post, conn, user_id@, out),
        Request::CreateLobby { host_id } => create_done(pre, post, conn, host_id@, known, out),
        Request::JoinLobby { lobby_id, user_id } => join_done(pre, post, conn, lobby_id@, user_id@, known, out),
        Request::LeaveLobby { lobby_id, user_id } => leave_done(pre, post, conn, lobby_id@, user_id@, known, out),
        Request::DeleteLobby { lobby_id } => delete_done(pre, post, conn, lobby_id@, out),
        Request::GetLobbyIds => list_done(pre, post, conn, out),
        Request::Message { lobby_id, user_id, message } => message_done(
            pre,
            post,
            conn,
            lobby_id@,
            user_id@,
            message@,
            known,
            out,
        ),
    }
}

/// What a request leaves to do on the connection registry once the room
/// registry has been let go of.
pub enum Pending {
    /// Nothing: these are the envelopes to send.
    Done(Vec<Delivery>),
    /// Bind `user_id` to the connection and acknowledge it.
    Connect { user_id: String },
    /// Acknowledge room `id` and send the room list `ids` to every connection.
    Created { id: String, ids: Vec<String> },
    /// Tell the connected `members` their room closed, then acknowledge.
    Closed { members: Vec<String> },
    /// Relay `text` from `from` to the other connected `members`.
    Relay { from: String, text: String, members: Vec<String> },
}

/// `p` is finished already, with envelopes `out`.
pub open spec fn done_with(p: Pending, out: Seq<(ConnId, ReplyView)>) -> bool {
    match p {
        Pending::Done(v) => deliveries_of(v@) == out,
        _ => false,
    }
}

/// What the room-registry phase of `req` does: `pre` and `post` are the room
/// registry before and after, `p` what is left for the connection registry.
pub open spec fn begun(pre: LobbyPool, post: LobbyPool, conn: ConnId, req: Request, known: bool, p: Pending) -> bool {
    match req {
        Request::Connect { user_id } => post == pre && p == Pending::Connect { user_id },
        Request::CreateLobby { host_id } => if !known {
            post == pre && done_with(p, seq![(conn, ReplyView::Error(FailureView::UnknownAccount(host_id@)))])
        } else {
            p matches Pending::Created { id, ids } && !pre@.contains_key(id@)
                && post@ == pre@.insert(id@, opened(id@, host_id@))
                && post.id_seq() == pre.id_seq().push(id@)
                && ids_of(ids@) == post.id_seq()
        },
        Request::JoinLobby { lobby_id, user_id } => if !pre@.contains_key(lobby_id@) {
            post == pre && done_with(p, seq![(conn, ReplyView::Error(FailureView::UnknownLobby(lobby_id@)))])
        } else if !known {
            post == pre && done_with(p, seq![(conn, ReplyView::Error(FailureView::UnknownAccount(user_id@)))])
        } else {
            &&& post@ == pre@.insert(lobby_id@, joined(pre@[lobby_id@], user_id@))
            &&& post.id_seq() == pre.id_seq()
            &&& done_with(p, seq![(conn, success(OpCode::JoinLobby, PayloadView::LobbyId(lobby_id@)))])
        },
        Request::LeaveLobby { lobby_id, user_id } => if !known {
            post == pre && done_with(p, seq![(conn, ReplyView::Error(FailureView::UnknownAccount(user_id@)))])
        } else if !pre@.contains_key(lobby_id@) {
            post == pre && done_with(p, seq![(conn, ReplyView::Error(FailureView::UnknownLobby(lobby_id@)))])
        } else {
            &&& post@ == pre@.insert(lobby_id@, left(pre@[lobby_id@], user_id@))
            &&& post.id_seq() == pre.id_seq()
            &&& done_with(p, seq![(conn, success(OpCode::LeaveLobby, PayloadView::Notice(Notice::Left)))])
        },
        Request::DeleteLobby { lobby_id } => if !pre@.contains_key(lobby_id@) {
            post == pre && done_with(p, seq![(conn, ReplyView::Error(FailureView::UnknownLobby(lobby_id@)))])
        } else {
            p matches Pending::Closed { members } && ids_of(members@) == pre@[lobby_id@].members
                && post@ == pre@.remove(lobby_id@)
                && exists|i: int|
                0 <= i < pre.id_seq().len() && #[trigger] pre.id_seq()[i] == lobby_id@ && post.id_seq()
                    == pre.id_seq().remove(i)
        },
        Request::GetLobbyIds => post == pre && done_with(p, seq![(conn, lobby_list(pre.id_seq()))]),
        Request::Message { lobby_id, user_id, message } => post == pre && if !pre@.contains_key(lobby_id@) {
            done_with(p, seq![(conn, ReplyView::Error(FailureView::UnknownLobby(lobby_id@)))])
        } else if !known {
            done_with(p, seq![(conn, ReplyView::Error(FailureView::UnknownAccount(user_id@)))])
        } else {
            p matches Pending::Relay { from, text, members } && from@ == user_id@ && text@ == message@
                && ids_of(members@) == pre@[lobby_id@].members
        },
    }
}

/// What the connection-registry phase of `p` does: `pre` and `post` are the
/// connection registry before and after, `out` the envelopes to send.
pub open spec fn finished(pre: UserPool, post: UserPool, conn: ConnId, p: Pending, out: Seq<(ConnId, ReplyView)>) -> bool {
    match p {
        Pending::Done(v) => post == pre && out == deliveries_of(v@),
        Pending::Connect { user_id } => post@ == pre@.insert(user_id@, conn) && out == seq![
            (conn, success(OpCode::Connect, PayloadView::Notice(Notice::Connected))),
        ],
        Pending::Created { id, ids } => post == pre && out == seq![
            (conn, success(OpCode::CreateLobby, PayloadView::LobbyId(id@))),
        ] + broadcast(pre.pairs(), ids_of(ids@)),
        Pending::Closed { members } => post == pre && out == notify(ids_of(members@), pre@).push(
            (conn, success(OpCode::DeleteLobby, PayloadView::Notice(Notice::Deleted))),
        ),
        Pending::Relay { from, text, members } => post == pre && out == relay(
            ids_of(members@),
            from@,
            text@,
            pre@,
        ),
    }
}

/// A single reply to `conn`.
fn reply(conn: ConnId, r: Reply) -> (out: Vec<Delivery>)
    ensures
        deliveries_of(out@) == seq![(conn, r@)],
{
    let mut out: Vec<Delivery> = Vec::new();
    out.push(Delivery { to: conn, reply: r });
    assert(deliveries_of(out@) =~= seq![(conn, r@)]);
    out
}

/// A single reply to `conn`, with nothing left to do.
fn done(conn: ConnId, r: Reply) -> (p: Pending)
    ensures
        done_with(p, seq![(conn, r@)]),
{
    Pending::Done(reply(conn, r))
}

/// The room-registry phase of `create_lobby`.
fn begin_create_lobby(lobbies: &mut LobbyPool, conn: ConnId, host_id: String, known: bool) -> (p: Pending)
    requires
        old(lobbies).wf(),
    ensures
        final(lobbies).wf(),
        begun(*old(lobbies), *final(lobbies), conn, Request::CreateLobby { host_id }, known, p),
{
    match lobbies.create_lobby(host_id.as_str(), known) {
        Ok(id) => Pending::Created { id, ids: lobbies.get_ids() },
        Err(_) => done(conn, Reply::Error(Failure::UnknownAccount(host_id))),
    }
}

/// The room-registry phase of `join_lobby`.
fn begin_join_lobby(lobbies: &mut LobbyPool, conn: ConnId, lobby_id: String, user_id: String, known: bool) -> (p:
    Pending)
    requires
        old(lobbies).wf(),
    ensures
        final(lobbies).wf(),
        begun(*old(lobbies), *final(lobbies), conn, Request::JoinLobby { lobby_id, user_id }, known, p),
{
    match lobbies.join_lobby(lobby_id.as_str(), user_id.as_str(), known) {
        Ok(()) => done(conn, Reply::Success { for_op: OpCode::JoinLobby, value: Payload::LobbyId(lobby_id) }),
        Err(LobbyError::UnknownLobby) => done(conn, Reply::Error(Failure::UnknownLobby(lobby_id))),
        Err(LobbyError::UnknownAccount) => done(conn, Reply::Error(Failure::UnknownAccount(user_id))),
    }
}

/// The room-registry phase of `leave_lobby`.
fn begin_leave_lobby(lobbies: &mut LobbyPool, conn: ConnId, lobby_id: String, user_id: String, known: bool) -> (p:
    Pending)
    requires
        old(lobbies).wf(),
    ensures
        final(lobbies).wf(),
        begun(*old(lobbies), *final(lobbies), conn, Request::LeaveLobby { lobby_id, user_id }, known, p),
{
    match lobbies.leave_lobby(lobby_id.as_str(), user_id.as_str(), known) {
        Ok(()) => done(conn, Reply::Success { for_op: OpCode::LeaveLobby, value: Payload::Notice(Notice::Left) }),
        Err(LobbyError::UnknownLobby) => done(conn, Reply::Error(Failure::UnknownLobby(lobby_id))),
        Err(LobbyError::UnknownAccount) => done(conn, Reply::Error(Failure::UnknownAccount(user_id))),
    }
}

/// The room-registry phase of `delete_lobby`.
fn begin_delete_lobby(lobbies: &mut LobbyPool, conn: ConnId, lobby_id: String) -> (p: Pending)
    requires
        old(lobbies).wf(),
    ensures
        final(lobbies).wf(),
        begun(*old(lobbies), *final(lobbies), conn, Request::DeleteLobby { lobby_id }, false, p),
{
    match lobbies.delete_lobby(lobby_id.as_str()) {
        Ok(lobby) => Pending::Closed { members: lobby.clients },
        Err(_) => done(conn, Reply::Error(Failure::UnknownLobby(lobby_id))),
    }
}

/// The room-registry phase of `message`: a copy of the room's members.
fn begin_message(lobbies: &LobbyPool, conn: ConnId, lobby_id: String, user_id: String, message: String, known: bool) -> (p:
    Pending)
    requires
        lobbies.wf(),
    ensures
        begun(*lobbies, *lobbies, conn, Request::Message { lobby_id, user_id, message }, known, p),
{
    match lobbies.get(lobby_id.as_str()) {
        None => done(conn, Reply::Error(Failure::UnknownLobby(lobby_id))),
        Some(lobby) => if !known {
            done(conn, Reply::Error(Failure::UnknownAccount(user_id)))
        } else {
            Pending::Relay { from: user_id, text: message, members: lobby.clients }
        },
    }
}

/// The room-registry phase of `req` on connection `conn`; `known` is the
/// identity check's verdict on the account the request names. What it
/// returns is finished by `finish` on the connection registry.
pub fn begin(lobbies: &mut LobbyPool, conn: ConnId, req: Request, known: bool) -> (p: Pending)
    requires
        old(lobbies).wf(),
    ensures
        final(lobbies).wf(),
        begun(*old(lobbies), *final(lobbies), conn, req, known, p),
{
    match req {
        Request::Connect { user_id } => Pending::Connect { user_id },
        Request::CreateLobby { host_id } => begin_create_lobby(lobbies, conn, host_id, known),
        Request::JoinLobby { lobby_id, user_id } => begin_join_lobby(lobbies, conn, lobby_id, user_id, known),
        Request::LeaveLobby { lobby_id, user_id } => begin_leave_lobby(lobbies, conn, lobby_id, user_id, known),
        Request::DeleteLobby { lobby_id } => begin_delete_lobby(lobbies, conn, lobby_id),
        Request::GetLobbyIds => done(
            conn,
            Reply::Success { for_op: OpCode::GetLobbyIds, value: Payload::LobbyIds(lobbies.get_ids()) },
        ),
        Request::Message { lobby_id, user_id, message } => begin_message(
            lobbies,
            conn,
            lobby_id,
            user_id,
            message,
            known,
        ),
    }
}

/// The acknowledgement of room `id`, then the room list `ids` for every
/// registered connection.
fn announce_created(users: &UserPool, conn: ConnId, id: String, ids: Vec<String>) -> (out: Vec<Delivery>)
    requires
        users.wf(),
    ensures
        deliveries_of(out@) == seq![(conn, success(OpCode::CreateLobby, PayloadView::LobbyId(id@)))] + broadcast(
            users.pairs(),
            ids_of(ids@),
        ),
{
    let ghost id_view = id@;
    let mut out = reply(conn, Reply::Success { for_op: OpCode::CreateLobby, value: Payload::LobbyId(id) });
    let conns = users.connections();
    let ghost head = deliveries_of(out@);
    let ghost all = broadcast(users.pairs(), ids_of(ids@));
    let mut i: usize = 0;
    while i < conns.len()
        invariant
            i <= conns@.len(),
            conns@.len() == users.pairs().len(),
            forall|j: int| 0 <= j < conns@.len() ==> conns@[j] == #[trigger] users.pairs()[j].1,
            all == broadcast(users.pairs(), ids_of(ids@)),
            head == seq![(conn, success(OpCode::CreateLobby, PayloadView::LobbyId(id_view)))],
            deliveries_of(out@) == head + all.subrange(0, i as int),
        decreases conns@.len() - i,
    {
        let ghost prev = deliveries_of(out@);
        let list = copy_ids(&ids);
        out.push(
            Delivery {
                to: conns[i],
                reply: Reply::Success { for_op: OpCode::GetLobbyIds, value: Payload::LobbyIds(list) },
            },
        );
        assert(all[i as int] == (conns@[i as int], lobby_list(ids_of(ids@))));
        assert(deliveries_of(out@) =~= prev.push(all[i as int]));
        assert(all.subrange(0, i + 1) =~= all.subrange(0, i as int).push(all[i as int]));
        i = i + 1;
    }
    assert(all.subrange(0, i as int) =~= all);
    out
}

/// A closure notice for each connected member, then the acknowledgement.
fn announce_closed(users: &UserPool, conn: ConnId, members: &Vec<String>) -> (out: Vec<Delivery>)
    requires
        users.wf(),
    ensures
        deliveries_of(out@) == notify(ids_of(members@), users@).push(
            (conn, success(OpCode::DeleteLobby, PayloadView::Notice(Notice::Deleted))),
        ),
{
    let mut out: Vec<Delivery> = Vec::new();
    let mut i: usize = 0;
    while i < members.len()
        invariant
            users.wf(),
            i <= members@.len(),
            deliveries_of(out@) == notify(ids_of(members@).subrange(0, i as int), users@),
        decreases members@.len() - i,
    {
        let ghost prev = deliveries_of(out@);
        let ghost part = ids_of(members@).subrange(0, i + 1);
        assert(part.drop_last() =~= ids_of(members@).subrange(0, i as int));
        assert(part.last() == members@[i as int]@);
        match users.lookup(members[i].as_str()) {
            Some(c) => {
                out.push(
                    Delivery {
                        to: c,
                        reply: Reply::Success {
                            for_op: OpCode::LeaveLobby,
                            value: Payload::Notice(Notice::HostDisconnected),
                        },
                    },
                );
                assert(deliveries_of(out@) =~= prev.push((c, closure_notice())));
            },
            None => {},
        }
        i = i + 1;
    }
    assert(ids_of(members@).subrange(0, i as int) =~= ids_of(members@));
    let ghost prev = deliveries_of(out@);
    out.push(
        Delivery {
            to: conn,
            reply: Reply::Success { for_op: OpCode::DeleteLobby, value: Payload::Notice(Notice::Deleted) },
        },
    );
    assert(deliveries_of(out@) =~= prev.push(
        (conn, success(OpCode::DeleteLobby, PayloadView::Notice(Notice::Deleted))),
    ));
    out
}

/// Message `text` from `from` for each other connected member.
fn relay_message(users: &UserPool, from: &String, text: &String, members: &Vec<String>) -> (out: Vec<Delivery>)
    requires
        users.wf(),
    ensures
        deliveries_of(out@) == relay(ids_of(members@), from@, text@, users@),
{
    let mut out: Vec<Delivery> = Vec::new();
    let mut i: usize = 0;
    while i < members.len()
        invariant
            users.wf(),
            i <= members@.len(),
            deliveries_of(out@) == relay(ids_of(members@).subrange(0, i as int), from@, text@, users@),
        decreases members@.len() - i,
    {
        let ghost prev = deliveries_of(out@);
        let ghost part = ids_of(members@).subrange(0, i + 1);
        assert(part.drop_last() =~= ids_of(members@).subrange(0, i as int));
        assert(part.last() == members@[i as int]@);
        if members[i] != *from {
            match users.lookup(members[i].as_str()) {
                Some(c) => {
                    out.push(Delivery { to: c, reply: Reply::Message { from: from.clone(), message: text.clone() } });
                    assert(deliveries_of(out@) =~= prev.push(
                        (c, ReplyView::Message { from: from@, message: text@ }),
                    ));
                },
                None => {},
            }
        }
        i = i + 1;
    }
    assert(ids_of(members@).subrange(0, i as int) =~= ids_of(members@));
    out
}

/// The connection-registry phase of a request: finishes `p` and returns the
/// envelopes to send.
pub fn finish(users: &mut UserPool, conn: ConnId, p: Pending) -> (out: Vec<Delivery>)
    requires
        old(users).wf(),
    ensures
        final(users).wf(),
        finished(*old(users), *final(users), conn, p, deliveries_of(out@)),
{
    match p {
        Pending::Done(out) => out,
        Pending::Connect { user_id } => {
            users.register(user_id.as_str(), conn);
            reply(conn, Reply::Success { for_op: OpCode::Connect, value: Payload::Notice(Notice::Connected) })
        },
        Pending::Created { id, ids } => announce_created(users, conn, id, ids),
        Pending::Closed { members } => announce_closed(users, conn, &members),
        Pending::Relay { from, text, members } => relay_message(users, &from, &text, &members),
    }
}

impl Hub {
    /// Both registries are well formed.
    pub open spec fn wf(&self) -> bool {
        self.lobbies.wf() && self.users.wf()
    }

    /// A hub with no rooms and no connections.
    pub fn new() -> (r: Hub)
        ensures
            r.wf(),
            r.lobbies@ == Map::<Seq<char>, crate::lobby::LobbyView>::empty(),
            r.lobbies.id_seq() == Seq::<Seq<char>>::empty(),
            r.users@ == Map::<Seq<char>, ConnId>::empty(),
            r.users.pairs() == Seq::<(Seq<char>, ConnId)>::empty(),
    {
        Hub { lobbies: LobbyPool::new(), users: UserPool::new() }
    }

    /// Handles `connect` for `user_id` on connection `conn`.
    pub fn handle_connect(&mut self, conn: ConnId, user_id: String) -> (out: Vec<Delivery>)
        requires
            old(self).wf(),
        ensures
            final(self).wf(),
            connect_done(*old(self), *final(self), conn, user_id@, deliveries_of(out@)),
    {
        let p = Pending::Connect { user_id };
        finish(&mut self.users, conn, p)
    }

    /// Handles `create_lobby` for `host_id`; `known` is the identity check's
    /// verdict on `host_id`.
    pub fn handle_create_lobby(&mut self, conn: ConnId, host_id: String, known: bool) -> (out: Vec<Delivery>)
        requires
            old(self).wf(),
        ensures
            final(self).wf(),
            create_done(*old(self), *final(self), conn, host_id@, known, deliveries_of(out@)),
    {
        let p = begin_create_lobby(&mut self.lobbies, conn, host_id, known);
        let out = finish(&mut self.users, conn, p);
        proof {
            if known {
                let d = deliveries_of(out@);
                assert(d[0] == (conn, success(OpCode::CreateLobby, PayloadView::LobbyId(created_id(d)))));
            }
        }
        out
    }

    /// Handles `join_lobby` of `user_id` into `lobby_id`; `known` is the
    /// identity check's verdict on `user_id`.
    pub fn handle_join_lobby(&mut self, conn: ConnId, lobby_id: String, user_id: String, known: bool) -> (out: Vec<
        Delivery,
    >)
        requires
            old(self).wf(),
        ensures
            final(self).wf(),
            join_done(*old(self), *final(self), conn, lobby_id@, user_id@, known, deliveries_of(out@)),
    {
        let p = begin_join_lobby(&mut self.lobbies, conn, lobby_id, user_id, known);
        finish(&mut self.users, conn, p)
    }

    /// Handles `leave_lobby` of `user_id` from `lobby_id`; `known` is the
    /// identity check's verdict on `user_id`.
    pub fn handle_leave_lobby(&mut self, conn: ConnId, lobby_id: String, user_id: String, known: bool) -> (out: Vec<
        Delivery,
    >)
        requires
            old(self).wf(),
        ensures
            final(self).wf(),
            leave_done(*old(self), *final(self), conn, lobby_id@, user_id@, known, deliveries_of(out@)),
    {
        let p = begin_leave_lobby(&mut self.lobbies, conn, lobby_id, user_id, known);
        finish(&mut self.users, conn, p)
    }

    /// Handles `delete_lobby` of `lobby_id`.
    pub fn handle_delete_lobby(&mut self, conn: ConnId, lobby_id: String) -> (out: Vec<Delivery>)
        requires
            old(self).wf(),
        ensures
            final(self).wf(),
            delete_done(*old(self), *final(self), conn, lobby_id@, deliveries_of(out@)),
    {
        let p = begin_delete_lobby(&mut self.lobbies, conn, lobby_id);
        finish(&mut self.users, conn, p)
    }

    /// Handles `get_lobby_ids`.
    pub fn handle_get_lobby_ids(&mut self, conn: ConnId) -> (out: Vec<Delivery>)
        requires
            old(self).wf(),
        ensures
            final(self).wf(),
            list_done(*old(self), *final(self), conn, deliveries_of(out@)),
    {
        let p = begin(&mut self.lobbies, conn, Request::GetLobbyIds, false);
        finish(&mut self.users, conn, p)
    }

    /// Handles `message`: relays `message` from `user_id` to the other members
    /// of `lobby_id`; `known` is the identity check's verdict on `user_id`.
    pub fn handle_message(&mut self, conn: ConnId, lobby_id: String, user_id: String, message: String, known: bool) -> (out:
        Vec<Delivery>)
        requires
            old(self).wf(),
        ensures
            final(self).wf(),
            message_done(*old(self), *final(self), conn, lobby_id@, user_id@, message@, known, deliveries_of(out@)),
    {
        let p = begin_message(&self.lobbies, conn, lobby_id, user_id, message, known);
        finish(&mut self.users, conn, p)
    }

    /// Handles `req` on connection `conn`; `known` is the identity check's
    /// verdict on the account the request names (see `checked_account`).
    pub fn handle(&mut self, conn: ConnId, req: Request, known: bool) -> (out: Vec<Delivery>)
        requires
            old(self).wf(),
        ensures
            final(self).wf(),
            handled(*old(self), *final(self), conn, req, known, deliveries_of(out@)),
    {
        match req {
            Request::Connect { user_id } => self.handle_connect(conn, user_id),
            Request::CreateLobby { host_id } => self.handle_create_lobby(conn, host_id, known),
            Request::JoinLobby { lobby_id, user_id } => self.handle_join_lobby(conn, lobby_id, user_id, known),
            Request::LeaveLobby { lobby_id, user_id } => self.handle_leave_lobby(conn, lobby_id, user_id, known),
            Request::DeleteLobby { lobby_id } => self.handle_delete_lobby(conn, lobby_id),
            Request::GetLobbyIds => self.handle_get_lobby_ids(conn),
            Request::Message { lobby_id, user_id, message } => self.handle_message(
                conn,
                lobby_id,
                user_id,
                message,
                known,
            ),
        }
    }
}

} // verus!
