//! Properties that hold across several operations of the hub.
use vstd::prelude::*;

use crate::connections::ConnId;
use crate::hub::{
    closure_notice, connect_done, create_done, created_id, delete_done, join_done, leave_done, list_done,
    lobby_list, notify, relay, success, Hub,
};
use crate::lobby::{lemma_without_absent, lemma_without_contains, left, opened, LobbyView};
use crate::protocol::{FailureView, Notice, OpCode, PayloadView, ReplyView};

verus! {

/// The members, in order, that have a live connection in `users`.
pub open spec fn live_members(members: Seq<Seq<char>>, users: Map<Seq<char>, ConnId>) -> Seq<Seq<char>>
    decreases members.len(),
{
    if members.len() == 0 {
        Seq::empty()
    } else {
        let rest = live_members(members.drop_last(), users);
        if users.contains_key(members.last()) {
            rest.push(members.last())
        } else {
            rest
        }
    }
}

proof fn lemma_live_members(members: Seq<Seq<char>>, users: Map<Seq<char>, ConnId>)
    requires
        members.no_duplicates(),
    ensures
        live_members(members, users).no_duplicates(),
        forall|m: Seq<char>| #[trigger]
            live_members(members, users).contains(m) <==> (members.contains(m) && users.contains_key(m)),
        notify(members, users).len() == live_members(members, users).len(),
        forall|i: int|
            0 <= i < live_members(members, users).len() ==> #[trigger] notify(members, users)[i] == (
                users[live_members(members, users)[i]],
                closure_notice(),
            ),
    decreases members.len(),
{
    broadcast use vstd::seq_lib::lemma_seq_contains_after_push;

    if members.len() > 0 {
        let t = members.drop_last();
        let x = members.last();
        assert(members =~= t.push(x));
        lemma_live_members(t, users);
        assert(!t.contains(x));
        let rest = live_members(t, users);
        if users.contains_key(x) {
            assert(!rest.contains(x));
            let l = rest.push(x);
            assert forall|i: int, j: int| 0 <= i < l.len() && 0 <= j < l.len() && i != j implies l[i] != l[j] by {
                if i < rest.len() && j < rest.len() {
                    assert(rest[i] != rest[j]);
                } else if i < rest.len() {
                    assert(rest.contains(rest[i]));
                } else {
                    assert(rest.contains(rest[j]));
                }
            }
        }
    }
}

proof fn lemma_relay_reaches(
    members: Seq<Seq<char>>,
    from: Seq<char>,
    text: Seq<char>,
    users: Map<Seq<char>, ConnId>,
    m: Seq<char>,
)
    requires
        members.contains(m),
        m != from,
        users.contains_key(m),
    ensures
        relay(members, from, text, users).contains((users[m], ReplyView::Message { from, message: text })),
    decreases members.len(),
{
    let t = members.drop_last();
    let x = members.last();
    assert(members =~= t.push(x));
    let d = (users[m], ReplyView::Message { from, message: text });
    let rest = relay(t, from, text, users);
    if x == m {
        assert(relay(members, from, text, users) == rest.push(d));
        assert(rest.push(d)[rest.len() as int] == d);
    } else {
        let j = choose|j: int| 0 <= j < members.len() && members[j] == m;
        assert(t[j] == m);
        lemma_relay_reaches(t, from, text, users, m);
        let k = choose|k: int| 0 <= k < rest.len() && rest[k] == d;
        if x != from && users.contains_key(x) {
            assert(rest.push((users[x], ReplyView::Message { from, message: text }))[k] == d);
        }
    }
}

proof fn lemma_relay_once(
    members: Seq<Seq<char>>,
    from: Seq<char>,
    text: Seq<char>,
    users: Map<Seq<char>, ConnId>,
    user: Seq<char>,
    conn: ConnId,
)
    requires
        members.no_duplicates(),
        user != from,
        users.contains_key(user),
        users[user] == conn,
        forall|m: Seq<char>| members.contains(m) && m != user && users.contains_key(m) ==> users[m] != conn,
    ensures
        ({
            let r = relay(members, from, text, users);
            &&& members.contains(user) ==> exists|i: int|
                0 <= i < r.len() && r[i] == (conn, ReplyView::Message { from, message: text }) && forall|j: int|
                    0 <= j < r.len() && #[trigger] r[j].0 == conn ==> j == i
            &&& !members.contains(user) ==> forall|j: int| 0 <= j < r.len() ==> (#[trigger] r[j]).0 != conn
        }),
    decreases members.len(),
{
    broadcast use vstd::seq_lib::lemma_seq_contains_after_push;

    if members.len() > 0 {
        let t = members.drop_last();
        let x = members.last();
        assert(members =~= t.push(x));
        assert(t.no_duplicates());
        assert forall|m: Seq<char>| t.contains(m) && m != user && users.contains_key(m) implies users[m] != conn by {
            assert(members.contains(m));
        }
        lemma_relay_once(t, from, text, users, user, conn);
        let rest = relay(t, from, text, users);
        let d = (conn, ReplyView::Message { from, message: text });
        if x == user {
            assert(!t.contains(user));
            let r = rest.push(d);
            assert(relay(members, from, text, users) == r);
            let i = rest.len() as int;
            assert(r[i] == d);
            assert forall|j: int| 0 <= j < r.len() && #[trigger] r[j].0 == conn implies j == i by {
                if j < i {
                    assert(r[j] == rest[j]);
                }
            }
        } else {
            assert(members.contains(x));
            let r = relay(members, from, text, users);
            if x != from && users.contains_key(x) {
                assert(users[x] != conn);
                assert(r == rest.push((users[x], ReplyView::Message { from, message: text })));
                if members.contains(user) {
                    assert(t.contains(user));
                    let i = choose|i: int|
                        0 <= i < rest.len() && rest[i] == d && forall|j: int|
                            0 <= j < rest.len() && #[trigger] rest[j].0 == conn ==> j == i;
                    assert(r[i] == d);
                    assert forall|j: int| 0 <= j < r.len() && #[trigger] r[j].0 == conn implies j == i by {
                        if j < rest.len() {
                            assert(r[j] == rest[j]);
                        }
                    }
                } else {
                    assert(!t.contains(user));
                    assert forall|j: int| 0 <= j < r.len() implies (#[trigger] r[j]).0 != conn by {
                        if j < rest.len() {
                            assert(r[j] == rest[j]);
                        }
                    }
                }
            } else {
                assert(r == rest);
                if members.contains(user) {
                    assert(t.contains(user));
                }
            }
        }
    }
}

/// Connecting changes nothing that a room listing shows: a listing taken
/// right after an account connects is the listing taken before.
pub proof fn lemma_connect_unseen_by_listing(
    pre: Hub,
    mid: Hub,
    post: Hub,
    conn: ConnId,
    user: Seq<char>,
    other: ConnId,
    connected: Seq<(ConnId, ReplyView)>,
    listed: Seq<(ConnId, ReplyView)>,
)
    requires
        connect_done(pre, mid, conn, user, connected),
        list_done(mid, post, other, listed),
    ensures
        listed == seq![(other, lobby_list(pre.lobbies.id_seq()))],
        post.lobbies == pre.lobbies,
{
}

/// Connecting makes an account a delivery target: once it has connected,
/// a message from another member of a room it is in reaches its connection.
pub proof fn lemma_connect_makes_target(
    pre: Hub,
    post: Hub,
    conn: ConnId,
    user: Seq<char>,
    out: Seq<(ConnId, ReplyView)>,
    lobby: Seq<char>,
    sender: Seq<char>,
    text: Seq<char>,
)
    requires
        connect_done(pre, post, conn, user, out),
        post.lobbies@.contains_key(lobby),
        post.lobbies@[lobby].members.contains(user),
        sender != user,
    ensures
        relay(post.lobbies@[lobby].members, sender, text, post.users@).contains(
            (conn, ReplyView::Message { from: sender, message: text }),
        ),
{
    lemma_relay_reaches(post.lobbies@[lobby].members, sender, text, post.users@, user);
}

/// A connected member receives a message sent to its room exactly once,
/// when no other member of the room is bound to the same connection.
pub proof fn lemma_connected_member_reached_once(
    pre: Hub,
    post: Hub,
    conn: ConnId,
    user: Seq<char>,
    out: Seq<(ConnId, ReplyView)>,
    lobby: Seq<char>,
    sender: Seq<char>,
    text: Seq<char>,
)
    requires
        post.lobbies.wf(),
        connect_done(pre, post, conn, user, out),
        post.lobbies@.contains_key(lobby),
        post.lobbies@[lobby].members.contains(user),
        sender != user,
        forall|m: Seq<char>|
            post.lobbies@[lobby].members.contains(m) && m != user && post.users@.contains_key(m)
                ==> post.users@[m] != conn,
    ensures
        ({
            let r = relay(post.lobbies@[lobby].members, sender, text, post.users@);
            exists|i: int|
                0 <= i < r.len() && r[i] == (conn, ReplyView::Message { from: sender, message: text }) && forall|
                    j: int,
                | 0 <= j < r.len() && #[trigger] r[j].0 == conn ==> j == i
        }),
{
    post.lobbies.lemma_members_unique(lobby);
    lemma_relay_once(post.lobbies@[lobby].members, sender, text, post.users@, user, conn);
}

/// A room created for a known host has an id that no registered room had,
/// and the host is a member of it from the start.
pub proof fn lemma_create_fresh(
    pre: Hub,
    post: Hub,
    conn: ConnId,
    host: Seq<char>,
    out: Seq<(ConnId, ReplyView)>,
)
    requires
        create_done(pre, post, conn, host, true, out),
    ensures
        !pre.lobbies@.contains_key(created_id(out)),
        post.lobbies@.contains_key(created_id(out)),
        post.lobbies@[created_id(out)].members.contains(host),
        post.lobbies@[created_id(out)].host == host,
{
    let id = created_id(out);
    assert(opened(id, host).members[0] == host);
}

/// Joining a room that does not exist is refused as an unknown room, for any
/// account, and changes nothing.
pub proof fn lemma_join_missing_room(
    pre: Hub,
    post: Hub,
    conn: ConnId,
    lobby: Seq<char>,
    user: Seq<char>,
    known: bool,
    out: Seq<(ConnId, ReplyView)>,
)
    requires
        !pre.lobbies@.contains_key(lobby),
        join_done(pre, post, conn, lobby, user, known, out),
    ensures
        post == pre,
        out == seq![(conn, ReplyView::Error(FailureView::UnknownLobby(lobby)))],
{
}

/// Leaving twice is leaving once: the second leave succeeds, changes
/// nothing, and the account is no member afterwards.
pub proof fn lemma_leave_twice(
    pre: Hub,
    mid: Hub,
    post: Hub,
    conn: ConnId,
    lobby: Seq<char>,
    user: Seq<char>,
    first: Seq<(ConnId, ReplyView)>,
    second: Seq<(ConnId, ReplyView)>,
)
    requires
        pre.lobbies@.contains_key(lobby),
        leave_done(pre, mid, conn, lobby, user, true, first),
        leave_done(mid, post, conn, lobby, user, true, second),
    ensures
        second == seq![(conn, success(OpCode::LeaveLobby, PayloadView::Notice(Notice::Left)))],
        post.lobbies@ == mid.lobbies@,
        post.users == mid.users,
        !post.lobbies@[lobby].members.contains(user),
{
    let once = left(pre.lobbies@[lobby], user);
    assert(mid.lobbies@[lobby] == once);
    lemma_without_contains(pre.lobbies@[lobby].members, user);
    assert(!once.members.contains(user));
    lemma_without_absent(once.members, user);
    assert(left(once, user) == once);
    assert(post.lobbies@ =~= mid.lobbies@);
}

/// Deleting a room tells each member that has a live connection exactly
/// once, in member order, and tells no one else; the caller is told last.
pub proof fn lemma_delete_notifies_each_member_once(
    pre: Hub,
    post: Hub,
    conn: ConnId,
    lobby: Seq<char>,
    out: Seq<(ConnId, ReplyView)>,
)
    requires
        pre.wf(),
        pre.lobbies@.contains_key(lobby),
        delete_done(pre, post, conn, lobby, out),
    ensures
        ({
            let live = live_members(pre.lobbies@[lobby].members, pre.users@);
            &&& live.no_duplicates()
            &&& forall|m: Seq<char>| #[trigger]
                live.contains(m) <==> (pre.lobbies@[lobby].members.contains(m) && pre.users@.contains_key(m))
            &&& out.len() == live.len() + 1
            &&& forall|i: int| 0 <= i < live.len() ==> #[trigger] out[i] == (pre.users@[live[i]], closure_notice())
            &&& out[live.len() as int] == (conn, success(OpCode::DeleteLobby, PayloadView::Notice(Notice::Deleted)))
        }),
        !post.lobbies@.contains_key(lobby),
{
    let members = pre.lobbies@[lobby].members;
    pre.lobbies.lemma_members_unique(lobby);
    lemma_live_members(members, pre.users@);
    let n = notify(members, pre.users@);
    assert forall|i: int| 0 <= i < n.len() implies #[trigger] out[i] == n[i] by {}
}

/// After a room is deleted, any join of it is refused as an unknown room.
pub proof fn lemma_join_after_delete(
    pre: Hub,
    mid: Hub,
    post: Hub,
    conn: ConnId,
    lobby: Seq<char>,
    deleted: Seq<(ConnId, ReplyView)>,
    other: ConnId,
    user: Seq<char>,
    known: bool,
    out: Seq<(ConnId, ReplyView)>,
)
    requires
        pre.lobbies@.contains_key(lobby),
        delete_done(pre, mid, conn, lobby, deleted),
        join_done(mid, post, other, lobby, user, known, out),
    ensures
        out == seq![(other, ReplyView::Error(FailureView::UnknownLobby(lobby)))],
        post == mid,
{
}

/// Rooms created one after another on an empty hub, by known hosts, get ids
/// that are pairwise distinct, and the hub then holds exactly that many rooms.
pub proof fn lemma_creations_distinct(
    hubs: Seq<Hub>,
    conns: Seq<ConnId>,
    hosts: Seq<Seq<char>>,
    outs: Seq<Seq<(ConnId, ReplyView)>>,
)
    requires
        hubs.len() == outs.len() + 1,
        conns.len() == outs.len(),
        hosts.len() == outs.len(),
        hubs[0].lobbies@ == Map::<Seq<char>, LobbyView>::empty(),
        forall|k: int|
            0 <= k < outs.len() ==> create_done(#[trigger] hubs[k], hubs[k + 1], conns[k], hosts[k], true, outs[k]),
    ensures
        forall|a: int, b: int|
            0 <= a < b < outs.len() ==> created_id(#[trigger] outs[a]) != created_id(#[trigger] outs[b]),
        hubs.last().lobbies@.dom().finite(),
        hubs.last().lobbies@.len() == outs.len(),
{
    lemma_creations_prefix(hubs, conns, hosts, outs, outs.len() as int);
}

proof fn lemma_creations_prefix(
    hubs: Seq<Hub>,
    conns: Seq<ConnId>,
    hosts: Seq<Seq<char>>,
    outs: Seq<Seq<(ConnId, ReplyView)>>,
    n: int,
)
    requires
        0 <= n <= outs.len(),
        hubs.len() == outs.len() + 1,
        conns.len() == outs.len(),
        hosts.len() == outs.len(),
        hubs[0].lobbies@ == Map::<Seq<char>, LobbyView>::empty(),
        forall|k: int|
            0 <= k < outs.len() ==> create_done(#[trigger] hubs[k], hubs[k + 1], conns[k], hosts[k], true, outs[k]),
    ensures
        forall|a: int, b: int| 0 <= a < b < n ==> created_id(#[trigger] outs[a]) != created_id(#[trigger] outs[b]),
        forall|a: int| 0 <= a < n ==> hubs[n].lobbies@.contains_key(created_id(#[trigger] outs[a])),
        forall|k: Seq<char>| #[trigger]
            hubs[n].lobbies@.contains_key(k) ==> exists|a: int| 0 <= a < n && created_id(outs[a]) == k,
        hubs[n].lobbies@.dom().finite(),
        hubs[n].lobbies@.len() == n,
    decreases n,
{
    if n > 0 {
        let m = n - 1;
        lemma_creations_prefix(hubs, conns, hosts, outs, m);
        assert(create_done(hubs[m], hubs[m + 1], conns[m], hosts[m], true, outs[m]));
        let id = created_id(outs[m]);
        let before = hubs[m].lobbies@;
        let after = hubs[n].lobbies@;
        assert(after == before.insert(id, opened(id, hosts[m])));
        assert(!before.contains_key(id));
        assert forall|a: int| 0 <= a < m implies created_id(#[trigger] outs[a]) != id by {
            assert(before.contains_key(created_id(outs[a])));
        }
        assert(after.dom() == before.dom().insert(id));
        assert forall|k: Seq<char>| #[trigger] after.contains_key(k) implies exists|a: int|
            0 <= a < n && created_id(outs[a]) == k by {
            if k != id {
                assert(before.contains_key(k));
            }
        }
    } else {
        assert(hubs[0].lobbies@.dom() =~= Set::<Seq<char>>::empty());
    }
}

} // verus!
