use vstd::prelude::*;

use crate::connections::{ConnId, UserPool};
use crate::hub::{begin, begun, done_with, finish, finished, handled, Hub, Pending};
use crate::lobby::LobbyPool;
use crate::protocol::{
    decode, decoded, deliveries_of, Delivery, Failure, FailureView, Frame, OpCode, ProtocolError, ReplyView,
    Request,
};

verus! {

/// The account whose existence decides the outcome of `req`, if any: the
/// host of a new room, or the account that joins, leaves or speaks.
pub open spec fn checked_account_of(req: Request) -> Option<Seq<char>> {
    match req {
        Request::CreateLobby { host_id } => Some(host_id@),
        Request::JoinLobby { user_id, .. } => Some(user_id@),
        Request::LeaveLobby { user_id, .. } => Some(user_id@),
        Request::Message { user_id, .. } => Some(user_id@),
        _ => None,
    }
}

/// The account the identity check must be asked about before `req` is handled.
pub fn checked_account(req: &Request) -> (r: Option<&String>)
    ensures
        r matches Some(a) ==> checked_account_of(*req) == Some(a@),
        r is None ==> checked_account_of(*req) is None,
{
    match req {
        Request::CreateLobby { host_id } => Some(host_id),
        Request::JoinLobby { user_id, .. } => Some(user_id),
        Request::LeaveLobby { user_id, .. } => Some(user_id),
        Request::Message { user_id, .. } => Some(user_id),
        _ => None,
    }
}

/// The account the identity check must be asked about before frame `f` is
/// handled: the one its request will name, once decoded.
pub fn frame_account(f: &Frame) -> (r: Option<&String>)
    ensures
        decoded(*f) matches Ok(Some(req)) ==> match r {
            Some(a) => checked_account_of(req) == Some(a@),
            None => checked_account_of(req) is None,
        },
{
    proof {
        crate::protocol::lemma_first_missing(*f);
    }
    match f.op_code {
        OpCode::CreateLobby => match &f.host_id {
            Some(h) => Some(h),
            None => None,
        },
        OpCode::JoinLobby | OpCode::LeaveLobby | OpCode::Message => match &f.user_id {
            Some(u) => Some(u),
            None => None,
        },
        _ => None,
    }
}

/// The accounts a connection has connected as, after it asked for `req`.
pub open spec fn bound_after(accounts: Seq<Seq<char>>, req: Request) -> Seq<Seq<char>> {
    match req {
        Request::Connect { user_id } => accounts.push(user_id@),
        _ => accounts,
    }
}

/// The error reply for an envelope that could not be decoded.
pub open spec fn refusal(e: ProtocolError) -> ReplyView {
    match e {
        ProtocolError::MalformedEnvelope => ReplyView::Error(FailureView::Malformed),
        ProtocolError::MissingField(f) => ReplyView::Error(FailureView::MissingField(f)),
    }
}

/// `users` without the entries of `accounts` that are still bound to `conn`.
pub open spec fn released(users: Map<Seq<char>, ConnId>, accounts: Seq<Seq<char>>, conn: ConnId) -> Map<
    Seq<char>,
    ConnId,
> {
    Map::new(
        |k: Seq<char>| users.contains_key(k) && !(accounts.contains(k) && users[k] == conn),
        |k: Seq<char>| users[k],
    )
}

/// The decisions of one open connection: which outbound queue is its own and
/// which accounts it connected as, so that closing it unbinds them.
pub struct Session {
    conn: ConnId,
    accounts: Vec<String>,
}

impl Session {
    /// The connection's own outbound queue.
    pub closed spec fn conn_spec(&self) -> ConnId {
        self.conn
    }

    /// The accounts the connection connected as, in order.
    pub closed spec fn accounts_spec(&self) -> Seq<Seq<char>> {
        crate::lobby::ids_of(self.accounts@)
    }

    /// A session for a newly opened connection whose outbound queue is `conn`.
    pub fn new(conn: ConnId) -> (r: Session)
        ensures
            r.conn_spec() == conn,
            r.accounts_spec() == Seq::<Seq<char>>::empty(),
    {
        let r = Session { conn, accounts: Vec::new() };
        assert(r.accounts_spec() =~= Seq::<Seq<char>>::empty());
        r
    }

    /// The connection's own outbound queue.
    pub fn conn(&self) -> (r: ConnId)
        ensures
            r == self.conn_spec(),
    {
        self.conn
    }

    /// The reply to an envelope that could not be decoded; the connection stays open.
    pub fn refuse(&self, e: ProtocolError) -> (out: Vec<Delivery>)
        ensures
            deliveries_of(out@) == seq![(self.conn_spec(), refusal(e))],
    {
        let failure = match e {
            ProtocolError::MalformedEnvelope => Failure::Malformed,
            ProtocolError::MissingField(f) => Failure::MissingField(f),
        };
        let mut out: Vec<Delivery> = Vec::new();
        out.push(Delivery { to: self.conn, reply: crate::protocol::Reply::Error(failure) });
        assert(deliveries_of(out@) =~= seq![(self.conn_spec(), refusal(e))]);
        out
    }

    /// Handles a decoded request from this connection; `known` is the identity
    /// check's verdict on `checked_account(&req)`. A `connect` binds the
    /// connection to its account.
    pub fn on_request(&mut self, hub: &mut Hub, req: Request, known: bool) -> (out: Vec<Delivery>)
        requires
            old(hub).wf(),
        ensures
            final(hub).wf(),
            handled(*old(hub), *final(hub), old(self).conn_spec(), req, known, deliveries_of(out@)),
            final(self).conn_spec() == old(self).conn_spec(),
            final(self).accounts_spec() == bound_after(old(self).accounts_spec(), req),
    {
        if let Request::Connect { user_id } = &req {
            let ghost prev = self.accounts@;
            self.accounts.push(user_id.clone());
            assert(self.accounts_spec() =~= crate::lobby::ids_of(prev).push(user_id@));
        }
        hub.handle(self.conn, req, known)
    }

    /// The room-registry phase of a text frame from this connection: `None`
    /// is a frame that was not an envelope. A frame that does not decode is
    /// refused, a reply-only one is ignored, and a request is begun; `known`
    /// is the identity check's verdict on `frame_account` of the frame.
    pub fn begin_frame(&mut self, lobbies: &mut LobbyPool, frame: Option<Frame>, known: bool) -> (p: Pending)
        requires
            old(lobbies).wf(),
        ensures
            final(lobbies).wf(),
            final(self).conn_spec() == old(self).conn_spec(),
            match frame {
                None => *final(lobbies) == *old(lobbies) && final(self).accounts_spec() == old(self).accounts_spec()
                    && done_with(p, seq![(old(self).conn_spec(), refusal(ProtocolError::MalformedEnvelope))]),
                Some(f) => match decoded(f) {
                    Err(e) => *final(lobbies) == *old(lobbies) && final(self).accounts_spec()
                        == old(self).accounts_spec() && done_with(p, seq![(old(self).conn_spec(), refusal(e))]),
                    Ok(None) => *final(lobbies) == *old(lobbies) && final(self).accounts_spec()
                        == old(self).accounts_spec() && done_with(p, Seq::empty()),
                    Ok(Some(req)) => begun(*old(lobbies), *final(lobbies), old(self).conn_spec(), req, known, p)
                        && final(self).accounts_spec() == bound_after(old(self).accounts_spec(), req),
                },
            },
    {
        let f = match frame {
            Some(f) => f,
            None => {
                return Pending::Done(self.refuse(ProtocolError::MalformedEnvelope));
            },
        };
        match decode(f) {
            Err(e) => Pending::Done(self.refuse(e)),
            Ok(None) => {
                let out: Vec<Delivery> = Vec::new();
                assert(deliveries_of(out@) =~= Seq::empty());
                Pending::Done(out)
            },
            Ok(Some(req)) => {
                if let Request::Connect { user_id } = &req {
                    let ghost prev = self.accounts@;
                    self.accounts.push(user_id.clone());
                    assert(self.accounts_spec() =~= crate::lobby::ids_of(prev).push(user_id@));
                }
                begin(lobbies, self.conn, req, known)
            },
        }
    }

    /// The connection-registry phase: finishes `p` for this connection and
    /// returns the envelopes to send.
    pub fn finish(&self, users: &mut UserPool, p: Pending) -> (out: Vec<Delivery>)
        requires
            old(users).wf(),
        ensures
            final(users).wf(),
            finished(*old(users), *final(users), self.conn_spec(), p, deliveries_of(out@)),
    {
        finish(users, self.conn, p)
    }

    /// Closes the connection: each account it connected as is unbound,
    /// unless a later connection has taken that account over.
    pub fn close(self, users: &mut UserPool)
        requires
            old(users).wf(),
        ensures
            final(users).wf(),
            final(users)@ == released(old(users)@, self.accounts_spec(), self.conn_spec()),
    {
        let ghost start = users@;
        let mut i: usize = 0;
        while i < self.accounts.len()
            invariant
                users.wf(),
                start == old(users)@,
                i <= self.accounts@.len(),
                users@ == released(start, self.accounts_spec().subrange(0, i as int), self.conn),
            decreases self.accounts@.len() - i,
        {
            let ghost before = users@;
            let ghost a = self.accounts@[i as int]@;
            let ghost done = self.accounts_spec().subrange(0, i as int);
            let ghost next = self.accounts_spec().subrange(0, i + 1);
            assert(next =~= done.push(a));
            users.unregister(self.accounts[i].as_str(), self.conn);
            proof {
                broadcast use vstd::seq_lib::lemma_seq_contains_after_push;

            }
            assert(users@ =~= released(start, next, self.conn));
            i = i + 1;
        }
        assert(self.accounts_spec().subrange(0, i as int) =~= self.accounts_spec());
    }
}

} // verus!
