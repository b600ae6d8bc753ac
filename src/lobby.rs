use vstd::prelude::*;

use crate::registry::Registry;

verus! {

/// A listening room: its id, the account that created it and the accounts
/// currently joined, in the order in which they joined.
#[derive(Debug, Clone)]
pub struct Lobby {
    pub id: String,
    pub host_id: String,
    pub clients: Vec<String>,
}

/// What a room holds, as plain sequences of characters.
pub struct LobbyView {
    pub id: Seq<char>,
    pub host: Seq<char>,
    pub members: Seq<Seq<char>>,
}

/// Why a room operation was refused.
#[derive(Debug, Clone, Copy, PartialEq, Eq, Structural)]
pub enum LobbyError {
    /// The account is not known to the identity check.
    UnknownAccount,
    /// No room has the given id.
    UnknownLobby,
}

/// The account ids of a list, as sequences of characters.
pub open spec fn ids_of(v: Seq<String>) -> Seq<Seq<char>> {
    v.map_values(|s: String| s@)
}

/// `s` without every occurrence of `u`, in the same order.
pub open spec fn without(s: Seq<Seq<char>>, u: Seq<char>) -> Seq<Seq<char>>
    decreases s.len(),
{
    if s.len() == 0 {
        s
    } else if s.last() == u {
        without(s.drop_last(), u)
    } else {
        without(s.drop_last(), u).push(s.last())
    }
}

/// What stays after removing `u` is what was there but `u`.
pub proof fn lemma_without_contains(s: Seq<Seq<char>>, u: Seq<char>)
    ensures
        forall|x: Seq<char>| #[trigger] without(s, u).contains(x) <==> (s.contains(x) && x != u),
    decreases s.len(),
{
    broadcast use vstd::seq_lib::lemma_seq_contains_after_push;

    if s.len() > 0 {
        let t = s.drop_last();
        let w = without(t, u);
        lemma_without_contains(t, u);
        assert(s =~= t.push(s.last()));
        assert forall|x: Seq<char>| #[trigger] without(s, u).contains(x) <==> (s.contains(x) && x != u) by {
            assert(t.push(s.last()).contains(x) <==> (s.last() == x || t.contains(x)));
            assert(w.push(s.last()).contains(x) <==> (s.last() == x || w.contains(x)));
        }
    }
}

/// Removing an account from a set of accounts leaves a set.
pub proof fn lemma_without_no_duplicates(s: Seq<Seq<char>>, u: Seq<char>)
    requires
        s.no_duplicates(),
    ensures
        without(s, u).no_duplicates(),
    decreases s.len(),
{
    if s.len() > 0 {
        let t = s.drop_last();
        assert(t.no_duplicates());
        lemma_without_no_duplicates(t, u);
        lemma_without_contains(t, u);
        if s.last() != u {
            assert(!t.contains(s.last()));
            assert(!without(t, u).contains(s.last()));
        }
    }
}

/// Removing an account that is not there changes nothing.
pub proof fn lemma_without_absent(s: Seq<Seq<char>>, u: Seq<char>)
    requires
        !s.contains(u),
    ensures
        without(s, u) == s,
    decreases s.len(),
{
    if s.len() > 0 {
        assert(!s.drop_last().contains(u));
        lemma_without_absent(s.drop_last(), u);
        assert(s.drop_last().push(s.last()) =~= s);
    }
}

/// A fresh room: its creator is its only member.
pub open spec fn opened(id: Seq<char>, host: Seq<char>) -> LobbyView {
    LobbyView { id, host, members: seq![host] }
}

/// The room after `u` joins it; joining twice is the same as joining once.
pub open spec fn joined(v: LobbyView, u: Seq<char>) -> LobbyView {
    if v.members.contains(u) {
        v
    } else {
        LobbyView { members: v.members.push(u), ..v }
    }
}

/// The room after `u` leaves it; leaving as a non-member changes nothing.
pub open spec fn left(v: LobbyView, u: Seq<char>) -> LobbyView {
    LobbyView { members: without(v.members, u), ..v }
}

impl View for Lobby {
    type V = LobbyView;

    open spec fn view(&self) -> LobbyView {
        LobbyView { id: self.id@, host: self.host_id@, members: ids_of(self.clients@) }
    }
}

/// A copy of a list of account ids.
pub(crate) fn copy_ids(v: &Vec<String>) -> (r: Vec<String>)
    ensures
        ids_of(r@) == ids_of(v@),
{
    let r = v.clone();
    assert(ids_of(r@) =~= ids_of(v@));
    r
}

/// Whether `u` is among `clients`.
fn has_member(clients: &Vec<String>, u: &String) -> (r: bool)
    ensures
        r == ids_of(clients@).contains(u@),
{
    let mut i: usize = 0;
    while i < clients.len()
        invariant
            i <= clients@.len(),
            forall|j: int| 0 <= j < i ==> clients@[j]@ != u@,
        decreases clients@.len() - i,
    {
        if clients[i] == *u {
            assert(ids_of(clients@)[i as int] == u@);
            return true;
        }
        i = i + 1;
    }
    assert forall|j: int| 0 <= j < ids_of(clients@).len() implies ids_of(clients@)[j] != u@ by {
        assert(clients@[j]@ != u@);
    }
    false
}

/// `clients` without `u`, in the same order.
fn drop_member(clients: &Vec<String>, u: &String) -> (r: Vec<String>)
    ensures
        ids_of(r@) == without(ids_of(clients@), u@),
{
    let mut r: Vec<String> = Vec::new();
    let mut i: usize = 0;
    while i < clients.len()
        invariant
            i <= clients@.len(),
            ids_of(r@) == without(ids_of(clients@).subrange(0, i as int), u@),
        decreases clients@.len() - i,
    {
        let ghost prev = r@;
        let ghost pre = ids_of(clients@).subrange(0, i as int);
        let ghost next = ids_of(clients@).subrange(0, i + 1);
        assert(next.drop_last() =~= pre);
        assert(next.last() == clients@[i as int]@);
        if clients[i] != *u {
            r.push(clients[i].clone());
            assert(ids_of(r@) =~= ids_of(prev).push(clients@[i as int]@));
        }
        i = i + 1;
    }
    assert(ids_of(clients@).subrange(0, i as int) =~= ids_of(clients@));
    r
}

impl Lobby {
    /// A copy of this room that shares nothing with it.
    pub fn snapshot(&self) -> (r: Lobby)
        ensures
            r@ == self@,
    {
        Lobby { id: self.id.clone(), host_id: self.host_id.clone(), clients: copy_ids(&self.clients) }
    }
}

/// Relies on uuid's `Uuid::new_v4` for a random id, written by its `Display`
/// impl in the hyphenated form, which is 36 characters long.
#[verifier::external_body]
fn random_lobby_id() -> (r: String)
    ensures
        r@.len() == 36,
{
    uuid::Uuid::new_v4().to_string()
}

/// The registry of rooms, keyed by room id. Each id is stored once, and the
/// members of each room form a set (no account is listed twice).
pub struct LobbyPool {
    rooms: Registry<Lobby>,
}

impl LobbyPool {
    /// The registry's invariant: ids are unique and each room's members form a set.
    pub closed spec fn wf(&self) -> bool {
        &&& self.rooms.wf()
        &&& forall|k: Seq<char>| self.rooms@.contains_key(k) ==> (#[trigger] self.rooms@[k]).members.no_duplicates()
    }

    /// The room ids in the order in which the rooms were created.
    pub closed spec fn id_seq(&self) -> Seq<Seq<char>> {
        self.rooms.pairs().map_values(|p: (Seq<char>, LobbyView)| p.0)
    }

    /// An empty registry.
    pub fn new() -> (r: LobbyPool)
        ensures
            r.wf(),
            r@ == Map::<Seq<char>, LobbyView>::empty(),
            r.id_seq() == Seq::<Seq<char>>::empty(),
    {
        let r = LobbyPool { rooms: Registry::new() };
        assert(r.id_seq() =~= Seq::<Seq<char>>::empty());
        r
    }

    /// The members of every registered room form a set.
    pub proof fn lemma_members_unique(&self, k: Seq<char>)
        requires
            self.wf(),
            self@.contains_key(k),
        ensures
            self@[k].members.no_duplicates(),
    {
    }

    /// The room ids in order are exactly the registry's keys, each once.
    pub proof fn lemma_id_seq(&self)
        requires
            self.wf(),
        ensures
            self.id_seq().no_duplicates(),
            forall|k: Seq<char>| self.id_seq().contains(k) <==> self@.contains_key(k),
    {
        self.rooms.lemma_keys();
        let ids = self.id_seq();
        let ps = self.rooms.pairs();
        assert forall|a: int, b: int| 0 <= a < ids.len() && 0 <= b < ids.len() && a != b implies ids[a] != ids[b] by {
            if a < b {
                assert(ps[a].0 != ps[b].0);
            } else {
                assert(ps[b].0 != ps[a].0);
            }
        }
        assert forall|k: Seq<char>| ids.contains(k) <==> self@.contains_key(k) by {
            if ids.contains(k) {
                let j = choose|j: int| 0 <= j < ids.len() && ids[j] == k;
                assert(ps[j].0 == k);
            }
            if self@.contains_key(k) {
                let j = choose|j: int| 0 <= j < ps.len() && #[trigger] ps[j].0 == k;
                assert(ids[j] == k);
            }
        }
    }

    /// The position of room `key`, if it is registered.
    fn find(&self, key: &String) -> (r: Option<usize>)
        requires
            self.wf(),
        ensures
            r is None ==> !self@.contains_key(key@),
            r matches Some(i) ==> i < self.rooms.pairs().len() && self.rooms.pairs()[i as int].0 == key@
                && self.id_seq()[i as int] == key@ && self@.contains_key(key@)
                && self@[key@] == self.rooms.pairs()[i as int].1,
    {
        self.rooms.find(key)
    }

    /// Puts `lobby` at position `i`, whose room it replaces.
    fn replace_at(&mut self, i: usize, lobby: Lobby)
        requires
            old(self).wf(),
            i < old(self).rooms.pairs().len(),
            lobby@.members.no_duplicates(),
        ensures
            final(self).wf(),
            final(self)@ == old(self)@.insert(old(self).id_seq()[i as int], lobby@),
            final(self).id_seq() == old(self).id_seq(),
    {
        let ghost before = *self;
        self.rooms.set_value(i, lobby);
        assert(self.id_seq() =~= before.id_seq());
    }

    /// Whether a room with id `key` is registered.
    pub fn lobby_exists(&self, key: &str) -> (r: bool)
        requires
            self.wf(),
        ensures
            r == self@.contains_key(key@),
    {
        let k = key.to_owned();
        self.find(&k).is_some()
    }

    /// A copy of room `key`, if it is registered.
    pub fn get(&self, key: &str) -> (r: Option<Lobby>)
        requires
            self.wf(),
        ensures
            r is Some == self@.contains_key(key@),
            r matches Some(l) ==> l@ == self@[key@],
    {
        let k = key.to_owned();
        match self.find(&k) {
            Some(i) => Some(self.rooms.value(i).snapshot()),
            None => None,
        }
    }

    /// The ids of all rooms, in the order in which they were registered.
    pub fn get_ids(&self) -> (r: Vec<String>)
        requires
            self.wf(),
        ensures
            ids_of(r@) == self.id_seq(),
            ids_of(r@).no_duplicates(),
            forall|k: Seq<char>| ids_of(r@).contains(k) <==> self@.contains_key(k),
    {
        let mut r: Vec<String> = Vec::new();
        let mut i: usize = 0;
        while i < self.rooms.len()
            invariant
                self.wf(),
                i <= self.id_seq().len(),
                ids_of(r@) == self.id_seq().subrange(0, i as int),
            decreases self.id_seq().len() - i,
        {
            let k = self.rooms.key(i).clone();
            let ghost prev = r@;
            r.push(k);
            proof {
                assert(ids_of(prev).len() == i);
                assert(ids_of(r@) =~= ids_of(prev).push(k@));
                assert(self.id_seq().subrange(0, i + 1) =~= self.id_seq().subrange(0, i as int).push(
                    self.id_seq()[i as int],
                ));
            }
            i = i + 1;
        }
        assert(self.id_seq().subrange(0, i as int) =~= self.id_seq());
        proof {
            self.lemma_id_seq();
        }
        r
    }

    /// The length of the longest room id.
    fn longest_id_len(&self) -> (r: usize)
        requires
            self.wf(),
        ensures
            forall|k: Seq<char>| self@.contains_key(k) ==> k.len() <= r,
    {
        let mut r: usize = 0;
        let mut i: usize = 0;
        while i < self.rooms.len()
            invariant
                self.wf(),
                self.id_seq().len() == self.rooms.pairs().len(),
                i <= self.id_seq().len(),
                forall|j: int| 0 <= j < i ==> #[trigger] self.id_seq()[j].len() <= r,
            decreases self.id_seq().len() - i,
        {
            let n = self.rooms.key(i).as_str().unicode_len();
            assert(self.id_seq()[i as int] == self.rooms.pairs()[i as int].0);
            if n > r {
                r = n;
            }
            i = i + 1;
        }
        proof {
            self.lemma_id_seq();
            assert forall|k: Seq<char>| self@.contains_key(k) implies k.len() <= r by {
                assert(self.id_seq().contains(k));
                let j = choose|j: int| 0 <= j < self.id_seq().len() && self.id_seq()[j] == k;
                assert(self.id_seq()[j].len() <= r);
            }
        }
        r
    }

    /// A room id that no registered room has. Candidates are drawn at random;
    /// on a collision another draw is appended, so the candidate grows past
    /// every registered id and the search ends.
    fn fresh_id(&self) -> (r: String)
        requires
            self.wf(),
        ensures
            !self@.contains_key(r@),
    {
        let mut id = random_lobby_id();
        if self.find(&id).is_some() {
            let longest = self.longest_id_len();
            while self.find(&id).is_some()
                invariant
                    self.wf(),
                    forall|k: Seq<char>| self@.contains_key(k) ==> k.len() <= longest,
                decreases if id@.len() <= longest { longest + 1 - id@.len() } else { 0 },
            {
                let more = random_lobby_id();
                id.append(more.as_str());
            }
        }
        id
    }

    /// Opens a room owned by `host_id`, who becomes its only member, under an
    /// id that no room has; `host_known` is the identity check's verdict on
    /// `host_id`.
    pub fn create_lobby(&mut self, host_id: &str, host_known: bool) -> (r: Result<String, LobbyError>)
        requires
            old(self).wf(),
        ensures
            final(self).wf(),
            !host_known ==> r == Err::<String, LobbyError>(LobbyError::UnknownAccount) && *final(self) == *old(self),
            host_known ==> (r matches Ok(id) && !old(self)@.contains_key(id@)
                && final(self)@ == old(self)@.insert(id@, opened(id@, host_id@))
                && final(self).id_seq() == old(self).id_seq().push(id@)),
    {
        if !host_known {
            return Err(LobbyError::UnknownAccount);
        }
        let id = self.fresh_id();
        let mut clients: Vec<String> = Vec::new();
        clients.push(host_id.to_owned());
        let lobby = Lobby { id: id.clone(), host_id: host_id.to_owned(), clients };
        assert(lobby@.members =~= seq![host_id@]);
        self.insert(id.as_str(), lobby);
        Ok(id)
    }

    /// Adds `client_id` to room `lobby_id`; joining a room one is already in
    /// succeeds and changes nothing. A missing room is reported before an
    /// unknown account; `client_known` is the identity check's verdict on
    /// `client_id`.
    pub fn join_lobby(&mut self, lobby_id: &str, client_id: &str, client_known: bool) -> (r: Result<(), LobbyError>)
        requires
            old(self).wf(),
        ensures
            final(self).wf(),
            final(self).id_seq() == old(self).id_seq(),
            !old(self)@.contains_key(lobby_id@) ==> r == Err::<(), LobbyError>(LobbyError::UnknownLobby)
                && *final(self) == *old(self),
            old(self)@.contains_key(lobby_id@) && !client_known ==> r == Err::<(), LobbyError>(
                LobbyError::UnknownAccount,
            ) && *final(self) == *old(self),
            old(self)@.contains_key(lobby_id@) && client_known ==> r == Ok::<(), LobbyError>(())
                && final(self)@ == old(self)@.insert(lobby_id@, joined(old(self)@[lobby_id@], client_id@)),
    {
        let k = lobby_id.to_owned();
        let i = match self.find(&k) {
            Some(i) => i,
            None => {
                return Err(LobbyError::UnknownLobby);
            },
        };
        if !client_known {
            return Err(LobbyError::UnknownAccount);
        }
        let u = client_id.to_owned();
        let mut lobby = self.rooms.value(i).snapshot();
        if !has_member(&lobby.clients, &u) {
            let ghost prev = lobby.clients@;
            lobby.clients.push(u);
            assert(ids_of(lobby.clients@) =~= ids_of(prev).push(client_id@));
        }
        self.replace_at(i, lobby);
        Ok(())
    }

    /// Removes `client_id` from room `lobby_id`; leaving a room one is not in
    /// succeeds and changes nothing. An emptied room stays registered. An
    /// unknown account is reported before a missing room; `client_known` is
    /// the identity check's verdict on `client_id`.
    pub fn leave_lobby(&mut self, lobby_id: &str, client_id: &str, client_known: bool) -> (r: Result<(), LobbyError>)
        requires
            old(self).wf(),
        ensures
            final(self).wf(),
            final(self).id_seq() == old(self).id_seq(),
            !client_known ==> r == Err::<(), LobbyError>(LobbyError::UnknownAccount) && *final(self) == *old(
                self,
            ),
            client_known && !old(self)@.contains_key(lobby_id@) ==> r == Err::<(), LobbyError>(
                LobbyError::UnknownLobby,
            ) && *final(self) == *old(self),
            client_known && old(self)@.contains_key(lobby_id@) ==> r == Ok::<(), LobbyError>(())
                && final(self)@ == old(self)@.insert(lobby_id@, left(old(self)@[lobby_id@], client_id@)),
    {
        if !client_known {
            return Err(LobbyError::UnknownAccount);
        }
        let k = lobby_id.to_owned();
        let i = match self.find(&k) {
            Some(i) => i,
            None => {
                return Err(LobbyError::UnknownLobby);
            },
        };
        let u = client_id.to_owned();
        let current = self.rooms.value(i);
        let lobby = Lobby {
            id: current.id.clone(),
            host_id: current.host_id.clone(),
            clients: drop_member(&current.clients, &u),
        };
        proof {
            lemma_without_no_duplicates(current@.members, client_id@);
        }
        let ghost before = *self;
        self.replace_at(i, lobby);
        Ok(())
    }

    /// Unregisters room `lobby_id` and hands back what it held, so that its
    /// members can be told.
    pub fn delete_lobby(&mut self, lobby_id: &str) -> (r: Result<Lobby, LobbyError>)
        requires
            old(self).wf(),
        ensures
            final(self).wf(),
            !old(self)@.contains_key(lobby_id@) ==> r is Err && r == Err::<Lobby, LobbyError>(
                LobbyError::UnknownLobby,
            ) && *final(self) == *old(self),
            old(self)@.contains_key(lobby_id@) ==> (r matches Ok(l) && l@ == old(self)@[lobby_id@]
                && final(self)@ == old(self)@.remove(lobby_id@)
                && exists|i: int| 0 <= i < old(self).id_seq().len() && old(self).id_seq()[i] == lobby_id@
                    && final(self).id_seq() == old(self).id_seq().remove(i)),
    {
        let k = lobby_id.to_owned();
        let i = match self.find(&k) {
            Some(i) => i,
            None => {
                return Err(LobbyError::UnknownLobby);
            },
        };
        let ghost before = *self;
        let lobby = self.rooms.remove(i);
        assert(self.id_seq() =~= before.id_seq().remove(i as int));
        Ok(lobby)
    }

    /// Registers `lobby` under `key`, replacing any room stored there.
    pub fn insert(&mut self, key: &str, lobby: Lobby)
        requires
            old(self).wf(),
            lobby@.members.no_duplicates(),
        ensures
            final(self).wf(),
            final(self)@ == old(self)@.insert(key@, lobby@),
            final(self).id_seq() == if old(self)@.contains_key(key@) {
                old(self).id_seq()
            } else {
                old(self).id_seq().push(key@)
            },
    {
        let k = key.to_owned();
        match self.find(&k) {
            Some(i) => self.replace_at(i, lobby),
            None => {
                let ghost before = *self;
                self.rooms.push(k, lobby);
                assert(self.id_seq() =~= before.id_seq().push(key@));
            },
        }
    }
}

impl View for LobbyPool {
    type V = Map<Seq<char>, LobbyView>;

    closed spec fn view(&self) -> Map<Seq<char>, LobbyView> {
        self.rooms@
    }
}

} // verus!
