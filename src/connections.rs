use vstd::prelude::*;

use crate::registry::Registry;

verus! {

/// The identity of a connection's outbound queue. Whoever owns the queues
/// maps each handle to the queue it names.
pub type ConnId = u64;

/// How many envelopes a connection's outbound queue holds. When a peer falls
/// further behind, the oldest envelopes are dropped, so that pushing onto a
/// queue never waits on a slow peer. A power of two, so that a channel that
/// rounds its capacity up to one holds exactly this many.
pub const OUTBOUND_CAPACITY: usize = 128;

/// The registry of live connections: for each logged-in account, the handle
/// of the connection it last connected on. Each account is stored once.
pub struct UserPool {
    accounts: Registry<ConnId>,
}

impl UserPool {
    /// The registry's invariant: each account is stored once.
    pub closed spec fn wf(&self) -> bool {
        self.accounts.wf()
    }

    /// The registered accounts and their connections, in registration order.
    pub closed spec fn pairs(&self) -> Seq<(Seq<char>, ConnId)> {
        self.accounts.pairs()
    }

    /// An empty registry.
    pub fn new() -> (r: UserPool)
        ensures
            r.wf(),
            r@ == Map::<Seq<char>, ConnId>::empty(),
            r.pairs() == Seq::<(Seq<char>, ConnId)>::empty(),
    {
        UserPool { accounts: Registry::new() }
    }

    /// Binds `account_id` to connection `conn`; a later registration of the
    /// same account replaces the earlier one.
    pub fn register(&mut self, account_id: &str, conn: ConnId)
        requires
            old(self).wf(),
        ensures
            final(self).wf(),
            final(self)@ == old(self)@.insert(account_id@, conn),
            old(self)@.contains_key(account_id@) ==> exists|i: int|
                0 <= i < old(self).pairs().len() && #[trigger] old(self).pairs()[i].0 == account_id@
                    && final(self).pairs() == old(self).pairs().update(i, (account_id@, conn)),
            !old(self)@.contains_key(account_id@) ==> final(self).pairs() == old(self).pairs().push(
                (account_id@, conn),
            ),
    {
        let k = account_id.to_owned();
        match self.accounts.find(&k) {
            Some(i) => {
                self.accounts.set_value(i, conn);
                assert(old(self).pairs()[i as int].0 == account_id@);
            },
            None => self.accounts.push(k, conn),
        }
    }

    /// The connection `account_id` is bound to, if any.
    pub fn lookup(&self, account_id: &str) -> (r: Option<ConnId>)
        requires
            self.wf(),
        ensures
            r is Some == self@.contains_key(account_id@),
            r matches Some(c) ==> c == self@[account_id@],
    {
        let k = account_id.to_owned();
        match self.accounts.find(&k) {
            Some(i) => Some(*self.accounts.value(i)),
            None => None,
        }
    }

    /// Unbinds `account_id`, but only while it is still bound to `conn`: a
    /// connection that closes late cannot unbind a newer one. Returns whether
    /// an entry was removed.
    pub fn unregister(&mut self, account_id: &str, conn: ConnId) -> (r: bool)
        requires
            old(self).wf(),
        ensures
            final(self).wf(),
            r == (old(self)@.contains_key(account_id@) && old(self)@[account_id@] == conn),
            r ==> final(self)@ == old(self)@.remove(account_id@),
            !r ==> *final(self) == *old(self),
    {
        let k = account_id.to_owned();
        match self.accounts.find(&k) {
            Some(i) => {
                if *self.accounts.value(i) != conn {
                    return false;
                }
                self.accounts.remove(i);
                true
            },
            None => false,
        }
    }

    /// The registered accounts, in registration order.
    pub fn list_ids(&self) -> (r: Vec<String>)
        requires
            self.wf(),
        ensures
            r@.len() == self.pairs().len(),
            forall|i: int| 0 <= i < r@.len() ==> r@[i]@ == #[trigger] self.pairs()[i].0,
            forall|k: Seq<char>| self@.contains_key(k) <==> exists|i: int| 0 <= i < r@.len() && r@[i]@ == k,
    {
        let mut r: Vec<String> = Vec::new();
        let mut i: usize = 0;
        while i < self.accounts.len()
            invariant
                self.wf(),
                i <= self.pairs().len(),
                r@.len() == i,
                forall|j: int| 0 <= j < i ==> r@[j]@ == #[trigger] self.pairs()[j].0,
            decreases self.pairs().len() - i,
        {
            r.push(self.accounts.key(i).clone());
            i = i + 1;
        }
        proof {
            self.accounts.lemma_keys();
            assert forall|k: Seq<char>| self@.contains_key(k) <==> exists|i: int| 0 <= i < r@.len() && r@[i]@ == k by {
                if self@.contains_key(k) {
                    let j = choose|j: int| 0 <= j < self.pairs().len() && #[trigger] self.pairs()[j].0 == k;
                    assert(r@[j]@ == k);
                }
                if exists|i: int| 0 <= i < r@.len() && r@[i]@ == k {
                    let j = choose|j: int| 0 <= j < r@.len() && r@[j]@ == k;
                    assert(self.pairs()[j].0 == k);
                }
            }
        }
        r
    }

    /// The connection of every registered account, in registration order.
    pub fn connections(&self) -> (r: Vec<ConnId>)
        requires
            self.wf(),
        ensures
            r@.len() == self.pairs().len(),
            forall|i: int| 0 <= i < r@.len() ==> r@[i] == #[trigger] self.pairs()[i].1,
    {
        let mut r: Vec<ConnId> = Vec::new();
        let mut i: usize = 0;
        while i < self.accounts.len()
            invariant
                i <= self.pairs().len(),
                r@.len() == i,
                forall|j: int| 0 <= j < i ==> r@[j] == #[trigger] self.pairs()[j].1,
            decreases self.pairs().len() - i,
        {
            r.push(*self.accounts.value(i));
            i = i + 1;
        }
        r
    }
}

impl View for UserPool {
    type V = Map<Seq<char>, ConnId>;

    closed spec fn view(&self) -> Map<Seq<char>, ConnId> {
        self.accounts@
    }
}

} // verus!
