use vstd::prelude::*;
use crate::conn::{Connection, ConnView, fresh};

verus! {

/// A bounded store of live connections keyed by token. Token `first + i` names
/// slot `i`; a token is handed out again only after its connection was removed.
pub struct Registry {
    slots: Vec<Option<Connection>>,
    first: usize,
    capacity: usize,
}

impl Registry {
    pub closed spec fn first_token(&self) -> usize {
        self.first
    }

    pub closed spec fn max_live(&self) -> usize {
        self.capacity
    }

    /// Whether `t` is one of the tokens this registry can hand out.
    pub open spec fn in_range(&self, t: usize) -> bool {
        self.first_token() <= t < self.first_token() + self.max_live()
    }

    pub closed spec fn wf(&self) -> bool {
        &&& self.slots@.len() <= self.capacity
        &&& self.first + self.capacity <= usize::MAX
        &&& forall|i: int|
            0 <= i < self.slots@.len() && (#[trigger] self.slots@[i]) is Some ==> self.slots@[i]->0.token
                == self.first + i
    }

    /// The live connections, by token.
    pub closed spec fn live(&self) -> Map<usize, ConnView> {
        Map::new(
            |t: usize|
                self.first <= t < self.first + self.slots@.len() && self.slots@[t - self.first] is Some,
            |t: usize| self.slots@[t - self.first]->0@,
        )
    }

    /// Every token of the range is in use.
    pub open spec fn full(&self) -> bool {
        forall|t: usize| self.in_range(t) ==> #[trigger] self.live().contains_key(t)
    }

    /// An empty registry handing out the tokens `first .. first + capacity`.
    pub fn new(first: usize, capacity: usize) -> (r: Registry)
        requires
            first + capacity <= usize::MAX,
        ensures
            r.wf(),
            r.first_token() == first,
            r.max_live() == capacity,
            r.live() == Map::<usize, ConnView>::empty(),
    {
        let r = Registry { slots: Vec::new(), first, capacity };
        assert(r.live() =~= Map::<usize, ConnView>::empty());
        r
    }

    /// Whether a live connection has token `token`.
    pub fn contains(&self, token: usize) -> (r: bool)
        requires
            self.wf(),
        ensures
            r == self.live().contains_key(token),
    {
        if token < self.first || token - self.first >= self.slots.len() {
            false
        } else {
            self.slots[token - self.first].is_some()
        }
    }

    /// The live connection with token `token`, if any.
    pub fn lookup(&self, token: usize) -> (r: Option<&Connection>)
        requires
            self.wf(),
        ensures
            r is Some == self.live().contains_key(token),
            r matches Some(c) ==> c@ == self.live()[token],
    {
        if token < self.first || token - self.first >= self.slots.len() {
            None
        } else {
            match &self.slots[token - self.first] {
                Some(c) => Some(c),
                None => None,
            }
        }
    }

    /// Stores a fresh connection under a token that is not in use and returns
    /// the token; returns `None`, and changes nothing, when every token is in use.
    pub fn insert(&mut self) -> (r: Option<usize>)
        requires
            old(self).wf(),
        ensures
            final(self).wf(),
            final(self).first_token() == old(self).first_token(),
            final(self).max_live() == old(self).max_live(),
            r is None == old(self).full(),
            r is None ==> final(self).live() == old(self).live(),
            r matches Some(t) ==> {
                &&& old(self).in_range(t)
                &&& !old(self).live().contains_key(t)
                &&& final(self).live() == old(self).live().insert(t, fresh(t))
            },
    {
        let n: usize = self.slots.len();
        let mut i: usize = 0;
        while i < n
            invariant
                n == self.slots@.len(),
                i <= n,
                self.wf(),
                self.first == old(self).first,
                self.capacity == old(self).capacity,
                self.live() == old(self).live(),
                forall|j: int| 0 <= j < i ==> (#[trigger] self.slots@[j]) is Some,
            decreases n - i,
        {
            if self.slots[i].is_none() {
                let t: usize = self.first + i;
                let ghost before = self.live();
                assert(!before.contains_key(t));
                assert(self.in_range(t));
                self.slots.set(i, Some(Connection::new(t)));
                assert(self.live() =~= before.insert(t, fresh(t)));
                return Some(t);
            }
            i = i + 1;
        }
        if n < self.capacity {
            let t: usize = self.first + n;
            let ghost before = self.live();
            self.slots.push(Some(Connection::new(t)));
            assert(self.live() =~= before.insert(t, fresh(t)));
            assert(!before.contains_key(t));
            assert(self.in_range(t));
            Some(t)
        } else {
            assert forall|t: usize| self.in_range(t) implies #[trigger] self.live().contains_key(t) by {
                assert(self.slots@[t - self.first] is Some);
            }
            None
        }
    }

    /// Takes the connection with token `token` out of the registry; its token may
    /// be handed out again afterwards.
    pub fn remove(&mut self, token: usize) -> (r: Option<Connection>)
        requires
            old(self).wf(),
        ensures
            final(self).wf(),
            final(self).first_token() == old(self).first_token(),
            final(self).max_live() == old(self).max_live(),
            final(self).live() == old(self).live().remove(token),
            r is Some == old(self).live().contains_key(token),
            r matches Some(c) ==> c@ == old(self).live()[token] && c.token == token && old(
                self,
            ).in_range(token),
    {
        if token < self.first || token - self.first >= self.slots.len() {
            assert(self.live() =~= self.live().remove(token));
            return None;
        }
        let i: usize = token - self.first;
        let ghost before = self.live();
        let e = self.slots.remove(i);
        self.slots.insert(i, None);
        assert(self.live() =~= before.remove(token));
        e
    }

    /// Puts a connection back under its own token, which must be free.
    pub fn restore(&mut self, c: Connection)
        requires
            old(self).wf(),
            old(self).in_range(c.token),
            !old(self).live().contains_key(c.token),
        ensures
            final(self).wf(),
            final(self).first_token() == old(self).first_token(),
            final(self).max_live() == old(self).max_live(),
            final(self).live() == old(self).live().insert(c.token, c@),
    {
        let ghost before = self.live();
        let ghost cv = c@;
        let t: usize = c.token;
        let i: usize = t - self.first;
        let mut slot = Some(c);
        while self.slots.len() <= i
            invariant
                self.wf(),
                self.live() == before,
                self.first == old(self).first,
                self.capacity == old(self).capacity,
                i < self.capacity,
                t == self.first + i,
                slot matches Some(x) && x.token == t && x@ == cv,
                !before.contains_key(t),
            decreases i + 1 - self.slots@.len(),
        {
            let ghost b2 = self.live();
            self.slots.push(None);
            assert(self.live() =~= b2);
        }
        self.slots.set(i, slot);
        assert(self.live() =~= before.insert(t, cv));
    }
}

/// After a fresh connection is stored under a free token, that token can be
/// looked up; after it is removed again, it cannot, and the other entries are as
/// they were.
pub proof fn lemma_registry_lifecycle(a: Registry, b: Registry, c: Registry, t: usize)
    requires
        !a.live().contains_key(t),
        b.live() == a.live().insert(t, fresh(t)),
        c.live() == b.live().remove(t),
    ensures
        b.live().contains_key(t),
        b.live()[t] == fresh(t),
        !c.live().contains_key(t),
        c.live() == a.live(),
{
    assert(c.live() =~= a.live());
}

} // verus!
