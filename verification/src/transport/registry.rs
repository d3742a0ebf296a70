//! The peer registry: at most one peer per remote address.

use vstd::prelude::*;
use super::message::PeerAddr;

verus! {

/// One registered peer: its remote address and the handle through which it is reached.
pub struct PeerEntry<P> {
    addr: PeerAddr,
    peer: P,
}

/// The peers that are connected, by remote address. `P` is the handle of one peer.
pub struct PeerRegistry<P> {
    entries: Vec<PeerEntry<P>>,
}

impl<P> View for PeerRegistry<P> {
    type V = Map<PeerAddr, P>;

    closed spec fn view(&self) -> Map<PeerAddr, P> {
        Map::new(|a: PeerAddr| self.holds(a), |a: PeerAddr| self.entries@[self.index_of(a)].peer)
    }
}

impl<P> PeerRegistry<P> {
    spec fn holds(&self, addr: PeerAddr) -> bool {
        exists|i: int| 0 <= i < self.entries@.len() && #[trigger] self.entries@[i].addr == addr
    }

    spec fn index_of(&self, addr: PeerAddr) -> int {
        choose|i: int| 0 <= i < self.entries@.len() && #[trigger] self.entries@[i].addr == addr
    }

    /// The registry is valid: no address is held twice.
    pub closed spec fn wf(&self) -> bool {
        forall|i: int, j: int|
            0 <= i < j < self.entries@.len() ==> #[trigger] self.entries@[i].addr
                != #[trigger] self.entries@[j].addr
    }

    /// The addresses in the order in which a walk by index visits them.
    pub closed spec fn addrs(&self) -> Seq<PeerAddr> {
        Seq::new(self.entries@.len(), |i: int| self.entries@[i].addr)
    }

    /// A registry without peers.
    pub fn new() -> (registry: PeerRegistry<P>)
        ensures
            registry.wf(),
            registry@ == Map::<PeerAddr, P>::empty(),
            registry.addrs().len() == 0,
    {
        let registry = PeerRegistry { entries: Vec::new() };
        assert(registry@ =~= Map::<PeerAddr, P>::empty());
        registry
    }

    /// The number of peers.
    pub fn len(&self) -> (n: usize)
        requires
            self.wf(),
        ensures
            n == self.addrs().len(),
            n == self@.dom().len(),
            self@.dom().finite(),
    {
        proof {
            self.lemma_dom_is_addrs();
            self.addrs().unique_seq_to_set();
        }
        self.entries.len()
    }

    proof fn lemma_dom_is_addrs(&self)
        requires
            self.wf(),
        ensures
            self@.dom() == self.addrs().to_set(),
            self.addrs().no_duplicates(),
    {
        assert forall|a: PeerAddr| self@.dom().contains(a) <==> self.addrs().to_set().contains(
            a,
        ) by {
            if self@.dom().contains(a) {
                let i = self.index_of(a);
                assert(self.addrs()[i] == a);
            }
            if self.addrs().to_set().contains(a) {
                let i = choose|i: int| 0 <= i < self.addrs().len() && self.addrs()[i] == a;
                assert(self.entries@[i].addr == a);
            }
        }
        assert(self@.dom() =~= self.addrs().to_set());
    }

    fn find(&self, addr: PeerAddr) -> (at: Option<usize>)
        requires
            self.wf(),
        ensures
            match at {
                Some(i) => i < self.entries@.len() && self.entries@[i as int].addr == addr
                    && self@.contains_key(addr) && self@[addr] == self.entries@[i as int].peer,
                None => !self@.contains_key(addr),
            },
    {
        let mut i: usize = 0;
        while i < self.entries.len()
            invariant
                self.wf(),
                i <= self.entries@.len(),
                forall|j: int| 0 <= j < i ==> #[trigger] self.entries@[j].addr != addr,
            decreases self.entries@.len() - i,
        {
            if self.entries[i].addr == addr {
                assert(self.holds(addr));
                assert(self.index_of(addr) == i);
                return Some(i);
            }
            i += 1;
        }
        None
    }

    /// Whether a peer is registered under `addr`.
    pub fn contains(&self, addr: PeerAddr) -> (found: bool)
        requires
            self.wf(),
        ensures
            found == self@.contains_key(addr),
    {
        self.find(addr).is_some()
    }

    /// The peer registered under `addr`.
    pub fn get(&self, addr: PeerAddr) -> (peer: Option<&P>)
        requires
            self.wf(),
        ensures
            match peer {
                Some(p) => self@.contains_key(addr) && *p == self@[addr],
                None => !self@.contains_key(addr),
            },
    {
        match self.find(addr) {
            Some(i) => Some(&self.entries[i].peer),
            None => None,
        }
    }

    /// The address at position `i` of a walk over the registry.
    pub fn addr_at(&self, i: usize) -> (addr: PeerAddr)
        requires
            self.wf(),
            i < self.addrs().len(),
        ensures
            addr == self.addrs()[i as int],
            self@.contains_key(addr),
    {
        assert(self.holds(self.entries@[i as int].addr));
        self.entries[i].addr
    }

    /// The peer at position `i` of a walk over the registry.
    pub fn peer_at(&self, i: usize) -> (peer: &P)
        requires
            self.wf(),
            i < self.addrs().len(),
        ensures
            self@.contains_key(self.addrs()[i as int]),
            *peer == self@[self.addrs()[i as int]],
    {
        assert(self.holds(self.entries@[i as int].addr));
        assert(self.index_of(self.entries@[i as int].addr) == i);
        &self.entries[i].peer
    }

    /// Registers `peer` under `addr`. A peer that was registered under the same address is
    /// superseded and handed back, for the caller to close.
    pub fn insert(&mut self, addr: PeerAddr, peer: P) -> (superseded: Option<P>)
        requires
            old(self).wf(),
        ensures
            final(self).wf(),
            final(self)@ == old(self)@.insert(addr, peer),
            superseded == (if old(self)@.contains_key(addr) {
                Some(old(self)@[addr])
            } else {
                None
            }),
    {
        let ghost before = *self;
        let found = self.find(addr);
        let superseded = match found {
            Some(i) => {
                let older = self.entries.remove(i);
                self.entries.insert(i, PeerEntry { addr, peer });
                Some(older.peer)
            },
            None => {
                self.entries.push(PeerEntry { addr, peer });
                None
            },
        };
        proof {
            let wanted = before@.insert(addr, peer);
            assert forall|a: PeerAddr| self.holds(a) <==> wanted.contains_key(a) by {
                if self.holds(a) {
                    let i = self.index_of(a);
                    if a != addr {
                        assert(before.entries@[i].addr == a);
                        assert(before.holds(a));
                    }
                }
                if wanted.contains_key(a) {
                    if a == addr {
                        match found {
                            Some(i) => {
                                assert(self.entries@[i as int].addr == a);
                            },
                            None => {
                                assert(self.entries@[self.entries@.len() - 1].addr == a);
                            },
                        }
                    } else {
                        let i = before.index_of(a);
                        assert(self.entries@[i].addr == a);
                    }
                }
            }
            assert forall|a: PeerAddr| self.holds(a) implies self.entries@[self.index_of(a)].peer
                == wanted[a] by {
                let i = self.index_of(a);
                if a != addr {
                    assert(before.entries@[i].addr == a);
                    assert(before.holds(a));
                    assert(before.index_of(a) == i);
                }
            }
            assert(self@ =~= wanted);
        }
        superseded
    }

    /// Takes the peer registered under `addr` out of the registry and hands it back.
    pub fn remove(&mut self, addr: PeerAddr) -> (removed: Option<P>)
        requires
            old(self).wf(),
        ensures
            final(self).wf(),
            final(self)@ == old(self)@.remove(addr),
            removed == (if old(self)@.contains_key(addr) {
                Some(old(self)@[addr])
            } else {
                None
            }),
    {
        let ghost before = *self;
        match self.find(addr) {
            Some(i) => {
                let entry = self.entries.remove(i);
                proof {
                    let wanted = before@.remove(addr);
                    assert forall|a: PeerAddr| self.holds(a) <==> wanted.contains_key(a) by {
                        if self.holds(a) {
                            let j = self.index_of(a);
                            let b = if j < i { j } else { j + 1 };
                            assert(before.entries@[b].addr == a);
                            assert(before.holds(a));
                        }
                        if wanted.contains_key(a) {
                            let j = before.index_of(a);
                            if j < i {
                                assert(self.entries@[j].addr == a);
                            } else {
                                assert(self.entries@[j - 1].addr == a);
                            }
                        }
                    }
                    assert forall|a: PeerAddr| self.holds(a) implies self.entries@[self.index_of(
                        a,
                    )].peer == wanted[a] by {
                        let j = self.index_of(a);
                        let b = if j < i { j } else { j + 1 };
                        assert(before.entries@[b].addr == a);
                        assert(before.holds(a));
                        assert(before.index_of(a) == b);
                    }
                    assert(self@ =~= wanted);
                }
                Some(entry.peer)
            },
            None => {
                assert(self@ =~= before@.remove(addr));
                None
            },
        }
    }

    /// Takes one peer out of the registry, for a transport that closes every peer in
    /// turn; `None` once the registry is empty.
    pub fn take_any(&mut self) -> (taken: Option<(PeerAddr, P)>)
        requires
            old(self).wf(),
        ensures
            final(self).wf(),
            match taken {
                Some((addr, peer)) => old(self)@.contains_key(addr) && old(self)@[addr] == peer
                    && final(self)@ == old(self)@.remove(addr),
                None => old(self)@ == Map::<PeerAddr, P>::empty() && final(self)@ == old(self)@,
            },
    {
        if self.entries.len() == 0 {
            assert(self@ =~= Map::<PeerAddr, P>::empty());
            return None;
        }
        let addr = self.addr_at(0);
        match self.remove(addr) {
            Some(peer) => Some((addr, peer)),
            None => None,
        }
    }

    /// Empties the registry, for a transport that shuts down, and hands every peer back
    /// for the caller to close: each peer that was registered, once, under its address.
    pub fn take_all(&mut self) -> (taken: Vec<(PeerAddr, P)>)
        requires
            old(self).wf(),
        ensures
            final(self).wf(),
            final(self)@ == Map::<PeerAddr, P>::empty(),
            taken@.len() == old(self)@.dom().len(),
            forall|i: int|
                0 <= i < taken@.len() ==> old(self)@.contains_key(#[trigger] taken@[i].0)
                    && old(self)@[taken@[i].0] == taken@[i].1,
            forall|i: int, j: int|
                0 <= i < j < taken@.len() ==> #[trigger] taken@[i].0 != #[trigger] taken@[j].0,
            forall|addr: PeerAddr| #[trigger]
                old(self)@.contains_key(addr) ==> exists|i: int|
                    0 <= i < taken@.len() && #[trigger] taken@[i].0 == addr,
    {
        let mut taken: Vec<(PeerAddr, P)> = Vec::new();
        let total: usize = self.len();
        let mut left: usize = total;
        while left > 0
            invariant
                self.wf(),
                self@.dom().finite(),
                left == self@.dom().len(),
                taken@.len() + left == old(self)@.dom().len(),
                forall|addr: PeerAddr| #[trigger]
                    self@.contains_key(addr) ==> old(self)@.contains_key(addr) && self@[addr]
                        == old(self)@[addr],
                forall|i: int|
                    0 <= i < taken@.len() ==> old(self)@.contains_key(#[trigger] taken@[i].0)
                        && old(self)@[taken@[i].0] == taken@[i].1 && !self@.contains_key(
                        taken@[i].0,
                    ),
                forall|i: int, j: int|
                    0 <= i < j < taken@.len() ==> #[trigger] taken@[i].0 != #[trigger] taken@[j].0,
                forall|addr: PeerAddr| #[trigger]
                    old(self)@.contains_key(addr) ==> self@.contains_key(addr) || exists|i: int|
                        0 <= i < taken@.len() && #[trigger] taken@[i].0 == addr,
            decreases left,
        {
            let ghost before = self@;
            let ghost taken_before = taken@;
            match self.take_any() {
                Some((addr, peer)) => {
                    taken.push((addr, peer));
                    left = left - 1;
                    assert forall|a: PeerAddr| #[trigger]
                        old(self)@.contains_key(a) implies self@.contains_key(a) || exists|i: int|
                        0 <= i < taken@.len() && #[trigger] taken@[i].0 == a by {
                        if !self@.contains_key(a) {
                            if a == addr {
                                assert(taken@[taken@.len() - 1].0 == a);
                            } else {
                                assert(!before.contains_key(a));
                                let i = choose|i: int|
                                    0 <= i < taken_before.len() && #[trigger] taken_before[i].0
                                        == a;
                                assert(taken@[i].0 == a);
                            }
                        }
                    }
                },
                None => {
                    assert(before.dom() =~= Set::<PeerAddr>::empty());
                    assert(false);
                },
            }
        }
        assert(self@ =~= Map::<PeerAddr, P>::empty());
        taken
    }
}

} // verus!
