use vstd::prelude::*;
use crate::address::Address;

verus! {

/// The peers that a node is connected to: their addresses, each once, in
/// the order in which they were added.
#[derive(Debug)]
pub struct Peers {
    addresses: Vec<Address>,
}

impl View for Peers {
    type V = Seq<Address>;

    closed spec fn view(&self) -> Seq<Address> {
        self.addresses@
    }
}

impl Peers {
    #[verifier::type_invariant]
    spec fn each_once(self) -> bool {
        self.addresses@.no_duplicates()
    }

    /// No peers.
    pub fn new() -> (peers: Peers)
        ensures
            peers@ == Seq::<Address>::empty(),
    {
        Peers { addresses: Vec::new() }
    }

    /// The number of peers.
    pub fn len(&self) -> (count: usize)
        ensures
            count == self@.len(),
    {
        self.addresses.len()
    }

    /// Whether `address` is among the peers.
    pub fn contains(&self, address: Address) -> (found: bool)
        ensures
            found == self@.contains(address),
    {
        let mut i: usize = 0;
        while i < self.addresses.len()
            invariant
                i <= self.addresses@.len(),
                forall|j: int| 0 <= j < i ==> self.addresses@[j] != address,
            decreases self.addresses@.len() - i,
        {
            if self.addresses[i] == address {
                return true;
            }
            i += 1;
        }
        false
    }

    /// Adds `address` unless it is a peer already, and tells whether it was
    /// added.
    pub fn insert(&mut self, address: Address) -> (added: bool)
        ensures
            added == !old(self)@.contains(address),
            final(self)@ == if added {
                old(self)@.push(address)
            } else {
                old(self)@
            },
    {
        if self.contains(address) {
            return false;
        }
        proof {
            use_type_invariant(&*self);
        }
        let mut addresses: Vec<Address> = Vec::new();
        let mut i: usize = 0;
        while i < self.addresses.len()
            invariant
                i <= self.addresses@.len(),
                addresses@ == self.addresses@.take(i as int),
            decreases self.addresses@.len() - i,
        {
            addresses.push(self.addresses[i]);
            i += 1;
        }
        addresses.push(address);
        assert(addresses@ == self.addresses@.push(address));
        *self = Peers { addresses };
        true
    }

    /// The addresses of the peers, none of them twice.
    pub fn addresses(&self) -> (addresses: &Vec<Address>)
        ensures
            addresses@ == self@,
            addresses@.no_duplicates(),
    {
        proof {
            use_type_invariant(self);
        }
        &self.addresses
    }
}

} // verus!
