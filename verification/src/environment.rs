use vstd::prelude::*;
use crate::address::Address;

verus! {

/// What the relay knows of the node it runs on.
#[derive(Clone, Copy, Debug, PartialEq, Eq, Structural)]
pub struct Environment {
    /// The address under which peers reach this node. It is unknown until
    /// the node's listener is bound.
    pub local_address: Option<Address>,
    /// Whether this node is a bootnode: one that serves the memory pool to
    /// others and never asks for theirs.
    pub is_bootnode: bool,
}

impl Environment {
    /// The environment of a node with the given address and role.
    pub fn new(local_address: Option<Address>, is_bootnode: bool) -> (environment: Environment)
        ensures
            environment == (Environment { local_address, is_bootnode }),
    {
        Environment { local_address, is_bootnode }
    }

    /// Whether this node is a bootnode.
    pub fn is_bootnode(&self) -> (bootnode: bool)
        ensures
            bootnode == self.is_bootnode,
    {
        self.is_bootnode
    }

    /// The address of this node, once it is known.
    pub fn local_address(&self) -> (address: Option<Address>)
        ensures
            address == self.local_address,
    {
        self.local_address
    }

    /// Records the address under which this node is reached.
    pub fn set_local_address(&mut self, address: Address)
        ensures
            *final(self) == (Environment { local_address: Some(address), is_bootnode: old(self).is_bootnode }),
    {
        self.local_address = Some(address);
    }
}

} // verus!
