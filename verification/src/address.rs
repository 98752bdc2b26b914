use vstd::prelude::*;

verus! {

/// The network address of a node: an IP address and a port, held as plain
/// integers so that two addresses are equal exactly when every part is.
///
/// `V4` carries the four octets of the IP address as one big-endian `u32`;
/// `V6` carries the sixteen octets as one big-endian `u128`, with the flow
/// information and scope of the socket address.
#[derive(Clone, Copy, Debug, PartialEq, Eq, Hash, Structural)]
#[allow(inconsistent_fields)]
pub enum Address {
    V4 { ip: u32, port: u16 },
    V6 { ip: u128, port: u16, flowinfo: u32, scope_id: u32 },
}

} // verus!
