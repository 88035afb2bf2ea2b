//! Network addresses as the router handles them.
use vstd::prelude::*;

verus! {

/// What tells one socket address from another: the family, the address bits and the port, and for
/// IPv6 the flow label and the scope.
#[derive(Debug, Clone, Copy, PartialEq, Eq, Hash, Structural)]
pub struct AddressId {
    pub v6: bool,
    pub ip: u128,
    pub flowinfo: u32,
    pub scope_id: u32,
    pub port: u16,
}

/// A socket address with the form in which it is written in messages.
#[derive(Debug, Clone)]
pub struct SocketAddress {
    pub id: AddressId,
    /// The written form, such as `127.0.0.1:8080`
    pub text: String,
}

/// The identity of the IPv4 address with these bits and this port.
pub open spec fn v4_id(ip: u32, port: u16) -> AddressId {
    AddressId { v6: false, ip: ip as u128, flowinfo: 0, scope_id: 0, port }
}

impl AddressId {
    /// The identity of the IPv4 address with these bits and this port.
    pub fn v4(ip: u32, port: u16) -> (result: Self)
        ensures
            result == v4_id(ip, port),
    {
        AddressId { v6: false, ip: ip as u128, flowinfo: 0, scope_id: 0, port }
    }
}

impl SocketAddress {
    /// The same address once more.
    pub fn copy(&self) -> (result: Self)
        ensures
            result == *self,
    {
        SocketAddress { id: self.id, text: self.text.clone() }
    }
}

} // verus!
