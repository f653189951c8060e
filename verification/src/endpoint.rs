//! Endpoint addressing decisions.
//!
//! Addresses are held as plain values — family, octets packed big-endian
//! into integers, port — so the multicast test, the family check and the
//! self-loop comparison are all verified arithmetic. Socket handles and
//! the actual bind/join/connect calls live with the caller.

use vstd::prelude::*;

verus! {

/// A socket address as plain values.
///
/// For IPv4 the four octets sit big-endian in the low half of `ip_lo` and
/// the other fields besides `port` are zero; for IPv6 the first eight
/// octets sit big-endian in `ip_hi` and the last eight in `ip_lo`.
#[derive(Clone, Copy, Debug, PartialEq, Eq, Structural)]
pub struct SocketAddress {
    /// Whether this is an IPv6 address.
    pub is_v6: bool,
    /// First eight octets, big-endian; zero for IPv4.
    pub ip_hi: u64,
    /// Last eight octets (IPv6) or the four octets (IPv4), big-endian.
    pub ip_lo: u64,
    /// The UDP port.
    pub port: u16,
    /// IPv6 flow information; zero for IPv4.
    pub flowinfo: u32,
    /// IPv6 scope identifier; zero for IPv4.
    pub scope_id: u32,
}

impl SocketAddress {
    /// An IPv4 address leaves the IPv6-only fields zero and its four
    /// octets within 32 bits.
    pub open spec fn wf(self) -> bool {
        !self.is_v6 ==> self.ip_hi == 0 && self.ip_lo <= u32::MAX && self.flowinfo == 0
            && self.scope_id == 0
    }

    /// A multicast address: first octet 224 through 239 for IPv4, first
    /// octet 0xff for IPv6.
    pub open spec fn spec_is_multicast(self) -> bool {
        if self.is_v6 {
            self.ip_hi >> 56 == 0xff
        } else {
            224 <= self.ip_lo >> 24 <= 239
        }
    }

    /// Whether the address is a multicast group address.
    pub fn is_multicast(&self) -> (r: bool)
        ensures
            r == self.spec_is_multicast(),
    {
        if self.is_v6 {
            (self.ip_hi >> 56u64) == 0xff
        } else {
            let top = self.ip_lo >> 24u64;
            224 <= top && top <= 239
        }
    }
}

/// How the two datagram handles of the bridge are to be set up.
#[derive(Clone, Copy, Debug, PartialEq, Eq, Structural)]
pub enum UdpPlan {
    /// Bind the receive socket to the group address and join the group on
    /// the local interface; bind a separate send socket to the plain local
    /// address — sending to the group needs no membership.
    Multicast { group: SocketAddress, local: SocketAddress },
    /// Bind one socket to the local address and connect it to the remote;
    /// the same handle serves as both sender and receiver.
    Unicast { local: SocketAddress, remote: SocketAddress },
}

/// A fatal configuration fault found while planning the endpoints.
#[derive(Clone, Copy, Debug, PartialEq, Eq, Structural)]
pub enum SetupError {
    /// The local and remote addresses are not of the same IP family.
    FamilyMismatch,
}

/// Resolves unicast against multicast addressing: a remote multicast
/// group address asks for a joined receive socket plus a separate send
/// socket, any other remote for one connected socket; mismatched address
/// families are a fatal configuration error.
pub fn plan_udp_sockets(local: SocketAddress, remote: SocketAddress) -> (r: Result<
    UdpPlan,
    SetupError,
>)
    ensures
        local.is_v6 != remote.is_v6 ==> (r matches Err(e) && e == SetupError::FamilyMismatch),
        local.is_v6 == remote.is_v6 && remote.spec_is_multicast() ==> (r matches Ok(p) && p
            == (UdpPlan::Multicast { group: remote, local })),
        local.is_v6 == remote.is_v6 && !remote.spec_is_multicast() ==> (r matches Ok(p) && p
            == (UdpPlan::Unicast { local, remote })),
{
    if local.is_v6 != remote.is_v6 {
        Err(SetupError::FamilyMismatch)
    } else if remote.is_multicast() {
        Ok(UdpPlan::Multicast { group: remote, local })
    } else {
        Ok(UdpPlan::Unicast { local, remote })
    }
}

} // verus!
