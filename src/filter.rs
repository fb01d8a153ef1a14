//! Raw socket records as the enumeration hands them over, and the filters
//! that decide which of them the table shows.
use vstd::prelude::*;

verus! {

/// Which address families the table shows.
#[derive(PartialEq, Eq, Structural, Clone, Copy, Debug)]
pub enum IpVersionFilter {
    Ipv4Only,
    Ipv6Only,
    Ipv4AndIpv6,
}

/// Which transport protocols the table shows.
#[derive(PartialEq, Eq, Structural, Clone, Copy, Debug)]
pub enum ProtocolFilter {
    TcpOnly,
    UdpOnly,
    TcpAndUdp,
}

/// An IP address: its family and its literal text (dotted quad or IPv6
/// notation), which also serves as its key.
#[derive(Debug)]
pub struct IpAddress {
    pub is_ipv6: bool,
    pub text: String,
}

/// The protocol-specific part of a raw socket record.
#[derive(Debug)]
pub enum SocketDetail {
    Tcp {
        local_addr: IpAddress,
        local_port: u16,
        remote_addr: IpAddress,
        remote_port: u16,
        state: String,
    },
    Udp { local_addr: IpAddress, local_port: u16 },
}

/// One socket as the enumeration reports it, with the ids of the processes
/// that own it.
#[derive(Debug)]
pub struct RawSocket {
    pub detail: SocketDetail,
    pub associated_pids: Vec<u32>,
}

impl IpAddress {
    /// A copy of the address.
    pub fn duplicate(&self) -> (r: IpAddress)
        ensures
            r.is_ipv6 == self.is_ipv6,
            r.text@ == self.text@,
    {
        IpAddress { is_ipv6: self.is_ipv6, text: self.text.clone() }
    }
}

impl SocketDetail {
    pub open spec fn is_tcp(&self) -> bool {
        self is Tcp
    }

    pub open spec fn local(&self) -> IpAddress {
        match self {
            SocketDetail::Tcp { local_addr, .. } => *local_addr,
            SocketDetail::Udp { local_addr, .. } => *local_addr,
        }
    }
}

/// The protocol filter lets a socket of this protocol through.
pub open spec fn protocol_passes(tcp: bool, f: ProtocolFilter) -> bool {
    match f {
        ProtocolFilter::TcpOnly => tcp,
        ProtocolFilter::UdpOnly => !tcp,
        ProtocolFilter::TcpAndUdp => true,
    }
}

/// The address family filter lets an address of this family through.
pub open spec fn family_passes(ipv6: bool, f: IpVersionFilter) -> bool {
    match f {
        IpVersionFilter::Ipv4Only => !ipv6,
        IpVersionFilter::Ipv6Only => ipv6,
        IpVersionFilter::Ipv4AndIpv6 => true,
    }
}

/// A record is shown when both filters let it through; the family is that of
/// its local address.
pub open spec fn shown(d: SocketDetail, ipf: IpVersionFilter, pf: ProtocolFilter) -> bool {
    protocol_passes(d.is_tcp(), pf) && family_passes(d.local().is_ipv6, ipf)
}

/// Decides whether a record passes the filters. It reads nothing but its
/// arguments and changes nothing, so equal arguments always give equal answers.
pub fn should_show(socket: &RawSocket, ipf: IpVersionFilter, pf: ProtocolFilter) -> (r: bool)
    ensures
        r == shown(socket.detail, ipf, pf),
{
    let (tcp, ipv6) = match &socket.detail {
        SocketDetail::Tcp { local_addr, .. } => (true, local_addr.is_ipv6),
        SocketDetail::Udp { local_addr, .. } => (false, local_addr.is_ipv6),
    };
    let proto_ok = match pf {
        ProtocolFilter::TcpOnly => tcp,
        ProtocolFilter::UdpOnly => !tcp,
        ProtocolFilter::TcpAndUdp => true,
    };
    let family_ok = match ipf {
        IpVersionFilter::Ipv4Only => !ipv6,
        IpVersionFilter::Ipv6Only => ipv6,
        IpVersionFilter::Ipv4AndIpv6 => true,
    };
    proto_ok && family_ok
}

} // verus!
