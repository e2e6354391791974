use std::marker::PhantomData;

use vstd::prelude::*;

use crate::rpc::{Addr, IpAddr, ServerAddr, Target};

verus! {

/// The address a socks client asks for.
pub enum SocksAddr {
    Socket(IpAddr, u16),
    Domain(String, u16),
}

/// What a visitor's first bytes say, read as a socks request.
pub enum Socks {
    /// Not a socks request.
    Invalid,
    /// A socks `CONNECT` to this address.
    Tcp(SocksAddr),
    /// A socks `UDP ASSOCIATE` for this address.
    Udp(SocksAddr),
}

/// How a visitor is passed on after the socks check.
pub enum SocksPlan {
    /// Not socks: replay the bytes read and pass the visitor on without a target.
    Plain,
    /// Socks over TCP: drop the bytes read and forward to the target.
    Forward(Target),
    /// Socks over UDP: drop the bytes read, relay the visitor through a UDP forwarder, to the target.
    Relay(Target),
}

/// The server address (one host) and port of a socks address.
pub fn unpack_socks_addr(addr: SocksAddr) -> (r: (ServerAddr, u16))
    ensures
        match addr {
            SocksAddr::Socket(ip, port) => r.0.0@ == seq![Addr::WithIpAddr(ip)] && r.1 == port,
            SocksAddr::Domain(d, port) => r.0.0@ == seq![Addr::WithDomain(d)] && r.1 == port,
        },
{
    match addr {
        SocksAddr::Socket(ip, port) => {
            let mut hosts = Vec::new();
            hosts.push(Addr::WithIpAddr(ip));
            (ServerAddr(hosts), port)
        },
        SocksAddr::Domain(domain, port) => {
            let mut hosts = Vec::new();
            hosts.push(Addr::WithDomain(domain));
            (ServerAddr(hosts), port)
        },
    }
}

/// How the socks check passes a visitor on.
pub fn socks_plan(socks: Socks) -> (p: SocksPlan)
    ensures
        match socks {
            Socks::Invalid => p is Plain,
            Socks::Tcp(a) => p matches SocksPlan::Forward(Target::Tcp(s, port))
                && (s.0@, port) == unpacked(a),
            Socks::Udp(a) => p matches SocksPlan::Relay(Target::Udp(s, port))
                && (s.0@, port) == unpacked(a),
        },
        match socks {
            Socks::Tcp(SocksAddr::Socket(ip, port)) => p matches SocksPlan::Forward(Target::Tcp(s, q))
                && s.0@ == seq![Addr::WithIpAddr(ip)] && q == port,
            Socks::Tcp(SocksAddr::Domain(d, port)) => p matches SocksPlan::Forward(Target::Tcp(s, q))
                && s.0@ == seq![Addr::WithDomain(d)] && q == port,
            Socks::Udp(SocksAddr::Socket(ip, port)) => p matches SocksPlan::Relay(Target::Udp(s, q))
                && s.0@ == seq![Addr::WithIpAddr(ip)] && q == port,
            Socks::Udp(SocksAddr::Domain(d, port)) => p matches SocksPlan::Relay(Target::Udp(s, q))
                && s.0@ == seq![Addr::WithDomain(d)] && q == port,
            Socks::Invalid => p is Plain,
        },
{
    match socks {
        Socks::Invalid => SocksPlan::Plain,
        Socks::Tcp(addr) => {
            let (addr, port) = unpack_socks_addr(addr);
            SocksPlan::Forward(Target::Tcp(addr, port))
        },
        Socks::Udp(addr) => {
            let (addr, port) = unpack_socks_addr(addr);
            SocksPlan::Relay(Target::Udp(addr, port))
        },
    }
}

/// The hosts and port of a socks address, as `unpack_socks_addr` gives them.
pub open spec fn unpacked(a: SocksAddr) -> (Seq<Addr>, u16) {
    match a {
        SocksAddr::Socket(ip, port) => (seq![Addr::WithIpAddr(ip)], port),
        SocksAddr::Domain(d, port) => (seq![Addr::WithDomain(d)], port),
    }
}

/// The reply to a socks `UDP ASSOCIATE`: version 5, success, reserved, address
/// type IPv4, then the four octets and the port in big-endian bytes.
pub open spec fn spec_udp_reply(ip: [u8; 4], port: u16) -> Seq<u8> {
    seq![0x05u8, 0x00, 0x00, 0x01, ip[0], ip[1], ip[2], ip[3], (port / 0x100) as u8, (port % 0x100) as u8]
}

/// Whether `r` is a socks reply of success that names the IPv4 address `ip` and
/// the port `port`: version 5, success, reserved, address type IPv4, then the
/// address's four octets in order, then the port, high byte first.
pub open spec fn udp_reply_says(r: Seq<u8>, ip: [u8; 4], port: u16) -> bool {
    &&& r.len() == 10
    &&& r[0] == 5 && r[1] == 0 && r[2] == 0 && r[3] == 1
    &&& forall|i: int| 0 <= i < 4 ==> #[trigger] r[4 + i] == ip[i]
    &&& r[8] * 0x100 + r[9] == port
}

/// The UDP `ASSOCIATE` reply names the relay's address and port exactly: its
/// octets in order and its port high byte first, for every address and port.
pub proof fn law_udp_reply_names_the_relay(ip: [u8; 4], port: u16)
    ensures
        udp_reply_says(spec_udp_reply(ip, port), ip, port),
{
    let r = spec_udp_reply(ip, port);
    assert forall|i: int| 0 <= i < 4 implies #[trigger] r[4 + i] == ip[i] by {
        if i == 0 {
            assert(r[4] == ip[0]);
        } else if i == 1 {
            assert(r[5] == ip[1]);
        } else if i == 2 {
            assert(r[6] == ip[2]);
        } else {
            assert(r[7] == ip[3]);
        }
    }
    assert(((port / 0x100) as u8) as int * 0x100 + ((port % 0x100) as u8) as int == port) by (nonlinear_arith)
        requires 0 <= port < 0x1_0000;
}

/// A socks request keeps the host it asks for: a `CONNECT` or `UDP ASSOCIATE`
/// to an IP address targets exactly that address, one to a domain exactly that
/// domain, on the port asked for.
pub proof fn law_socks_target_is_the_requested_address(a: SocksAddr)
    ensures
        match a {
            SocksAddr::Socket(ip, port) => unpacked(a) == (seq![Addr::WithIpAddr(ip)], port),
            SocksAddr::Domain(d, port) => unpacked(a) == (seq![Addr::WithDomain(d)], port),
        },
        unpacked(a).0.len() == 1,
{
}

/// The reply that tells a socks client where its UDP relay listens. Only IPv4
/// relay addresses are answered.
pub fn udp_associate_reply(listen: IpAddr, port: u16) -> (r: Vec<u8>)
    requires
        listen is V4,
    ensures
        listen matches IpAddr::V4(ip) && r@ == spec_udp_reply(ip, port),
        listen matches IpAddr::V4(ip) && udp_reply_says(r@, ip, port),
{
    let mut buf: Vec<u8> = Vec::new();
    buf.push(0x05);
    buf.push(0x00);
    buf.push(0x00);
    match listen {
        IpAddr::V4(ip) => {
            buf.push(0x01);
            buf.push(ip[0]);
            buf.push(ip[1]);
            buf.push(ip[2]);
            buf.push(ip[3]);
            buf.push((port / 0x100) as u8);
            buf.push((port % 0x100) as u8);
            assert(buf@ =~= spec_udp_reply(ip, port));
            proof {
                law_udp_reply_names_the_relay(ip, port);
            }
        },
        IpAddr::V6(_) => {},
    }
    buf
}

/// Relays socks UDP traffic for a visitor.
pub struct UdpForwarder {}

/// The preprocessing that recognises socks visitors.
#[allow(dead_code)]
pub struct Socks5Preprocessor<P> {
    udp_forwarder: UdpForwarder,
    _marked: PhantomData<P>,
}

impl<P> Socks5Preprocessor<P> {
    /// A socks preprocessor with its UDP forwarder.
    pub fn new() -> Self {
        Socks5Preprocessor { udp_forwarder: UdpForwarder {}, _marked: PhantomData }
    }
}

} // verus!
