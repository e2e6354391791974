use fuso::preprocessor::{socks_plan, udp_associate_reply, unpack_socks_addr, Socks, Socks5Preprocessor, SocksAddr, SocksPlan};
use fuso::rpc::{Addr, IpAddr, Target};

#[test]
fn udp_reply_bytes() {
    assert_eq!(
        udp_associate_reply(IpAddr::V4([127, 0, 0, 1]), 0x1f90),
        vec![0x05, 0x00, 0x00, 0x01, 127, 0, 0, 1, 0x1f, 0x90]
    );
    assert_eq!(udp_associate_reply(IpAddr::V4([0, 0, 0, 0]), 53), vec![5, 0, 0, 1, 0, 0, 0, 0, 0, 53]);
}

#[test]
fn unpack_gives_one_host() {
    let (addr, port) = unpack_socks_addr(SocksAddr::Domain("example.org".to_string(), 443));
    assert_eq!(port, 443);
    assert!(matches!(addr.0.as_slice(), [Addr::WithDomain(d)] if d == "example.org"));
    let (addr, port) = unpack_socks_addr(SocksAddr::Socket(IpAddr::V4([1, 2, 3, 4]), 80));
    assert_eq!(port, 80);
    assert!(matches!(addr.0.as_slice(), [Addr::WithIpAddr(IpAddr::V4([1, 2, 3, 4]))]));
}

#[test]
fn socks_plans() {
    assert!(matches!(socks_plan(Socks::Invalid), SocksPlan::Plain));
    assert!(matches!(
        socks_plan(Socks::Tcp(SocksAddr::Domain("a".to_string(), 1))),
        SocksPlan::Forward(Target::Tcp(_, 1))
    ));
    assert!(matches!(
        socks_plan(Socks::Udp(SocksAddr::Socket(IpAddr::V6([0; 16]), 2))),
        SocksPlan::Relay(Target::Udp(_, 2))
    ));
}

#[test]
fn socks_preprocessor_builds() {
    let p: Socks5Preprocessor<()> = Socks5Preprocessor::new();
    let _ = p;
}
