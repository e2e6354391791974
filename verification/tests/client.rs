use fuso::client::{accept_request, forward_plan, target_action, Expose, FinalTarget, Route, TargetAction};
use fuso::rpc::{Request, ServerAddr, Target};

#[test]
fn channels_use_plain_tcp_and_skip_kcp() {
    let channels = vec![Expose::Tcp((), 7001), Expose::Kcp((), 7002), Expose::Tcp((), 7003)];
    let p = forward_plan(Some(channels), vec![Expose::Tcp((), 9)]);
    assert!(!p.send_mux);
    assert!(matches!(p.routes.as_slice(), [Route::Direct(7001), Route::Direct(7003)]));
}

#[test]
fn exposes_use_mux_without_channels() {
    let p = forward_plan::<()>(None, vec![Expose::Tcp((), 8001), Expose::Tcp((), 8002)]);
    assert!(p.send_mux);
    assert!(matches!(p.routes.as_slice(), [Route::Mux(8001), Route::Mux(8002)]));
}

#[test]
fn requests_are_served_dynamically() {
    let (t, target) = accept_request(Request::New(3, None));
    assert_eq!(t, 3);
    assert!(matches!(target, FinalTarget::Dynamic));
    let (t, target) = accept_request(Request::New(4, Some(Target::Udp(ServerAddr(vec![]), 53))));
    assert_eq!(t, 4);
    assert!(matches!(target, FinalTarget::Dynamic));
}

#[test]
fn target_actions() {
    assert!(matches!(target_action(FinalTarget::Dynamic), TargetAction::RelayUdp));
    assert!(matches!(target_action(FinalTarget::Udp { addr: ServerAddr(vec![]), port: 53 }), TargetAction::Drop));
    assert!(matches!(
        target_action(FinalTarget::Tcp { addr: ServerAddr(vec![]), port: 8080 }),
        TargetAction::ConnectTcp(ServerAddr(a), 8080) if a.is_empty()
    ));
}
