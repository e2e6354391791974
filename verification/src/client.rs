use vstd::prelude::*;

use crate::rpc::{Request, ServerAddr, Target};

verus! {

/// A port the server exposes for a forward service, with its (unused here) bind part.
pub enum Expose<B> {
    Kcp(B, u16),
    Tcp(B, u16),
}

/// How the client reaches the server for one exposed port.
pub enum Route {
    /// A plain TCP connection to this server port (a dedicated channel).
    Direct(u16),
    /// A TCP connection to this server port that introduces itself with the mux prefix.
    Mux(u16),
}

/// The connectors a forward service sets up.
pub struct ForwardPlan {
    /// Whether the mux configuration is sent to the server first.
    pub send_mux: bool,
    /// One route per usable exposed port, in order.
    pub routes: Vec<Route>,
}

/// The route of an exposed port: dedicated channels use plain TCP and skip KCP
/// ports; otherwise ports are reached through mux connections.
pub open spec fn spec_route<B>(e: Expose<B>, channel: bool) -> Option<Route> {
    match e {
        Expose::Kcp(_, _) => None,
        Expose::Tcp(_, port) => Some(if channel { Route::Direct(port) } else { Route::Mux(port) }),
    }
}

/// The routes of `exposes`, in order, skipping ports without one.
pub open spec fn spec_routes<B>(exposes: Seq<Expose<B>>, channel: bool) -> Seq<Route>
    decreases exposes.len(),
{
    if exposes.len() == 0 {
        Seq::empty()
    } else {
        let prev = spec_routes(exposes.drop_last(), channel);
        match spec_route(exposes.last(), channel) {
            Some(r) => prev.push(r),
            None => prev,
        }
    }
}

/// Plans the connectors of a forward service. With dedicated channels, each TCP
/// channel gets a plain route (KCP channels get none); without, the mux
/// configuration is sent and each exposed port gets a mux route. KCP exposed
/// ports are not supported without channels.
pub fn forward_plan<B>(channels: Option<Vec<Expose<B>>>, exposes: Vec<Expose<B>>) -> (p: ForwardPlan)
    requires
        channels is None ==> forall|i: int| 0 <= i < exposes@.len() ==> exposes@[i] is Tcp,
    ensures
        match channels {
            Some(cs) => !p.send_mux && p.routes@ == spec_routes(cs@, true),
            None => p.send_mux && p.routes@ == spec_routes(exposes@, false),
        },
{
    match channels {
        Some(cs) => ForwardPlan { send_mux: false, routes: routes_of(cs, true) },
        None => ForwardPlan { send_mux: true, routes: routes_of(exposes, false) },
    }
}

fn routes_of<B>(exposes: Vec<Expose<B>>, channel: bool) -> (r: Vec<Route>)
    ensures
        r@ == spec_routes(exposes@, channel),
{
    let ghost all = exposes@;
    let mut rest = exposes;
    let mut routes: Vec<Route> = Vec::new();
    let ghost mut i: int = 0;
    while rest.len() > 0
        invariant
            0 <= i <= all.len(),
            rest@ == all.skip(i),
            routes@ == spec_routes(all.take(i), channel),
        decreases rest@.len(),
    {
        let e = rest.remove(0);
        proof {
            assert(all.take(i + 1).drop_last() =~= all.take(i));
            assert(all.take(i + 1).last() == e);
        }
        match e {
            Expose::Kcp(_, _) => {},
            Expose::Tcp(_, port) => {
                routes.push(if channel { Route::Direct(port) } else { Route::Mux(port) });
            },
        }
        proof {
            i = i + 1;
            assert(rest@ =~= all.skip(i));
        }
    }
    proof {
        assert(all.take(i) =~= all);
    }
    routes
}

/// What the client connects a mapping to.
pub enum FinalTarget {
    Udp { addr: ServerAddr, port: u16 },
    Shell { path: String, args: Vec<String> },
    Dynamic,
    Tcp { addr: ServerAddr, port: u16 },
}

/// What the client makes of a mapping request: its token and the target to serve;
/// every request is served dynamically, whatever target it names.
pub fn accept_request(request: Request) -> (r: (u64, FinalTarget))
    ensures
        match request {
            Request::New(token, _) => r.0 == token && r.1 is Dynamic,
        },
{
    match request {
        Request::New(token, target) => (token, match target {
            None => FinalTarget::Dynamic,
            Some(_) => FinalTarget::Dynamic,
        }),
    }
}

/// What the client does for a mapping it accepted.
pub enum TargetAction {
    /// Nothing; the mapping is dropped.
    Drop,
    /// Link a TCP transport and relay UDP datagrams through it.
    RelayUdp,
    /// Connect to this address and port; once connected, link a TCP transport and
    /// transfer between the two, and when the connection fails, cancel the
    /// mapping with its error.
    ConnectTcp(ServerAddr, u16),
}

/// The action for the target of an accepted mapping: UDP targets are dropped,
/// dynamic targets relay UDP datagrams, TCP targets are connected. Shell targets
/// are not served (the client gives up on them).
pub fn target_action(target: FinalTarget) -> (a: TargetAction)
    requires
        !(target is Shell),
    ensures
        match target {
            FinalTarget::Udp { .. } => a is Drop,
            FinalTarget::Dynamic => a is RelayUdp,
            FinalTarget::Tcp { addr, port } => a == TargetAction::ConnectTcp(addr, port),
            FinalTarget::Shell { .. } => false,
        },
{
    match target {
        FinalTarget::Udp { .. } => TargetAction::Drop,
        FinalTarget::Dynamic => TargetAction::RelayUdp,
        FinalTarget::Tcp { addr, port } => TargetAction::ConnectTcp(addr, port),
        FinalTarget::Shell { .. } => TargetAction::Drop,
    }
}

} // verus!
