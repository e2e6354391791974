use std::sync::Arc;

use vstd::prelude::*;

verus! {

/// The kind of listener a server connection came from.
#[derive(Debug, Clone)]
pub enum Tagged {
    Kcp,
    Tcp,
}

/// A listener of the server configuration, with its address.
pub enum Listen<A> {
    Kcp(A),
    Tcp(A),
    Proxy(A),
    Tunnel(A),
}

/// The tag of the connections a listener accepts: KCP listeners are tagged
/// `Kcp`, all others (TCP, proxy, tunnel) `Tcp`.
pub fn listen_tag<A>(listen: &Listen<A>) -> (t: Tagged)
    ensures
        match listen {
            Listen::Kcp(_) => t is Kcp,
            _ => t is Tcp,
        },
{
    match listen {
        Listen::Kcp(_) => Tagged::Kcp,
        Listen::Tcp(_) => Tagged::Tcp,
        Listen::Proxy(_) => Tagged::Tcp,
        Listen::Tunnel(_) => Tagged::Tcp,
    }
}

/// Builds something from an argument.
pub trait Factory<C> {
    type Output;

    fn call(&self, arg: C) -> Self::Output;
}

/// Turns itself into something else.
pub trait Transfer {
    type Output;

    fn transfer(self) -> Self::Output;
}

/// The factory a client connects through.
pub struct ClientFactory<C> {
    pub connect_factory: Arc<C>,
}

/// The factories a server binds and connects through.
pub struct ServerFactory<S, C> {
    pub accepter_factory: Arc<S>,
    pub connector_factory: Arc<C>,
}

impl<A, C: Factory<A>> Factory<A> for ClientFactory<C> {
    type Output = C::Output;

    /// Calls the connect factory.
    fn call(&self, arg: A) -> Self::Output {
        self.connect_factory.call(arg)
    }
}

impl<C> Clone for ClientFactory<C> {
    /// Shares the same connect factory.
    fn clone(&self) -> (r: Self)
        ensures
            r.connect_factory == self.connect_factory,
    {
        ClientFactory { connect_factory: Arc::clone(&self.connect_factory) }
    }
}

impl<S, C> Clone for ServerFactory<S, C> {
    /// Shares the same factories.
    fn clone(&self) -> (r: Self)
        ensures
            r.accepter_factory == self.accepter_factory,
            r.connector_factory == self.connector_factory,
    {
        ServerFactory {
            accepter_factory: Arc::clone(&self.accepter_factory),
            connector_factory: Arc::clone(&self.connector_factory),
        }
    }
}

} // verus!
