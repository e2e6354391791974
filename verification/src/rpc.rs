use vstd::prelude::*;

use crate::error::FusoError;
use crate::poll::Poll;

verus! {

/// An IP address, by its octets.
#[derive(Debug)]
pub enum IpAddr {
    V4([u8; 4]),
    V6([u8; 16]),
}

/// One host of a server address.
#[derive(Debug)]
pub enum Addr {
    WithIpAddr(IpAddr),
    WithDomain(String),
}

/// The hosts under which a server can be reached, tried in order.
#[derive(Debug)]
pub struct ServerAddr(pub Vec<Addr>);

/// Where the client should connect for a visitor.
#[derive(Debug)]
pub enum Target {
    Udp(ServerAddr, u16),
    Tcp(ServerAddr, u16),
}

/// A request from the server to the client.
#[derive(Debug)]
pub enum Request {
    /// Open a mapping for the visitor stored under this token, towards this target if given.
    New(u64, Option<Target>),
}

/// The client's answer to a request.
#[derive(Debug)]
pub enum Response {
    Accepted,
    Error(String),
}

/// A socks request, by transport.
pub enum WithSocks {
    Tcp(ServerAddr),
    Udp(ServerAddr),
}

/// A preprocessed visitor: one that spoke socks, with the target it asked for,
/// or any other, with an optional target.
pub enum VisitorProtocol<C> {
    Socks(C, Target),
    Other(C, Option<Target>),
}

/// A command on the control connection.
#[derive(Debug)]
pub enum Cmd {
    Ping,
    Pong,
    Cancel(u64),
    Transact { token: u64, packet: Vec<u8> },
}

/// What the callee side receives.
#[derive(Debug)]
pub enum Transact {
    Cancel(u64),
    Request(u64, Vec<u8>),
}

/// What the receive loop does with a decoded command.
pub enum LoopAction {
    /// Record the peer's answer to a ping.
    Pong,
    /// Answer the peer's ping.
    Ping,
    /// Reset the heartbeat and deliver this packet under its token.
    Deliver(u64, Vec<u8>),
    /// Nothing to do.
    Ignore,
}

/// What the receive loop does with each decoded command: heartbeat commands go
/// to the heartbeat, a transaction is delivered, a cancel is ignored.
pub fn dispatch_cmd(cmd: Cmd) -> (a: LoopAction)
    ensures
        match cmd {
            Cmd::Ping => a == LoopAction::Ping,
            Cmd::Pong => a == LoopAction::Pong,
            Cmd::Cancel(_) => a == LoopAction::Ignore,
            Cmd::Transact { token, packet } => a == LoopAction::Deliver(token, packet),
        },
{
    match cmd {
        Cmd::Pong => LoopAction::Pong,
        Cmd::Ping => LoopAction::Ping,
        Cmd::Transact { token, packet } => LoopAction::Deliver(token, packet),
        Cmd::Cancel(_) => LoopAction::Ignore,
    }
}

/// What the callee hands out for a received transaction: requests are handed
/// out with their token, cancels are skipped.
pub fn accept_transact(t: Transact) -> (r: Option<(u64, Vec<u8>)>)
    ensures
        match t {
            Transact::Cancel(_) => r is None,
            Transact::Request(token, packet) => r == Some((token, packet)),
        },
{
    match t {
        Transact::Cancel(_) => None,
        Transact::Request(token, packet) => Some((token, packet)),
    }
}

/// What the responder guard does with one polled guard.
pub enum GuardVerdict {
    /// The answer is still being prepared.
    Keep,
    /// The answer was sent.
    Done,
    /// The answer was abandoned: tell the caller to cancel this token.
    Cancel(u64),
}

/// The verdict on the guard of the request `token` from its poll: pending is
/// kept, answered is done, and abandoned is cancelled.
pub open spec fn verdict_of(token: u64, polled: Poll<Result<(), FusoError>>) -> GuardVerdict {
    match polled {
        Poll::Pending => GuardVerdict::Keep,
        Poll::Ready(Ok(())) => GuardVerdict::Done,
        Poll::Ready(Err(_)) => GuardVerdict::Cancel(token),
    }
}

/// Verdict on the guard of the request `token`, from its poll.
pub fn guard_verdict(token: u64, polled: Poll<Result<(), FusoError>>) -> (v: GuardVerdict)
    ensures
        v == verdict_of(token, polled),
        match polled {
            Poll::Pending => v == GuardVerdict::Keep,
            Poll::Ready(Ok(())) => v == GuardVerdict::Done,
            Poll::Ready(Err(_)) => v == GuardVerdict::Cancel(token),
        },
{
    match polled {
        Poll::Pending => GuardVerdict::Keep,
        Poll::Ready(Ok(())) => GuardVerdict::Done,
        Poll::Ready(Err(_)) => GuardVerdict::Cancel(token),
    }
}

/// Something that answers calls with argument `T`.
pub trait AsyncCall<T> {
    type Output;

    fn poll_call(&mut self, cx: &mut std::task::Context<'_>, arg: &T) -> Poll<Self::Output>;
}

/// Something that yields incoming calls.
pub trait AsyncCallee {
    type Output;

    fn poll_next(&mut self, cx: &mut std::task::Context<'_>) -> Poll<Self::Output>;
}

/// Turns a value into bytes.
pub trait Encoder<T> {
    fn encode(self) -> Result<Vec<u8>, FusoError>;
}

/// Turns bytes into a value.
pub trait Decoder<T> {
    type Output;

    fn decode(self) -> Result<Self::Output, FusoError>;
}

} // verus!
