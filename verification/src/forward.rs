use std::collections::HashMap;

use vstd::prelude::*;

use crate::error::FusoError;
use crate::poll::Poll;
use crate::rpc::{Response, Target, VisitorProtocol};
use crate::token::{first_free, first_free_from, law_first_free_is_unique, token_succ, IncToken};

verus! {

broadcast use vstd::std_specs::hash::group_hash_axioms;

/// Where an accepted connection comes from: a visitor of an exposed port, or the
/// client's mapping connection that will carry a visitor's traffic.
pub enum Whence<C> {
    Visitor(C),
    Mapping(C),
}

/// Result of one piece of forwarding work.
pub enum Outcome<C> {
    /// A visitor went through its preprocessing and asks for this target, if any.
    Prepared(C, Option<Target>),
    /// A mapping connection that announced `token` arrived.
    Ready(u64, C),
    /// The client accepted the visitor stored under `token`; its mapping is awaited.
    Pending(u64),
    /// The wait for the mapping of `token` ran out.
    Timeout(u64),
    /// Asking the client for a mapping of `token` failed.
    Transport(u64, FusoError),
    /// The control connection ended, with its error if it had one.
    Stopped(Option<FusoError>),
}

/// A piece of forwarding work to run.
pub enum Job<C> {
    /// Run the visitor preprocessing on this connection; reports `Prepared`.
    PrepareVisitor(C),
    /// Run the mapping preprocessing on this connection and read its token; reports `Ready`.
    PrepareMapping(C),
    /// Ask the client (within 10 s) to open a mapping for this token and target;
    /// reports what `visitor_outcome` makes of the answer.
    RequestMapping(u64, Option<Target>),
    /// Wait 10 s, then report `Timeout` for this token.
    WaitTransport(u64),
}

/// What the forwarder does next.
pub enum Action<C> {
    /// Start this piece of work.
    Run(Job<C>),
    /// Hand out this visitor together with the mapping connection that serves it.
    Accept(C, C),
    /// Stop accepting, with this error.
    Fail(FusoError),
    /// Nothing to hand out; keep polling.
    Continue,
}

/// Visitors waiting for their mapping connection, by token.
pub struct Visitors<C> {
    inc_token: IncToken,
    connections: HashMap<u64, C>,
}

impl<C> Visitors<C> {
    /// The waiting visitors by token.
    pub closed spec fn waiting(&self) -> Map<u64, C> {
        self.connections@
    }

    /// Where the next token search starts.
    pub closed spec fn next_start(&self) -> u64 {
        self.inc_token.start()
    }

    /// Removes and returns the visitor waiting under `token`.
    pub fn take(&mut self, token: u64) -> (r: Option<C>)
        ensures
            final(self).waiting() == old(self).waiting().remove(token),
            final(self).next_start() == old(self).next_start(),
            r is Some <==> old(self).waiting().contains_key(token),
            r matches Some(c) ==> c == old(self).waiting()[token],
    {
        self.connections.remove(&token)
    }

    /// Stores a visitor under a fresh token and returns the token.
    pub fn store(&mut self, conn: C) -> (token: u64)
        ensures
            first_free_from(old(self).waiting().dom(), old(self).next_start(), token),
            final(self).waiting() == old(self).waiting().insert(token, conn),
            final(self).next_start() == token_succ(token),
    {
        let token = self.next_token();
        self.connections.insert(token, conn);
        token
    }

    /// The first token, counting on from the last one handed out, that no waiting visitor holds.
    pub fn next_token(&mut self) -> (token: u64)
        ensures
            first_free_from(old(self).waiting().dom(), old(self).next_start(), token),
            final(self).waiting() == old(self).waiting(),
            final(self).next_start() == token_succ(token),
    {
        self.inc_token.next_free(&self.connections)
    }

    /// What the forwarder does with the outcome of a piece of work:
    /// a preprocessed visitor is stored under a fresh token and the client is asked
    /// for its mapping; a pending mapping is waited for; a timeout or a failed
    /// request drops the visitor; an arriving mapping is paired with the visitor
    /// under its token (and dropped when there is none); a stopped control
    /// connection ends accepting, with `Abort` when it ended without an error.
    pub fn on_outcome(&mut self, outcome: Outcome<C>) -> (a: Action<C>)
        ensures
            match outcome {
                Outcome::Prepared(c, target) => exists|t: u64|
                    first_free_from(old(self).waiting().dom(), old(self).next_start(), t)
                    && final(self).waiting() == old(self).waiting().insert(t, c)
                    && final(self).next_start() == token_succ(t)
                    && a == Action::<C>::Run(Job::RequestMapping(t, target)),
                Outcome::Pending(t) => a == Action::<C>::Run(Job::WaitTransport(t))
                    && final(self).waiting() == old(self).waiting(),
                Outcome::Timeout(t) => a == Action::<C>::Continue
                    && final(self).waiting() == old(self).waiting().remove(t),
                Outcome::Transport(t, _) => a == Action::<C>::Continue
                    && final(self).waiting() == old(self).waiting().remove(t),
                Outcome::Ready(t, m) => final(self).waiting() == old(self).waiting().remove(t)
                    && if old(self).waiting().contains_key(t) {
                        a == Action::Accept(old(self).waiting()[t], m)
                    } else {
                        a == Action::<C>::Continue
                    },
                Outcome::Stopped(e) => final(self).waiting() == old(self).waiting()
                    && a == Action::<C>::Fail(match e { Some(e) => e, None => FusoError::Abort }),
            },
            !(outcome is Prepared) ==> final(self).next_start() == old(self).next_start(),
    {
        match outcome {
            Outcome::Prepared(conn, target) => {
                let token = self.store(conn);
                Action::Run(Job::RequestMapping(token, target))
            },
            Outcome::Pending(token) => Action::Run(Job::WaitTransport(token)),
            Outcome::Timeout(token) => {
                let _ = self.take(token);
                Action::Continue
            },
            Outcome::Ready(token, transport) => match self.take(token) {
                Some(visitor) => Action::Accept(visitor, transport),
                None => Action::Continue,
            },
            Outcome::Stopped(error) => match error {
                Some(e) => Action::Fail(e),
                None => Action::Fail(FusoError::Abort),
            },
            Outcome::Transport(token, _) => {
                let _ = self.take(token);
                Action::Continue
            },
        }
    }
}

impl<C> Default for Visitors<C> {
    /// No visitor waits; tokens start at 0.
    fn default() -> (r: Self)
        ensures
            r.waiting() == Map::<u64, C>::empty(),
            r.next_start() == 0,
    {
        Visitors { inc_token: IncToken::default(), connections: HashMap::new() }
    }
}

/// The preprocessing an accepted connection goes through.
pub open spec fn whence_job<C>(whence: Whence<C>) -> Job<C> {
    match whence {
        Whence::Visitor(c) => Job::PrepareVisitor(c),
        Whence::Mapping(c) => Job::PrepareMapping(c),
    }
}

/// Routes an accepted connection to its preprocessing.
pub fn dispatch_whence<C>(whence: Whence<C>) -> (j: Job<C>)
    ensures
        j == whence_job(whence),
{
    match whence {
        Whence::Visitor(conn) => Job::PrepareVisitor(conn),
        Whence::Mapping(conn) => Job::PrepareMapping(conn),
    }
}

/// The connection of a preprocessed visitor and the target it asks for.
pub fn split_visitor<C>(protocol: VisitorProtocol<C>) -> (r: (C, Option<Target>))
    ensures
        match protocol {
            VisitorProtocol::Socks(c, t) => r == (c, Some(t)),
            VisitorProtocol::Other(c, t) => r == (c, t),
        },
{
    match protocol {
        VisitorProtocol::Socks(conn, socks) => (conn, Some(socks)),
        VisitorProtocol::Other(conn, addr) => match addr {
            None => (conn, None),
            Some(target) => (conn, Some(target)),
        },
    }
}

/// The outcome of asking the client to map the visitor stored under `token`:
/// `reply` is `None` when no answer came within the time limit.
/// An `Accepted` answer leaves the mapping pending; an error answer, a failed call or
/// no answer make the request fail (`Custom(msg)`, the call's error, `NotResponse`).
pub fn visitor_outcome<C>(token: u64, reply: Option<Result<Response, FusoError>>) -> (o: Outcome<C>)
    ensures
        match reply {
            None => o == Outcome::<C>::Transport(token, FusoError::NotResponse),
            Some(Ok(Response::Accepted)) => o == Outcome::<C>::Pending(token),
            Some(Ok(Response::Error(msg))) => o == Outcome::<C>::Transport(token, FusoError::Custom(msg)),
            Some(Err(e)) => o == Outcome::<C>::Transport(token, e),
        },
{
    match reply {
        None => Outcome::Transport(token, FusoError::NotResponse),
        Some(r) => match r {
            Ok(resp) => match resp {
                Response::Accepted => Outcome::Pending(token),
                Response::Error(msg) => Outcome::Transport(token, FusoError::from(msg)),
            },
            Err(e) => Outcome::Transport(token, e),
        },
    }
}

/// The big-endian number that eight bytes spell.
pub open spec fn be_u64(b: Seq<u8>) -> int {
    b[0] * 0x100_0000_0000_0000 + b[1] * 0x1_0000_0000_0000 + b[2] * 0x100_0000_0000
        + b[3] * 0x1_0000_0000 + b[4] * 0x100_0000 + b[5] * 0x1_0000 + b[6] * 0x100 + b[7]
}

/// The token a mapping connection announces in its first eight bytes (big-endian).
pub fn mapping_token(buf: [u8; 8]) -> (token: u64)
    ensures
        token == be_u64(buf@),
{
    let mut token: u64 = 0;
    let mut i: usize = 0;
    while i < 8
        invariant
            0 <= i <= 8,
            token == be_prefix(buf@, i as nat),
            token < pow256(i as nat),
        decreases 8 - i,
    {
        proof {
            lemma_pow256_le((i + 1) as nat, 8);
            assert(pow256(8) == 0x1_0000_0000_0000_0000) by {
                reveal_with_fuel(pow256, 9);
            }
            assert(token * 256 + buf[i as int] < pow256((i + 1) as nat)) by (nonlinear_arith)
                requires token < pow256(i as nat), buf[i as int] < 256, pow256((i + 1) as nat) == pow256(i as nat) * 256;
        }
        token = token * 256 + buf[i] as u64;
        i = i + 1;
    }
    proof {
        reveal_with_fuel(be_prefix, 9);
    }
    token
}

spec fn be_prefix(b: Seq<u8>, n: nat) -> int
    decreases n,
{
    if n == 0 { 0 } else { be_prefix(b, (n - 1) as nat) * 256 + b[n - 1] }
}

proof fn lemma_pow256_le(a: nat, b: nat)
    requires
        a <= b,
    ensures
        1 <= pow256(a) <= pow256(b),
    decreases b,
{
    if a < b {
        lemma_pow256_le(a, (b - 1) as nat);
    } else if b > 0 {
        lemma_pow256_le((a - 1) as nat, (b - 1) as nat);
    }
}

spec fn pow256(n: nat) -> int
    decreases n,
{
    if n == 0 { 1 } else { pow256((n - 1) as nat) * 256 }
}

/// Something that accepts incoming connections (`O`).
pub trait Accepter<O> {
    fn poll_accept(&mut self, cx: &mut std::task::Context<'_>) -> Poll<Result<O, FusoError>>;
}

/// The forwarding work in progress.
pub trait Jobs<C> {
    /// Starts a piece of work.
    fn add(&mut self, job: Job<C>);

    /// The outcome of some finished piece of work, if any; an error is a piece of
    /// work that failed on its own (it is skipped).
    fn poll_next(&mut self, cx: &mut std::task::Context<'_>) -> Poll<Result<Outcome<C>, FusoError>>;
}

/// Whether the accepting loop goes round again.
pub enum Round<C> {
    /// Poll again.
    Again,
    /// Report this.
    Stop(Poll<Result<(C, C), FusoError>>),
}

/// How a round ends, from what the accepter and the work gave.
pub open spec fn round_after<C>(
    waiting: Map<u64, C>,
    accepted: Poll<Result<Whence<C>, FusoError>>,
    next: Poll<Result<Outcome<C>, FusoError>>,
) -> Round<C> {
    match accepted {
        Poll::Ready(Err(e)) => Round::Stop(Poll::Ready(Err(e))),
        _ => match next {
            Poll::Ready(Ok(o)) => match o {
                Outcome::Ready(t, m) => if waiting.contains_key(t) {
                    Round::Stop(Poll::Ready(Ok((waiting[t], m))))
                } else {
                    Round::Again
                },
                Outcome::Stopped(e) => Round::Stop(Poll::Ready(Err(match e { Some(e) => e, None => FusoError::Abort }))),
                _ => Round::Again,
            },
            _ => if accepted is Pending { Round::Stop(Poll::Pending) } else { Round::Again },
        },
    }
}

/// How the waiting visitors change in a round, from what the accepter and the work gave.
pub open spec fn waiting_after<C>(
    before: Map<u64, C>,
    start: u64,
    after: Map<u64, C>,
    accepted: Poll<Result<Whence<C>, FusoError>>,
    next: Poll<Result<Outcome<C>, FusoError>>,
) -> bool {
    match accepted {
        Poll::Ready(Err(_)) => after == before,
        _ => match next {
            Poll::Ready(Ok(o)) => match o {
                Outcome::Prepared(c, _) => exists|t: u64|
                    first_free_from(before.dom(), start, t) && after == before.insert(t, c),
                Outcome::Pending(_) => after == before,
                Outcome::Stopped(_) => after == before,
                Outcome::Timeout(t) => after == before.remove(t),
                Outcome::Transport(t, _) => after == before.remove(t),
                Outcome::Ready(t, _) => after == before.remove(t),
            },
            _ => after == before,
        },
    }
}

/// The work a round starts, in order, from what the accepter and the work gave:
/// the preprocessing of an accepted connection, then, for a preprocessed visitor,
/// the request for its mapping under the first free token, or, for a mapping the
/// client accepted, the wait for it. Nothing more starts: not after an error of
/// the accepter, nor after work that failed on its own.
pub open spec fn jobs_after<C>(
    waiting: Map<u64, C>,
    start: u64,
    accepted: Poll<Result<Whence<C>, FusoError>>,
    next: Poll<Result<Outcome<C>, FusoError>>,
) -> Seq<Job<C>> {
    match accepted {
        Poll::Ready(Err(_)) => Seq::empty(),
        _ => {
            let first = match accepted {
                Poll::Ready(Ok(w)) => seq![whence_job(w)],
                _ => Seq::empty(),
            };
            let second = match next {
                Poll::Ready(Ok(Outcome::Prepared(_, target))) => seq![Job::RequestMapping(first_free(waiting.dom(), start), target)],
                Poll::Ready(Ok(Outcome::Pending(t))) => seq![Job::WaitTransport(t)],
                _ => Seq::empty(),
            };
            first + second
        },
    }
}

/// The server side of port forwarding: pairs each visitor of an exposed port
/// with the mapping connection the client opens for it.
#[verifier::reject_recursive_types(C)]
pub struct PortForwarder<A, J, C> {
    accepter: A,
    jobs: J,
    visitors: Visitors<C>,
    started: Ghost<Seq<Job<C>>>,
    accepts: Ghost<Seq<Poll<Result<Whence<C>, FusoError>>>>,
    nexts: Ghost<Seq<Poll<Result<Outcome<C>, FusoError>>>>,
}

/// Polls the accepter once and records its answer.
fn accept_recorded<C, A: Accepter<Whence<C>>>(
    accepter: &mut A,
    cx: &mut std::task::Context<'_>,
    log: &mut Ghost<Seq<Poll<Result<Whence<C>, FusoError>>>>,
) -> (r: Poll<Result<Whence<C>, FusoError>>)
    ensures
        final(log)@ == old(log)@.push(r),
{
    let r = accepter.poll_accept(cx);
    proof {
        log@ = log@.push(r);
    }
    r
}

/// Polls the work once for a finished piece and records its answer.
fn next_recorded<C, J: Jobs<C>>(
    jobs: &mut J,
    cx: &mut std::task::Context<'_>,
    log: &mut Ghost<Seq<Poll<Result<Outcome<C>, FusoError>>>>,
) -> (r: Poll<Result<Outcome<C>, FusoError>>)
    ensures
        final(log)@ == old(log)@.push(r),
{
    let r = jobs.poll_next(cx);
    proof {
        log@ = log@.push(r);
    }
    r
}

/// Starts `job` and records it.
fn add_recorded<C, J: Jobs<C>>(jobs: &mut J, job: Job<C>, log: &mut Ghost<Seq<Job<C>>>)
    ensures
        final(log)@ == old(log)@.push(job),
{
    proof {
        log@ = log@.push(job);
    }
    jobs.add(job);
}

impl<A, J, C> PortForwarder<A, J, C> {
    /// The visitors waiting for their mapping.
    pub closed spec fn waiting(&self) -> Map<u64, C> {
        self.visitors.waiting()
    }

    /// Where the next token search starts.
    pub closed spec fn next_start(&self) -> u64 {
        self.visitors.next_start()
    }

    /// Every piece of work started so far, in order.
    pub closed spec fn started(&self) -> Seq<Job<C>> {
        self.started@
    }

    /// Every answer of the accepter so far, in order.
    pub closed spec fn accepts(&self) -> Seq<Poll<Result<Whence<C>, FusoError>>> {
        self.accepts@
    }

    /// Every answer of the work so far, in order (it is not polled in a round
    /// that the accepter ends with an error).
    pub closed spec fn nexts(&self) -> Seq<Poll<Result<Outcome<C>, FusoError>>> {
        self.nexts@
    }

    /// A forwarder accepting from `accepter`, with no visitor waiting and no work started.
    pub fn new(accepter: A, jobs: J) -> (r: Self)
        ensures
            r.waiting() == Map::<u64, C>::empty(),
            r.next_start() == 0,
            r.started() == Seq::<Job<C>>::empty(),
            r.accepts().len() == 0,
            r.nexts().len() == 0,
    {
        PortForwarder {
            accepter,
            jobs,
            visitors: Visitors::default(),
            started: Ghost(Seq::empty()),
            accepts: Ghost(Seq::empty()),
            nexts: Ghost(Seq::empty()),
        }
    }
}

impl<A: Accepter<Whence<C>>, J: Jobs<C>, C> PortForwarder<A, J, C> {
    /// One round of accepting: an accepted connection starts its preprocessing;
    /// then one finished piece of work is dealt with (see `Visitors::on_outcome`).
    /// An error of the accepter ends accepting. The round stops with `Pending`
    /// when nothing was accepted and no work finished, and goes round again
    /// otherwise, unless a visitor is paired with its mapping or accepting ends.
    /// A visitor handed out is one that waited, and it waits no more. The work
    /// started is the one `jobs_after` names. The answers of the accepter and of
    /// the work are the ones recorded for the round (see `accepts`, `nexts`).
    pub fn poll_round(&mut self, cx: &mut std::task::Context<'_>) -> (r: Round<C>)
        ensures
            final(self).accepts().len() == old(self).accepts().len() + 1,
            final(self).accepts().drop_last() == old(self).accepts(),
            (final(self).accepts().last() matches Poll::Ready(Err(_))) ==> final(self).nexts() == old(self).nexts(),
            !(final(self).accepts().last() matches Poll::Ready(Err(_))) ==>
                final(self).nexts().len() == old(self).nexts().len() + 1 && final(self).nexts().drop_last() == old(self).nexts(),
            ({
                let accepted = final(self).accepts().last();
                let next = if final(self).nexts().len() > old(self).nexts().len() {
                    final(self).nexts().last()
                } else {
                    Poll::Pending
                };
                &&& r == round_after(old(self).waiting(), accepted, next)
                &&& (next matches Poll::Ready(Err(_))) ==> r == (if accepted is Pending { Round::<C>::Stop(Poll::Pending) } else { Round::<C>::Again })
                &&& (r matches Round::Stop(Poll::Ready(Err(_)))) ==> (accepted matches Poll::Ready(Err(_))) || (next matches Poll::Ready(Ok(Outcome::Stopped(_))))
                &&& waiting_after(old(self).waiting(), old(self).next_start(), final(self).waiting(), accepted, next)
                &&& final(self).started() == old(self).started() + jobs_after(old(self).waiting(), old(self).next_start(), accepted, next)
            }),
            final(self).waiting() == old(self).waiting()
                || (exists|t: u64| final(self).waiting() == old(self).waiting().remove(t))
                || (exists|t: u64, c: C| #![trigger old(self).waiting().insert(t, c)] !old(self).waiting().contains_key(t)
                    && final(self).waiting() == old(self).waiting().insert(t, c)),
            r matches Round::Stop(Poll::Pending) ==> final(self).waiting() == old(self).waiting(),
            r matches Round::Stop(Poll::Ready(Ok((v, m)))) ==> exists|t: u64|
                old(self).waiting().contains_key(t) && v == old(self).waiting()[t]
                && final(self).waiting() == old(self).waiting().remove(t),
    {
        let accepted = accept_recorded(&mut self.accepter, cx, &mut self.accepts);
        let ghost ga = accepted;
        let ghost gn: Poll<Result<Outcome<C>, FusoError>> = Poll::Pending;
        assert(self.accepts@.drop_last() =~= old(self).accepts@);
        let accepted_none = match accepted {
            Poll::Ready(Err(e)) => {
                assert(round_after(old(self).waiting(), ga, gn) == Round::<C>::Stop(Poll::Ready(Err(e))));
                assert(self.started@ =~= old(self).started@ + jobs_after(old(self).waiting(), old(self).next_start(), ga, gn));
                return Round::Stop(Poll::Ready(Err(e)));
            },
            Poll::Pending => true,
            Poll::Ready(Ok(whence)) => {
                let job = dispatch_whence(whence);
                add_recorded(&mut self.jobs, job, &mut self.started);
                false
            },
        };
        let ghost first: Seq<Job<C>> = match ga {
            Poll::Ready(Ok(w)) => seq![whence_job(w)],
            _ => Seq::empty(),
        };
        assert(self.started@ =~= old(self).started@ + first);
        let next = next_recorded(&mut self.jobs, cx, &mut self.nexts);
        let ghost gn = next;
        assert(self.nexts@.drop_last() =~= old(self).nexts@);
        let outcome = match next {
            Poll::Ready(Ok(o)) => o,
            _ => {
                assert(jobs_after(old(self).waiting(), old(self).next_start(), ga, gn) =~= first);
                assert(waiting_after(old(self).waiting(), old(self).next_start(), self.waiting(), ga, gn));
                let r = if accepted_none { Round::Stop(Poll::Pending) } else { Round::Again };
                assert(r == round_after(old(self).waiting(), ga, gn));
                return r;
            },
        };
        let ghost o = outcome;
        let action = self.visitors.on_outcome(outcome);
        let ghost jobs = jobs_after(old(self).waiting(), old(self).next_start(), ga, gn);
        match action {
            Action::Run(job) => {
                proof {
                    if let Outcome::Prepared(c, target) = o {
                        let t = choose|t: u64|
                            first_free_from(old(self).waiting().dom(), old(self).next_start(), t)
                            && self.visitors.waiting() == old(self).waiting().insert(t, c)
                            && self.visitors.next_start() == token_succ(t)
                            && action == Action::<C>::Run(Job::RequestMapping(t, target));
                        law_first_free_is_unique(old(self).waiting().dom(), old(self).next_start(), t,
                            first_free(old(self).waiting().dom(), old(self).next_start()));
                    }
                    assert(jobs =~= first.push(job));
                }
                add_recorded(&mut self.jobs, job, &mut self.started);
                assert(self.started@ =~= old(self).started@ + jobs);
                Round::Again
            },
            Action::Continue => {
                assert(jobs =~= first);
                Round::Again
            },
            Action::Accept(visitor, mapping) => {
                proof {
                    if let Outcome::Ready(t, _) = o {
                        assert(old(self).waiting().contains_key(t));
                    }
                    assert(jobs =~= first);
                }
                Round::Stop(Poll::Ready(Ok((visitor, mapping))))
            },
            Action::Fail(e) => {
                assert(jobs =~= first);
                Round::Stop(Poll::Ready(Err(e)))
            },
        }
    }
}

/// A visitor is paired with exactly one mapping: once stored under a fresh
/// token, the first mapping that announces the token gets that visitor, and
/// after that (or after the wait for it timed out) the token finds no visitor,
/// so a later mapping announcing it is dropped. Other waiting visitors stay.
pub proof fn law_visitor_paired_once<C>(waiting: Map<u64, C>, start: u64, token: u64, visitor: C)
    requires
        first_free_from(waiting.dom(), start, token),
    ensures
        waiting.insert(token, visitor).contains_key(token),
        waiting.insert(token, visitor)[token] == visitor,
        !waiting.insert(token, visitor).remove(token).contains_key(token),
        waiting.insert(token, visitor).remove(token) == waiting,
{
    assert(waiting.insert(token, visitor).remove(token) =~= waiting);
}

/// Work that failed on its own (a visitor whose preprocessing failed, say)
/// starts nothing more in its round: in particular no mapping is asked for, the
/// waiting visitors stay as they are, and nothing is handed out.
pub proof fn law_failed_work_asks_no_mapping<C>(
    waiting: Map<u64, C>,
    start: u64,
    after: Map<u64, C>,
    accepted: Poll<Result<Whence<C>, FusoError>>,
    e: FusoError,
)
    requires
        waiting_after(waiting, start, after, accepted, Poll::Ready(Err(e))),
    ensures
        forall|i: int| 0 <= i < jobs_after(waiting, start, accepted, Poll::Ready(Err(e))).len()
            ==> !(#[trigger] jobs_after(waiting, start, accepted, Poll::Ready(Err(e)))[i] is RequestMapping),
        jobs_after(waiting, start, accepted, Poll::Ready(Err(e))).len() <= 1,
        after == waiting,
        !(round_after(waiting, accepted, Poll::Ready(Err(e))) matches Round::Stop(Poll::Ready(Ok(_)))),
        !(accepted matches Poll::Ready(Err(_))) ==> !(round_after(waiting, accepted, Poll::Ready(Err(e))) matches Round::Stop(Poll::Ready(Err(_)))),
        accepted is Pending ==> round_after(waiting, accepted, Poll::Ready(Err(e))) == Round::<C>::Stop(Poll::Pending),
        accepted matches Poll::Ready(Ok(_)) ==> round_after(waiting, accepted, Poll::Ready(Err(e))) == Round::<C>::Again,
{
}

/// Accepting ends with an error only for an error of the accepter or a stopped
/// control connection: whatever else the work reports (a piece of work that
/// failed on its own among it), a round never stops with an error.
pub proof fn law_only_accepter_or_control_errors_end_accepting<C>(
    waiting: Map<u64, C>,
    accepted: Poll<Result<Whence<C>, FusoError>>,
    next: Poll<Result<Outcome<C>, FusoError>>,
)
    requires
        !(accepted matches Poll::Ready(Err(_))),
        !(next matches Poll::Ready(Ok(Outcome::Stopped(_)))),
    ensures
        !(round_after(waiting, accepted, next) matches Round::Stop(Poll::Ready(Err(_)))),
{
}

/// When the control connection stops, accepting ends: with its error, or with
/// `Abort` when it ended without one.
pub proof fn law_stopped_control_connection_ends_accepting<C>(
    waiting: Map<u64, C>,
    accepted: Poll<Result<Whence<C>, FusoError>>,
    e: Option<FusoError>,
)
    requires
        !(accepted matches Poll::Ready(Err(_))),
    ensures
        round_after(waiting, accepted, Poll::Ready(Ok(Outcome::Stopped(e))))
            == Round::<C>::Stop(Poll::Ready(Err(match e { Some(e) => e, None => FusoError::Abort }))),
{
}

/// A visitor dropped because the wait for its mapping ran out, or because
/// asking the client for it failed, is never handed out: it waits no more, and a
/// mapping that announces its token later is dropped and accepting goes on.
pub proof fn law_dropped_visitor_is_not_handed_out<C>(
    waiting: Map<u64, C>,
    start: u64,
    after: Map<u64, C>,
    accepted: Poll<Result<Whence<C>, FusoError>>,
    dropped: Outcome<C>,
    later: Poll<Result<Whence<C>, FusoError>>,
    t: u64,
    mapping: C,
)
    requires
        dropped == Outcome::<C>::Timeout(t) || (dropped matches Outcome::Transport(u, _) && u == t),
        !(accepted matches Poll::Ready(Err(_))),
        !(later matches Poll::Ready(Err(_))),
        waiting_after(waiting, start, after, accepted, Poll::Ready(Ok(dropped))),
    ensures
        !after.contains_key(t),
        round_after(after, later, Poll::Ready(Ok(Outcome::Ready(t, mapping)))) == Round::<C>::Again,
{
}

} // verus!
