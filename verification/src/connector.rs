use vstd::prelude::*;

use crate::error::FusoError;
use crate::poll::Poll;

verus! {

/// Something that opens connections (`O`) to targets (`T`).
pub trait Connector<T, O> {
    fn poll_connect(&mut self, cx: &mut std::task::Context<'_>, target: &T) -> Poll<Result<O, FusoError>>;
}

/// Polls `c` once for `target` and records the target with the answer.
pub(crate) fn connect_recorded<C: Connector<T, O> + ?Sized, T, O>(
    c: &mut C,
    cx: &mut std::task::Context<'_>,
    target: &T,
    log: &mut Ghost<Seq<(T, Poll<Result<O, FusoError>>)>>,
) -> (r: Poll<Result<O, FusoError>>)
    ensures
        final(log)@ == old(log)@.push((*target, r)),
{
    let r = c.poll_connect(cx, target);
    proof {
        log@ = log@.push((*target, r));
    }
    r
}

/// One connection attempt of a connector to a target.
pub struct Connect<'a, C, T, O> {
    target: T,
    connector: &'a mut C,
    polls: Ghost<Seq<(T, Poll<Result<O, FusoError>>)>>,
}

impl<'a, C, T, O> Connect<'a, C, T, O> {
    /// The target of the attempt.
    pub closed spec fn target(&self) -> T {
        self.target
    }

    /// The connector polled.
    pub closed spec fn connector(&self) -> C {
        *self.connector
    }

    /// Every poll of the connector so far, in order: the target handed to it and its answer.
    pub closed spec fn polls(&self) -> Seq<(T, Poll<Result<O, FusoError>>)> {
        self.polls@
    }

    /// Polls the connector once for the target and passes its answer on; the
    /// target stays as it is.
    pub fn poll(&mut self, cx: &mut std::task::Context<'_>) -> (r: Poll<Result<O, FusoError>>) where C: Connector<T, O>
        ensures
            final(self).target() == old(self).target(),
            final(self).polls() == old(self).polls().push((old(self).target(), r)),
    {
        connect_recorded(self.connector, cx, &self.target, &mut self.polls)
    }
}

/// Starting connection attempts on any connector.
pub trait ConnectExt<T, O>: Connector<T, O> + Sized {
    fn connect<'a>(&'a mut self, target: T) -> (r: Connect<'a, Self, T, O>)
        ensures
            r.target() == target,
            r.connector() == *old(self),
            r.polls() == Seq::<(T, Poll<Result<O, FusoError>>)>::empty(),
    {
        Connect { target, connector: self, polls: Ghost(Seq::empty()) }
    }
}

impl<C: Connector<T, O>, T, O> ConnectExt<T, O> for C {}

/// A connector of any kind, behind one type.
#[verifier::reject_recursive_types(T)]
#[verifier::reject_recursive_types(O)]
pub struct BoxedConnector<'connector, T, O>(
    Box<dyn Connector<T, O> + 'connector>,
    Ghost<Seq<(T, Poll<Result<O, FusoError>>)>>,
);

impl<'connector, T, O> BoxedConnector<'connector, T, O> {
    /// Whether the connector behind it is `c`.
    pub closed spec fn wraps<C: Connector<T, O> + 'connector>(&self, c: C) -> bool {
        self.0 == ({ let b: Box<dyn Connector<T, O> + 'connector> = Box::new(c); b })
    }

    /// Every poll handed to the connector behind it, in order: the target and its answer.
    pub closed spec fn polls(&self) -> Seq<(T, Poll<Result<O, FusoError>>)> {
        self.1@
    }

    /// Wraps `connector`.
    pub fn new<C: Connector<T, O> + 'connector>(connector: C) -> (r: Self)
        ensures
            r.wraps(connector),
            r.polls() == Seq::<(T, Poll<Result<O, FusoError>>)>::empty(),
    {
        let b: Box<dyn Connector<T, O> + 'connector> = Box::new(connector);
        BoxedConnector(b, Ghost(Seq::empty()))
    }
}

impl<'connector, T, O> Connector<T, O> for BoxedConnector<'connector, T, O> {
    /// Polls the connector behind it once, with the same target, and passes its answer on.
    fn poll_connect(&mut self, cx: &mut std::task::Context<'_>, target: &T) -> (r: Poll<Result<O, FusoError>>)
        ensures
            final(self).polls() == old(self).polls().push((*target, r)),
    {
        connect_recorded(&mut *self.0, cx, target, &mut self.1)
    }
}

/// Where a round over several connectors stands.
pub enum Selection<O> {
    /// A connector delivered this connection.
    Connected(O),
    /// No connection yet; the last error seen, if any.
    Waiting(Option<FusoError>),
}

/// The round after the polls `outs`, taken in order.
pub open spec fn select_after<O>(outs: Seq<Poll<Result<O, FusoError>>>) -> Selection<O>
    decreases outs.len(),
{
    if outs.len() == 0 {
        Selection::Waiting(None)
    } else {
        select_step(select_after(outs.drop_last()), outs.last())
    }
}

/// One poll more in a round.
pub open spec fn select_step<O>(s: Selection<O>, polled: Poll<Result<O, FusoError>>) -> Selection<O> {
    match s {
        Selection::Connected(o) => Selection::Connected(o),
        Selection::Waiting(err) => match polled {
            Poll::Pending => Selection::Waiting(err),
            Poll::Ready(Ok(o)) => Selection::Connected(o),
            Poll::Ready(Err(e)) => Selection::Waiting(Some(e)),
        },
    }
}

/// A round in which every connector was pending is pending.
pub proof fn law_selection_all_pending_is_pending<O>(outs: Seq<Poll<Result<O, FusoError>>>)
    requires
        forall|i: int| 0 <= i < outs.len() ==> (#[trigger] outs[i]) is Pending,
    ensures
        selection_result(select_after(outs)) is Pending,
    decreases outs.len(),
{
    if outs.len() > 0 {
        let prev = outs.drop_last();
        assert forall|i: int| 0 <= i < prev.len() implies (#[trigger] prev[i]) is Pending by {
            assert(prev[i] == outs[i]);
        }
        law_selection_all_pending_is_pending(prev);
        assert(outs[outs.len() - 1] is Pending);
        lemma_pending_round_waits_empty(prev);
    }
}

/// A round whose answers are all pending has seen no error.
proof fn lemma_pending_round_waits_empty<O>(outs: Seq<Poll<Result<O, FusoError>>>)
    requires
        forall|i: int| 0 <= i < outs.len() ==> (#[trigger] outs[i]) is Pending,
    ensures
        select_after(outs) == Selection::<O>::Waiting(None),
    decreases outs.len(),
{
    if outs.len() > 0 {
        let prev = outs.drop_last();
        assert forall|i: int| 0 <= i < prev.len() implies (#[trigger] prev[i]) is Pending by {
            assert(prev[i] == outs[i]);
        }
        lemma_pending_round_waits_empty(prev);
        assert(outs[outs.len() - 1] is Pending);
    }
}

/// A round in which no connector delivered a connection reports the last error
/// answered: the error at `k`, when no error came after it.
pub proof fn law_selection_reports_last_error<O>(outs: Seq<Poll<Result<O, FusoError>>>, k: int)
    requires
        forall|i: int| 0 <= i < outs.len() ==> !((#[trigger] outs[i]) matches Poll::Ready(Ok(_))),
        0 <= k < outs.len(),
        outs[k] matches Poll::Ready(Err(_)),
        forall|j: int| k < j < outs.len() ==> !(#[trigger] outs[j] matches Poll::Ready(Err(_))),
    ensures
        selection_result(select_after(outs)) == outs[k],
    decreases outs.len(),
{
    let prev = outs.drop_last();
    let n = outs.len() - 1;
    assert forall|i: int| 0 <= i < prev.len() implies !((#[trigger] prev[i]) matches Poll::Ready(Ok(_))) by {
        assert(prev[i] == outs[i]);
    }
    lemma_no_connection_waits(prev);
    if k < n {
        assert(!(outs[n] matches Poll::Ready(Ok(_))));
        assert(!(outs[n] matches Poll::Ready(Err(_))));
        assert forall|j: int| k < j < prev.len() implies !(#[trigger] prev[j] matches Poll::Ready(Err(_))) by {
            assert(prev[j] == outs[j]);
        }
        assert(prev[k] == outs[k]);
        law_selection_reports_last_error(prev, k);
    }
}

/// A round reports the first connection delivered: the one at `k`, when no
/// connector before it delivered one.
pub proof fn law_selection_reports_first_connection<O>(outs: Seq<Poll<Result<O, FusoError>>>, k: int)
    requires
        0 <= k < outs.len(),
        outs[k] matches Poll::Ready(Ok(_)),
        forall|j: int| 0 <= j < k ==> !(#[trigger] outs[j] matches Poll::Ready(Ok(_))),
    ensures
        selection_result(select_after(outs)) == outs[k],
        select_after(outs) is Connected,
    decreases outs.len(),
{
    let prev = outs.drop_last();
    let n = outs.len() - 1;
    if k < n {
        assert forall|j: int| 0 <= j < k implies !(#[trigger] prev[j] matches Poll::Ready(Ok(_))) by {
            assert(prev[j] == outs[j]);
        }
        assert(prev[k] == outs[k]);
        law_selection_reports_first_connection(prev, k);
    } else {
        assert forall|i: int| 0 <= i < prev.len() implies !((#[trigger] prev[i]) matches Poll::Ready(Ok(_))) by {
            assert(prev[i] == outs[i]);
        }
        lemma_no_connection_waits(prev);
    }
}

/// Without a connection among the answers, a round is still waiting.
proof fn lemma_no_connection_waits<O>(outs: Seq<Poll<Result<O, FusoError>>>)
    requires
        forall|i: int| 0 <= i < outs.len() ==> !((#[trigger] outs[i]) matches Poll::Ready(Ok(_))),
    ensures
        select_after(outs) is Waiting,
    decreases outs.len(),
{
    if outs.len() > 0 {
        let prev = outs.drop_last();
        assert forall|i: int| 0 <= i < prev.len() implies !((#[trigger] prev[i]) matches Poll::Ready(Ok(_))) by {
            assert(prev[i] == outs[i]);
        }
        lemma_no_connection_waits(prev);
        assert(!(outs[outs.len() - 1] matches Poll::Ready(Ok(_))));
    }
}

/// What a round reports: the connection, else the last error, else pending.
pub open spec fn selection_result<O>(s: Selection<O>) -> Poll<Result<O, FusoError>> {
    match s {
        Selection::Connected(o) => Poll::Ready(Ok(o)),
        Selection::Waiting(None) => Poll::Pending,
        Selection::Waiting(Some(e)) => Poll::Ready(Err(e)),
    }
}

/// Takes one poll into a round that has no connection yet: a connection ends the
/// round, an error replaces the last one seen, a pending poll changes nothing.
pub fn select_next<O>(err: Option<FusoError>, polled: Poll<Result<O, FusoError>>) -> (r: Selection<O>)
    ensures
        r == select_step(Selection::Waiting(err), polled),
        polled is Pending ==> r == Selection::<O>::Waiting(err),
        polled matches Poll::Ready(Err(e)) ==> r == Selection::<O>::Waiting(Some(e)),
        polled matches Poll::Ready(Ok(o)) ==> r == Selection::Connected(o),
{
    match polled {
        Poll::Pending => Selection::Waiting(err),
        Poll::Ready(Ok(o)) => Selection::Connected(o),
        Poll::Ready(Err(e)) => Selection::Waiting(Some(e)),
    }
}

/// Several connectors, tried in the order they were added.
#[verifier::reject_recursive_types(T)]
#[verifier::reject_recursive_types(O)]
pub struct MultiConnector<'a, T, O> {
    connectors: Vec<BoxedConnector<'a, T, O>>,
    polls: Ghost<Seq<(nat, Poll<Result<O, FusoError>>)>>,
}

/// The answers of a run of polls.
pub open spec fn answers_of<O>(polls: Seq<(nat, Poll<Result<O, FusoError>>)>) -> Seq<Poll<Result<O, FusoError>>> {
    polls.map_values(|p: (nat, Poll<Result<O, FusoError>>)| p.1)
}

/// Whether `fresh` is what one poll of `count` connectors did and `r` what it
/// reported: the connectors were polled in order, from the first, each entry
/// holding the connector's place and its answer; no poll but the last
/// delivered a connection, and the poll stopped at the first connection or
/// polled every connector; `r` is what the round of those answers reports (see
/// `select_after`).
pub open spec fn multi_poll<O>(count: nat, fresh: Seq<(nat, Poll<Result<O, FusoError>>)>, r: Poll<Result<O, FusoError>>) -> bool {
    &&& fresh.len() <= count
    &&& forall|j: int| 0 <= j < fresh.len() ==> (#[trigger] fresh[j]).0 == j
    &&& forall|j: int| 0 <= j < fresh.len() - 1 ==> !((#[trigger] fresh[j]).1 matches Poll::Ready(Ok(_)))
    &&& r == selection_result(select_after(answers_of(fresh)))
    &&& fresh.len() < count ==> select_after(answers_of(fresh)) is Connected
}

impl<'a, T, O> MultiConnector<'a, T, O> {
    /// The connectors, in the order they are tried.
    pub closed spec fn connectors(&self) -> Seq<BoxedConnector<'a, T, O>> {
        self.connectors@
    }

    /// How many connectors there are.
    pub open spec fn count(&self) -> nat {
        self.connectors().len()
    }

    /// Every poll of a connector so far, in order: the connector's place and its answer.
    pub closed spec fn polls(&self) -> Seq<(nat, Poll<Result<O, FusoError>>)> {
        self.polls@
    }

    /// No connectors.
    pub fn new() -> (r: Self)
        ensures
            r.connectors() == Seq::<BoxedConnector<'a, T, O>>::empty(),
            r.polls() == Seq::<(nat, Poll<Result<O, FusoError>>)>::empty(),
    {
        MultiConnector { connectors: Vec::new(), polls: Ghost(Seq::empty()) }
    }

    /// Adds a connector after the others: they keep their order, and the new
    /// one is tried last.
    pub fn add<C: Connector<T, O> + 'a>(&mut self, connector: C)
        ensures
            final(self).connectors().len() == old(self).connectors().len() + 1,
            final(self).connectors().drop_last() == old(self).connectors(),
            final(self).connectors().last().wraps(connector),
            final(self).polls() == old(self).polls(),
    {
        self.connectors.push(BoxedConnector::new(connector));
    }
}

impl<'a, T, O> Connector<T, O> for MultiConnector<'a, T, O> {
    /// Polls the connectors in order: the first that delivers a connection wins
    /// and the later ones are not polled; otherwise the last error reported wins;
    /// with no connection and no error the round is pending.
    fn poll_connect(&mut self, cx: &mut std::task::Context<'_>, target: &T) -> (r: Poll<Result<O, FusoError>>)
        ensures
            final(self).count() == old(self).count(),
            old(self).polls().len() <= final(self).polls().len(),
            final(self).polls().take(old(self).polls().len() as int) == old(self).polls(),
            multi_poll(old(self).count(), final(self).polls().skip(old(self).polls().len() as int), r),
            forall|j: int| 0 <= j < old(self).count() ==> #[trigger] final(self).connectors()[j].polls() ==
                if j < final(self).polls().len() - old(self).polls().len() {
                    old(self).connectors()[j].polls().push((*target, final(self).polls()[old(self).polls().len() + j].1))
                } else {
                    old(self).connectors()[j].polls()
                },
    {
        let mut error: Option<FusoError> = None;
        let ghost before = self.polls@;
        let ghost b = before.len() as int;
        let n = self.connectors.len();
        let mut i: usize = 0;
        assert(self.polls@.skip(b) =~= Seq::<(nat, Poll<Result<O, FusoError>>)>::empty());
        assert(self.polls@.take(b) =~= before);
        while i < n
            invariant
                n == self.connectors@.len(),
                n == old(self).count(),
                before == old(self).polls(),
                b == before.len(),
                0 <= i <= n,
                self.polls@.len() == b + i,
                self.polls@.take(b) == before,
                forall|j: int| 0 <= j < i ==> (#[trigger] self.polls@.skip(b)[j]).0 == j,
                forall|j: int| 0 <= j < i ==> !((#[trigger] self.polls@.skip(b)[j]).1 matches Poll::Ready(Ok(_))),
                select_after(answers_of(self.polls@.skip(b))) == Selection::<O>::Waiting(error),
                forall|j: int| 0 <= j < n ==> #[trigger] self.connectors@[j].polls() ==
                    if j < i {
                        old(self).connectors@[j].polls().push((*target, self.polls@[b + j].1))
                    } else {
                        old(self).connectors@[j].polls()
                    },
            decreases n - i,
        {
            let ghost connectors0 = self.connectors@;
            let polled = self.connectors[i].poll_connect(cx, target);
            proof {
                assert forall|j: int| 0 <= j < n && j != i implies #[trigger] self.connectors@[j] == connectors0[j] by {}
                let polls0 = self.polls@;
                self.polls@ = polls0.push((i as nat, polled));
                assert(self.polls@.take(b) =~= polls0.take(b));
                assert(self.polls@.skip(b) =~= polls0.skip(b).push((i as nat, polled)));
                assert(answers_of(self.polls@.skip(b)).drop_last() =~= answers_of(polls0.skip(b)));
                assert forall|j: int| 0 <= j < i implies #[trigger] self.polls@.skip(b)[j] == polls0.skip(b)[j] by {}
            }
            match select_next(error, polled) {
                Selection::Connected(o) => {
                    return Poll::Ready(Ok(o));
                },
                Selection::Waiting(e) => {
                    error = e;
                },
            }
            i = i + 1;
        }
        match error {
            None => Poll::Pending,
            Some(e) => Poll::Ready(Err(e)),
        }
    }
}

} // verus!
