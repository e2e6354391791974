use vstd::prelude::*;

use crate::error::FusoError;
use crate::poll::Poll;
use crate::rpc::{guard_verdict, verdict_of, GuardVerdict};

verus! {

/// Watches whether the answer to one request was sent or abandoned.
pub trait Guard {
    fn poll_guard(&mut self, cx: &mut std::task::Context<'_>) -> Poll<Result<(), FusoError>>;
}

/// The tokens kept and the tokens to cancel after a sweep with these verdicts.
pub open spec fn sweep_result(tokens: Seq<u64>, verdicts: Seq<GuardVerdict>) -> (Seq<u64>, Seq<u64>)
    decreases tokens.len(),
{
    if tokens.len() == 0 || verdicts.len() == 0 {
        (Seq::empty(), Seq::empty())
    } else {
        let prev = sweep_result(tokens.drop_last(), verdicts.drop_last());
        match verdicts.last() {
            GuardVerdict::Keep => (prev.0.push(tokens.last()), prev.1),
            GuardVerdict::Done => prev,
            GuardVerdict::Cancel(t) => (prev.0, prev.1.push(t)),
        }
    }
}

/// The tokens of the watched requests, in order.
pub open spec fn tokens_of<G>(calls: Seq<(u64, G)>) -> Seq<u64> {
    calls.map_values(|c: (u64, G)| c.0)
}

/// Polls `guard`, watching the request `token`, once and records the token with the answer.
fn guard_recorded<G: Guard>(
    guard: &mut G,
    cx: &mut std::task::Context<'_>,
    token: u64,
    log: &mut Ghost<Seq<(u64, Poll<Result<(), FusoError>>)>>,
) -> (r: Poll<Result<(), FusoError>>)
    ensures
        final(log)@ == old(log)@.push((token, r)),
{
    let r = guard.poll_guard(cx);
    proof {
        log@ = log@.push((token, r));
    }
    r
}

/// The verdicts on a run of guard answers, each for its token.
pub open spec fn verdicts_of(answers: Seq<(u64, Poll<Result<(), FusoError>>)>) -> Seq<GuardVerdict> {
    answers.map_values(|a: (u64, Poll<Result<(), FusoError>>)| verdict_of(a.0, a.1))
}

/// The guards of the requests being answered, with their tokens, in the order
/// they came.
pub struct Guards<G> {
    calls: Vec<(u64, G)>,
    answers: Ghost<Seq<(u64, Poll<Result<(), FusoError>>)>>,
}

impl<G: Guard> Guards<G> {
    /// The tokens of the watched requests, in order.
    pub closed spec fn tokens(&self) -> Seq<u64> {
        tokens_of(self.calls@)
    }

    /// Every poll of a guard so far, in order: its token and its answer.
    pub closed spec fn answers(&self) -> Seq<(u64, Poll<Result<(), FusoError>>)> {
        self.answers@
    }

    /// No guard watched.
    pub fn new() -> (r: Self)
        ensures
            r.tokens() == Seq::<u64>::empty(),
            r.answers() == Seq::<(u64, Poll<Result<(), FusoError>>)>::empty(),
    {
        let r = Guards { calls: Vec::new(), answers: Ghost(Seq::empty()) };
        assert(r.tokens() =~= Seq::<u64>::empty());
        r
    }

    /// Watches the guard of the request `token`, after the others.
    pub fn watch(&mut self, token: u64, guard: G)
        ensures
            final(self).tokens() == old(self).tokens().push(token),
            final(self).answers() == old(self).answers(),
    {
        self.calls.push((token, guard));
        assert(self.tokens() =~= old(self).tokens().push(token));
    }

    /// The tokens of the watched requests, in order.
    pub fn watched(&self) -> (r: Vec<u64>)
        ensures
            r@ == self.tokens(),
    {
        let mut r: Vec<u64> = Vec::new();
        let mut i: usize = 0;
        while i < self.calls.len()
            invariant
                0 <= i <= self.calls@.len(),
                r@ == self.tokens().take(i as int),
            decreases self.calls@.len() - i,
        {
            r.push(self.calls[i].0);
            i = i + 1;
            assert(r@ =~= self.tokens().take(i as int));
        }
        assert(self.tokens().take(i as int) =~= self.tokens());
        r
    }

    /// Polls every watched guard once, in order: guards still pending stay
    /// watched (in their order), answered ones are dropped, and abandoned ones
    /// are dropped with their token returned, so that the caller is told to
    /// cancel it. The answers are recorded, each with the token of its guard.
    pub fn sweep(&mut self, cx: &mut std::task::Context<'_>) -> (cancel: Vec<u64>)
        ensures
            final(self).answers().len() == old(self).answers().len() + old(self).tokens().len(),
            final(self).answers().take(old(self).answers().len() as int) == old(self).answers(),
            forall|i: int| 0 <= i < old(self).tokens().len() ==>
                (#[trigger] final(self).answers().skip(old(self).answers().len() as int)[i]).0 == old(self).tokens()[i],
            final(self).tokens() == sweep_result(old(self).tokens(), verdicts_of(final(self).answers().skip(old(self).answers().len() as int))).0,
            cancel@ == sweep_result(old(self).tokens(), verdicts_of(final(self).answers().skip(old(self).answers().len() as int))).1,
    {
        let mut rest: Vec<(u64, G)> = Vec::new();
        std::mem::swap(&mut self.calls, &mut rest);
        let ghost orig = rest@;
        let ghost before = self.answers@;
        let ghost b = before.len() as int;
        let mut cancel: Vec<u64> = Vec::new();
        let ghost mut i: int = 0;
        assert(self.answers@.skip(b) =~= Seq::<(u64, Poll<Result<(), FusoError>>)>::empty());
        assert(self.answers@.take(b) =~= before);
        while rest.len() > 0
            invariant
                0 <= i <= orig.len(),
                tokens_of(orig) == old(self).tokens(),
                before == old(self).answers(),
                b == before.len(),
                rest@ == orig.skip(i),
                self.answers@.len() == b + i,
                self.answers@.take(b) == before,
                forall|k: int| 0 <= k < i ==> (#[trigger] self.answers@.skip(b)[k]).0 == orig[k].0,
                tokens_of(self.calls@) == sweep_result(tokens_of(orig.take(i)), verdicts_of(self.answers@.skip(b))).0,
                cancel@ == sweep_result(tokens_of(orig.take(i)), verdicts_of(self.answers@.skip(b))).1,
            decreases rest@.len(),
        {
            let (token, mut guard) = rest.remove(0);
            let ghost answers0 = self.answers@;
            let polled = guard_recorded(&mut guard, cx, token, &mut self.answers);
            proof {
                assert(self.answers@.take(b) =~= answers0.take(b));
                assert(self.answers@.skip(b) =~= answers0.skip(b).push((token, polled)));
                assert(verdicts_of(self.answers@.skip(b)).drop_last() =~= verdicts_of(answers0.skip(b)));
                assert forall|k: int| 0 <= k < i implies #[trigger] self.answers@.skip(b)[k] == answers0.skip(b)[k] by {}
                assert(tokens_of(orig.take(i + 1)).drop_last() =~= tokens_of(orig.take(i)));
                assert(tokens_of(orig.take(i + 1)).last() == token);
            }
            let verdict = guard_verdict(token, polled);
            match verdict {
                GuardVerdict::Keep => {
                    self.calls.push((token, guard));
                },
                GuardVerdict::Done => {},
                GuardVerdict::Cancel(t) => {
                    cancel.push(t);
                },
            }
            proof {
                i = i + 1;
                assert(rest@ =~= orig.skip(i));
                assert(tokens_of(self.calls@) =~= sweep_result(tokens_of(orig.take(i)), verdicts_of(self.answers@.skip(b))).0);
            }
        }
        proof {
            assert(orig.take(i) =~= orig);
        }
        cancel
    }
}

/// Over a run of sweeps, a request whose answer was abandoned is cancelled once:
/// in the sweep that finds its guard abandoned it is returned for cancelling and
/// stops being watched; a request whose answer went is never cancelled and stops
/// being watched too; only pending ones stay. Tokens are watched once each.
pub proof fn law_abandoned_cancelled_once(tokens: Seq<u64>, verdicts: Seq<GuardVerdict>)
    requires
        tokens.no_duplicates(),
        verdicts.len() == tokens.len(),
        forall|i: int| 0 <= i < verdicts.len() ==> (#[trigger] verdicts[i] is Keep || verdicts[i] is Done
            || verdicts[i] == GuardVerdict::Cancel(tokens[i])),
    ensures
        sweep_result(tokens, verdicts).0.no_duplicates(),
        sweep_result(tokens, verdicts).1.no_duplicates(),
        forall|i: int| 0 <= i < tokens.len() ==>
            (sweep_result(tokens, verdicts).0.contains(#[trigger] tokens[i]) <==> verdicts[i] is Keep)
            && (sweep_result(tokens, verdicts).1.contains(tokens[i]) <==> verdicts[i] is Cancel),
        forall|t: u64| #[trigger] sweep_result(tokens, verdicts).0.contains(t) ==> tokens.contains(t),
        forall|t: u64| #[trigger] sweep_result(tokens, verdicts).1.contains(t) ==> tokens.contains(t),
    decreases tokens.len(),
{
    if tokens.len() > 0 {
        let tp = tokens.drop_last();
        let vp = verdicts.drop_last();
        let t = tokens.last();
        let n = tokens.len() - 1;
        assert forall|i: int, j: int| 0 <= i < j < tp.len() implies tp[i] != tp[j] by {
            assert(tokens[i] != tokens[j]);
        }
        assert forall|i: int| 0 <= i < vp.len() implies (#[trigger] vp[i] is Keep || vp[i] is Done
            || vp[i] == GuardVerdict::Cancel(tp[i])) by {
            assert(verdicts[i] == vp[i]);
        }
        law_abandoned_cancelled_once(tp, vp);
        let prev = sweep_result(tp, vp);
        let now = sweep_result(tokens, verdicts);
        assert(!tp.contains(t)) by {
            if tp.contains(t) {
                let k = choose|k: int| 0 <= k < tp.len() && tp[k] == t;
                assert(tokens[k] == tokens[n]);
            }
        }
        assert(!prev.0.contains(t));
        assert(!prev.1.contains(t));
        assert forall|x: u64| #[trigger] tp.contains(x) implies tokens.contains(x) by {
            let k = choose|k: int| 0 <= k < tp.len() && tp[k] == x;
            assert(tokens[k] == x);
        }
        assert(tokens[n] == t);
        assert(tokens.contains(t));
        assert forall|i: int| 0 <= i < tokens.len() implies
            (now.0.contains(#[trigger] tokens[i]) <==> verdicts[i] is Keep)
            && (now.1.contains(tokens[i]) <==> verdicts[i] is Cancel) by {
            if i < n {
                assert(tokens[i] == tp[i]);
                assert(verdicts[i] == vp[i]);
                assert(tokens[i] != t);
                assert(tp.contains(tokens[i]));
            }
            match verdicts.last() {
                GuardVerdict::Keep => {
                    assert(now.0 == prev.0.push(t));
                    assert(now.1 == prev.1);
                    assert(now.0[prev.0.len() as int] == t);
                },
                GuardVerdict::Done => {},
                GuardVerdict::Cancel(c) => {
                    assert(c == t);
                    assert(now.1 == prev.1.push(t));
                    assert(now.1[prev.1.len() as int] == t);
                },
            }
            if i < n {
                assert(now.0.contains(tokens[i]) == prev.0.contains(tokens[i])) by {
                    if now.0.contains(tokens[i]) {
                        let k = choose|k: int| 0 <= k < now.0.len() && now.0[k] == tokens[i];
                        if k < prev.0.len() {
                            assert(prev.0[k] == now.0[k]);
                        }
                    }
                    if prev.0.contains(tokens[i]) {
                        let k = choose|k: int| 0 <= k < prev.0.len() && prev.0[k] == tokens[i];
                        assert(now.0[k] == prev.0[k]);
                    }
                }
                assert(now.1.contains(tokens[i]) == prev.1.contains(tokens[i])) by {
                    if now.1.contains(tokens[i]) {
                        let k = choose|k: int| 0 <= k < now.1.len() && now.1[k] == tokens[i];
                        if k < prev.1.len() {
                            assert(prev.1[k] == now.1[k]);
                        }
                    }
                    if prev.1.contains(tokens[i]) {
                        let k = choose|k: int| 0 <= k < prev.1.len() && prev.1[k] == tokens[i];
                        assert(now.1[k] == prev.1[k]);
                    }
                }
            }
        }
        assert forall|x: u64| #[trigger] now.0.contains(x) implies tokens.contains(x) by {
            let k = choose|k: int| 0 <= k < now.0.len() && now.0[k] == x;
            if k < prev.0.len() {
                assert(prev.0[k] == now.0[k]);
                assert(prev.0.contains(x));
            }
        }
        assert forall|x: u64| #[trigger] now.1.contains(x) implies tokens.contains(x) by {
            let k = choose|k: int| 0 <= k < now.1.len() && now.1[k] == x;
            if k < prev.1.len() {
                assert(prev.1[k] == now.1[k]);
                assert(prev.1.contains(x));
            }
        }
        assert forall|a: int, c: int| 0 <= a < c < now.0.len() implies now.0[a] != now.0[c] by {
            if c < prev.0.len() {
                assert(prev.0[a] == now.0[a] && prev.0[c] == now.0[c]);
            } else {
                assert(prev.0.contains(now.0[a]));
            }
        }
        assert forall|a: int, c: int| 0 <= a < c < now.1.len() implies now.1[a] != now.1[c] by {
            if c < prev.1.len() {
                assert(prev.1[a] == now.1[a] && prev.1[c] == now.1[c]);
            } else {
                assert(prev.1.contains(now.1[a]));
            }
        }
    }
}

/// A task run by a looper.
pub trait Task {
    fn poll_task(&mut self, cx: &mut std::task::Context<'_>) -> Poll<Result<(), FusoError>>;
}

/// Polls `task`, at place `place` of a looper, once and records the place with the answer.
fn task_recorded<K: Task + ?Sized>(
    task: &mut K,
    cx: &mut std::task::Context<'_>,
    Ghost(place): Ghost<nat>,
    log: &mut Ghost<Seq<(nat, Poll<Result<(), FusoError>>)>>,
) -> (r: Poll<Result<(), FusoError>>)
    ensures
        final(log)@ == old(log)@.push((place, r)),
{
    let r = task.poll_task(cx);
    proof {
        log@ = log@.push((place, r));
    }
    r
}

/// Runs the tasks of one connection side by side; the first task to finish
/// ends the looper with its result.
pub struct Looper<'looper> {
    tasks: Vec<BoxedTask<'looper>>,
    polls: Ghost<Seq<(nat, Poll<Result<(), FusoError>>)>>,
}

/// A task of any kind, behind one type.
pub struct BoxedTask<'looper>(Box<dyn Task + 'looper>);

impl<'looper> BoxedTask<'looper> {
    /// Whether the task behind it is `f`.
    pub closed spec fn wraps<F: Task + 'looper>(&self, f: F) -> bool {
        self.0 == ({ let b: Box<dyn Task + 'looper> = Box::new(f); b })
    }

    /// Boxes `f`.
    pub fn new<F: Task + 'looper>(f: F) -> (r: Self)
        ensures
            r.wraps(f),
    {
        let b: Box<dyn Task + 'looper> = Box::new(f);
        BoxedTask(b)
    }
}

/// Whether `fresh` is what one poll of a looper with `count` tasks did and
/// `r` what it reported: the tasks were polled in order, from the first, each
/// entry holding the task's place and what it gave; every task polled but the
/// last was pending; the poll stopped at the first ready task and reports its
/// result, or polled every task and is pending.
pub open spec fn looper_poll(count: nat, fresh: Seq<(nat, Poll<Result<(), FusoError>>)>, r: Poll<Result<(), FusoError>>) -> bool {
    &&& fresh.len() <= count
    &&& forall|j: int| 0 <= j < fresh.len() ==> (#[trigger] fresh[j]).0 == j
    &&& forall|j: int| 0 <= j < fresh.len() - 1 ==> (#[trigger] fresh[j]).1 is Pending
    &&& r is Ready ==> fresh.len() > 0 && r == fresh.last().1
    &&& r is Pending ==> fresh.len() == count && (fresh.len() == 0 || fresh.last().1 is Pending)
}

impl<'looper> Looper<'looper> {
    /// The tasks, in the order they are polled.
    pub closed spec fn tasks(&self) -> Seq<BoxedTask<'looper>> {
        self.tasks@
    }

    /// How many tasks run.
    pub open spec fn count(&self) -> nat {
        self.tasks().len()
    }

    /// Every poll of a task so far, in order: the task's place and what it gave.
    pub closed spec fn polls(&self) -> Seq<(nat, Poll<Result<(), FusoError>>)> {
        self.polls@
    }

    /// A looper with no task.
    pub fn new() -> (r: Self)
        ensures
            r.tasks() == Seq::<BoxedTask<'looper>>::empty(),
            r.polls() == Seq::<(nat, Poll<Result<(), FusoError>>)>::empty(),
    {
        Looper { tasks: Vec::new(), polls: Ghost(Seq::empty()) }
    }

    /// Adds a task: the earlier ones stay, in their order, and the new one is
    /// polled last.
    pub fn post<F: Task + 'looper>(&mut self, f: F)
        ensures
            final(self).tasks().len() == old(self).tasks().len() + 1,
            final(self).tasks().drop_last() == old(self).tasks(),
            final(self).tasks().last().wraps(f),
            final(self).polls() == old(self).polls(),
    {
        self.tasks.push(BoxedTask::new(f));
    }

    /// Polls the tasks in order and reports the result of the first that is
    /// ready (the later ones are not polled); pending when none is.
    pub fn poll(&mut self, cx: &mut std::task::Context<'_>) -> (r: Poll<Result<(), FusoError>>)
        ensures
            final(self).count() == old(self).count(),
            final(self).polls().take(old(self).polls().len() as int) == old(self).polls(),
            old(self).polls().len() <= final(self).polls().len(),
            looper_poll(old(self).count(), final(self).polls().skip(old(self).polls().len() as int), r),
    {
        let n = self.tasks.len();
        let mut i: usize = 0;
        let ghost before = self.polls@;
        while i < n
            invariant
                n == self.tasks@.len(),
                n == old(self).count(),
                before == old(self).polls(),
                0 <= i <= n,
                self.polls@.len() == before.len() + i,
                self.polls@.take(before.len() as int) == before,
                forall|j: int| 0 <= j < i ==> (#[trigger] self.polls@.skip(before.len() as int)[j]).0 == j
                    && self.polls@.skip(before.len() as int)[j].1 is Pending,
            decreases n - i,
        {
            let ghost old_polls = self.polls@;
            let polled = task_recorded(&mut *self.tasks[i].0, cx, Ghost(i as nat), &mut self.polls);
            proof {
                assert(self.polls@.take(before.len() as int) =~= old_polls.take(before.len() as int));
                assert forall|j: int| 0 <= j < i implies #[trigger] self.polls@.skip(before.len() as int)[j] == old_polls.skip(before.len() as int)[j] by {}
            }
            match polled {
                Poll::Ready(r) => {
                    return Poll::Ready(r);
                },
                Poll::Pending => {},
            }
            i = i + 1;
        }
        Poll::Pending
    }
}

/// Keeps the control connection of a forwarder running.
pub struct TransportHold<'looper>(pub Looper<'looper>);

impl<'looper> TransportHold<'looper> {
    /// Polls the looper: the result of its first ready task, pending when none is.
    pub fn poll(&mut self, cx: &mut std::task::Context<'_>) -> (r: Poll<Result<(), FusoError>>)
        ensures
            final(self).0.count() == old(self).0.count(),
            final(self).0.polls().take(old(self).0.polls().len() as int) == old(self).0.polls(),
            old(self).0.polls().len() <= final(self).0.polls().len(),
            looper_poll(old(self).0.count(), final(self).0.polls().skip(old(self).0.polls().len() as int), r),
    {
        self.0.poll(cx)
    }
}

} // verus!
