use vstd::prelude::*;

use crate::error::FusoError;
use crate::poll::Poll;

verus! {

/// Something that sends and receives bytes.
pub trait Transmitter {
    fn poll_send(&mut self, ctx: &mut std::task::Context<'_>, buf: &[u8]) -> Poll<Result<usize, FusoError>>;

    fn poll_recv(&mut self, ctx: &mut std::task::Context<'_>, buf: &mut [u8]) -> Poll<Result<usize, FusoError>>;
}

/// Offers `buf` to `t` once and records the offer with the answer.
pub(crate) fn send_recorded<T: Transmitter + ?Sized>(
    t: &mut T,
    cx: &mut std::task::Context<'_>,
    buf: &[u8],
    log: &mut Ghost<Seq<(Seq<u8>, Poll<Result<usize, FusoError>>)>>,
) -> (r: Poll<Result<usize, FusoError>>)
    ensures
        final(log)@ == old(log)@.push((buf@, r)),
{
    let r = t.poll_send(cx, buf);
    proof {
        log@ = log@.push((buf@, r));
    }
    r
}

/// Offers the room in `buf` to `t` once and records the room, the buffer it
/// left and the answer.
fn recv_recorded<T: Transmitter + ?Sized>(
    t: &mut T,
    cx: &mut std::task::Context<'_>,
    buf: &mut [u8],
    log: &mut Ghost<Seq<(nat, Seq<u8>, Poll<Result<usize, FusoError>>)>>,
) -> (r: Poll<Result<usize, FusoError>>)
    ensures
        final(log)@ == old(log)@.push((old(buf)@.len(), final(buf)@, r)),
{
    let ghost room = buf@.len();
    let r = t.poll_recv(cx, buf);
    proof {
        log@ = log@.push((room, buf@, r));
    }
    r
}

/// One send of `data` through a transmitter.
pub struct TransmitSend<'t, T> {
    data: &'t [u8],
    transmitter: &'t mut T,
    offers: Ghost<Seq<(Seq<u8>, Poll<Result<usize, FusoError>>)>>,
}

/// Sending all of `data` through a transmitter, resumable.
pub struct TransmitSendAll<'t, T> {
    pos: usize,
    data: &'t [u8],
    transmitter: &'t mut T,
    offers: Ghost<Seq<(Seq<u8>, Poll<Result<usize, FusoError>>)>>,
}

/// Sending helpers for every transmitter.
pub trait TransmitterExt: Transmitter + Sized {
    /// One send of `data` through this transmitter.
    fn send<'a>(&'a mut self, data: &'a [u8]) -> (r: TransmitSend<'a, Self>)
        ensures
            r.data() == data@,
            r.transmitter() == *old(self),
            r.offers() == Seq::<(Seq<u8>, Poll<Result<usize, FusoError>>)>::empty(),
    {
        TransmitSend { data, transmitter: self, offers: Ghost(Seq::empty()) }
    }

    /// Sending all of `data` through this transmitter, from its first byte.
    fn send_all<'a>(&'a mut self, data: &'a [u8]) -> (r: TransmitSendAll<'a, Self>)
        ensures
            r.data() == data@,
            r.sent() == 0,
            r.transmitter() == *old(self),
            r.offers() == Seq::<(Seq<u8>, Poll<Result<usize, FusoError>>)>::empty(),
            send_state(r.data(), r.offers(), r.sent()),
    {
        TransmitSendAll { pos: 0, data, transmitter: self, offers: Ghost(Seq::empty()) }
    }
}

impl<T: Transmitter> TransmitterExt for T {}

/// A transmitter of any kind, behind one type.
pub struct AbstractTransmitter<'transmitter> {
    inner: Box<dyn Transmitter + 'transmitter>,
    sends: Ghost<Seq<(Seq<u8>, Poll<Result<usize, FusoError>>)>>,
    recvs: Ghost<Seq<(nat, Seq<u8>, Poll<Result<usize, FusoError>>)>>,
}

impl<'transmitter> AbstractTransmitter<'transmitter> {
    /// Whether the transmitter behind it is `t`.
    pub closed spec fn wraps<T: Transmitter + 'transmitter>(&self, t: T) -> bool {
        self.inner == ({ let b: Box<dyn Transmitter + 'transmitter> = Box::new(t); b })
    }

    /// Every send handed to the transmitter behind it, in order: the bytes
    /// offered and its answer.
    pub closed spec fn sends(&self) -> Seq<(Seq<u8>, Poll<Result<usize, FusoError>>)> {
        self.sends@
    }

    /// Every receive handed to the transmitter behind it, in order: the room
    /// offered, the buffer it left, and its answer.
    pub closed spec fn recvs(&self) -> Seq<(nat, Seq<u8>, Poll<Result<usize, FusoError>>)> {
        self.recvs@
    }

    /// Wraps `transmitter`.
    pub fn new<T: Transmitter + 'transmitter>(transmitter: T) -> (r: Self)
        ensures
            r.wraps(transmitter),
            r.sends() == Seq::<(Seq<u8>, Poll<Result<usize, FusoError>>)>::empty(),
            r.recvs() == Seq::<(nat, Seq<u8>, Poll<Result<usize, FusoError>>)>::empty(),
    {
        let b: Box<dyn Transmitter + 'transmitter> = Box::new(transmitter);
        AbstractTransmitter { inner: b, sends: Ghost(Seq::empty()), recvs: Ghost(Seq::empty()) }
    }
}

impl<'transmitter> Transmitter for AbstractTransmitter<'transmitter> {
    /// Hands `buf` to the transmitter behind it, once, and passes its answer on.
    fn poll_send(&mut self, ctx: &mut std::task::Context<'_>, buf: &[u8]) -> (r: Poll<Result<usize, FusoError>>)
        ensures
            final(self).sends() == old(self).sends().push((buf@, r)),
            final(self).recvs() == old(self).recvs(),
    {
        send_recorded(&mut *self.inner, ctx, buf, &mut self.sends)
    }

    /// Hands `buf` to the transmitter behind it, once, and passes its answer on.
    fn poll_recv(&mut self, ctx: &mut std::task::Context<'_>, buf: &mut [u8]) -> (r: Poll<Result<usize, FusoError>>)
        ensures
            final(self).recvs() == old(self).recvs().push((old(buf)@.len(), final(buf)@, r)),
            final(self).sends() == old(self).sends(),
    {
        recv_recorded(&mut *self.inner, ctx, buf, &mut self.recvs)
    }
}

/// What a resumable send does after one send attempt.
pub enum SendProgress {
    /// Go on from this position.
    Continue(usize),
    /// Stop with this result.
    Stop(Poll<Result<(), FusoError>>),
}

/// The step of sending `len` bytes from position `pos` after one attempt:
/// waiting and errors stop the send; a send of no bytes means the peer is gone
/// (a broken pipe); otherwise the position moves on by the bytes sent (up to `len`).
pub fn send_progress(pos: usize, len: usize, polled: Poll<Result<usize, FusoError>>) -> (r: SendProgress)
    requires
        pos < len,
    ensures
        match polled {
            Poll::Pending => r == SendProgress::Stop(Poll::Pending),
            Poll::Ready(Err(e)) => r == SendProgress::Stop(Poll::Ready(Err(e))),
            Poll::Ready(Ok(n)) => if n == 0 {
                r matches SendProgress::Stop(Poll::Ready(Err(FusoError::StdIo(_))))
            } else {
                r == SendProgress::Continue(if n < len - pos { (pos + n) as usize } else { len })
            },
        },
{
    match polled {
        Poll::Pending => SendProgress::Stop(Poll::Pending),
        Poll::Ready(Err(e)) => SendProgress::Stop(Poll::Ready(Err(e))),
        Poll::Ready(Ok(n)) => {
            if n == 0 {
                SendProgress::Stop(Poll::Ready(Err(FusoError::StdIo(broken_pipe()))))
            } else if n < len - pos {
                SendProgress::Continue(pos + n)
            } else {
                SendProgress::Continue(len)
            }
        },
    }
}

/// `std::io::Error::from(std::io::ErrorKind::BrokenPipe)`. Nothing is stated of
/// the error value (its kind is `BrokenPipe`, which this crate does not model).
#[verifier::external_body]
fn broken_pipe() -> std::io::Error {
    std::io::Error::from(std::io::ErrorKind::BrokenPipe)
}

/// Where a send of `len` bytes that stood at `pos` stands after the transmitter
/// answered `reply` to an offer of the rest: the bytes it took move the position
/// on (never past the end); any other answer leaves it.
pub open spec fn sent_step(pos: nat, len: nat, reply: Poll<Result<usize, FusoError>>) -> nat {
    match reply {
        Poll::Ready(Ok(n)) => if n > 0 && pos + n < len {
            (pos + n) as nat
        } else if n > 0 {
            len
        } else {
            pos
        },
        _ => pos,
    }
}

/// Where a send of `len` bytes that stood at `pos` stands after these answers, in order.
pub open spec fn sent_after(pos: nat, len: nat, replies: Seq<Poll<Result<usize, FusoError>>>) -> nat
    decreases replies.len(),
{
    if replies.len() == 0 {
        pos
    } else {
        sent_step(sent_after(pos, len, replies.drop_last()), len, replies.last())
    }
}

/// Whether the transmitter took at least one byte.
pub open spec fn took_bytes(reply: Poll<Result<usize, FusoError>>) -> bool {
    reply matches Poll::Ready(Ok(n)) && n > 0
}

/// The answers of the transmitter to a run of offers.
pub open spec fn replies_of(offers: Seq<(Seq<u8>, Poll<Result<usize, FusoError>>)>) -> Seq<Poll<Result<usize, FusoError>>> {
    offers.map_values(|o: (Seq<u8>, Poll<Result<usize, FusoError>>)| o.1)
}

/// Whether `fresh` is a run of offers of a send of `data` that stood at `pos`:
/// each offer is the rest of `data` from where the send stood after the answers
/// before it, and every answer but the last took at least one byte.
pub open spec fn offers_from(data: Seq<u8>, pos: nat, fresh: Seq<(Seq<u8>, Poll<Result<usize, FusoError>>)>) -> bool {
    &&& forall|i: int| 0 <= i < fresh.len() ==>
        (#[trigger] fresh[i]).0 == data.skip(sent_after(pos, data.len(), replies_of(fresh.take(i))) as int)
    &&& forall|i: int| 0 <= i < fresh.len() - 1 ==> took_bytes((#[trigger] fresh[i]).1)
}

/// Whether one poll of a send of `data` that stood at `pos` made the offers
/// `fresh`, ended at `end` and reported `r`: nothing is offered when nothing is
/// left; otherwise the offers run until all bytes went (ready with `Ok`), the
/// transmitter makes the caller wait (pending), fails (that error), or takes no
/// byte (a broken pipe).
pub open spec fn send_all_poll(
    data: Seq<u8>,
    pos: nat,
    fresh: Seq<(Seq<u8>, Poll<Result<usize, FusoError>>)>,
    end: nat,
    r: Poll<Result<(), FusoError>>,
) -> bool {
    &&& offers_from(data, pos, fresh)
    &&& end == sent_after(pos, data.len(), replies_of(fresh))
    &&& (fresh.len() == 0 <==> pos == data.len())
    &&& (r == Poll::Ready(Ok::<(), FusoError>(())) <==> end == data.len())
    &&& fresh.len() > 0 ==> match fresh.last().1 {
        Poll::Pending => r == Poll::<Result<(), FusoError>>::Pending,
        Poll::Ready(Err(e)) => r == Poll::<Result<(), FusoError>>::Ready(Err(e)),
        Poll::Ready(Ok(n)) => if n == 0 {
            r matches Poll::Ready(Err(FusoError::StdIo(_)))
        } else {
            r == Poll::Ready(Ok::<(), FusoError>(()))
        },
    }
}

/// Whether `offers` is the whole run of offers of a send of `data` from its
/// first byte, and `sent` where it stands: each offer is the rest of `data` from
/// where the send stood after the answers before it, and `sent` is where the
/// answers so far leave it.
pub open spec fn send_state(data: Seq<u8>, offers: Seq<(Seq<u8>, Poll<Result<usize, FusoError>>)>, sent: nat) -> bool {
    &&& forall|i: int| 0 <= i < offers.len() ==>
        (#[trigger] offers[i]).0 == data.skip(sent_after(0, data.len(), replies_of(offers.take(i))) as int)
    &&& sent == sent_after(0, data.len(), replies_of(offers))
}

/// How many bytes of an offer the transmitter took: what its answer says, never
/// more than was offered; none when it did not take any.
pub open spec fn took(offer: (Seq<u8>, Poll<Result<usize, FusoError>>)) -> nat {
    match offer.1 {
        Poll::Ready(Ok(n)) => if n > 0 && n < offer.0.len() { n as nat } else if n > 0 { offer.0.len() } else { 0 },
        _ => 0,
    }
}

/// The bytes the transmitter took over a run of offers, in order.
pub open spec fn taken_bytes(offers: Seq<(Seq<u8>, Poll<Result<usize, FusoError>>)>) -> Seq<u8>
    decreases offers.len(),
{
    if offers.len() == 0 {
        Seq::empty()
    } else {
        taken_bytes(offers.drop_last()) + offers.last().0.take(took(offers.last()) as int)
    }
}

/// Sending all of a buffer sends every byte once, in order, over all its polls:
/// the bytes the transmitter took so far are exactly the front of the data up
/// to where the send stands, so when it is done they are the data itself.
pub proof fn law_taken_bytes_are_the_data(data: Seq<u8>, offers: Seq<(Seq<u8>, Poll<Result<usize, FusoError>>)>, sent: nat)
    requires
        send_state(data, offers, sent),
    ensures
        sent <= data.len(),
        taken_bytes(offers) == data.take(sent as int),
    decreases offers.len(),
{
    if offers.len() == 0 {
        assert(data.take(0) =~= Seq::<u8>::empty());
    } else {
        let prev = offers.drop_last();
        let n = offers.len() - 1;
        let p = sent_after(0, data.len(), replies_of(prev));
        assert(replies_of(offers).drop_last() =~= replies_of(prev));
        assert forall|i: int| 0 <= i < prev.len() implies
            (#[trigger] prev[i]).0 == data.skip(sent_after(0, data.len(), replies_of(prev.take(i))) as int) by {
            assert(prev.take(i) =~= offers.take(i));
            assert(prev[i] == offers[i]);
        }
        law_taken_bytes_are_the_data(data, prev, p);
        assert(offers.take(n) =~= prev);
        let last = offers[n];
        assert(last.0 == data.skip(p as int));
        assert(sent == sent_step(p, data.len(), last.1));
        assert(data.take(p as int) + data.skip(p as int).take(took(last) as int) =~= data.take(sent as int));
    }
}

/// Adding an offer to a run: the runs before it stay as they were.
pub(crate) proof fn lemma_offer_pushed(
    offers: Seq<(Seq<u8>, Poll<Result<usize, FusoError>>)>,
    b: int,
    e: (Seq<u8>, Poll<Result<usize, FusoError>>),
)
    requires
        0 <= b <= offers.len(),
    ensures
        offers.push(e).skip(b) == offers.skip(b).push(e),
        offers.push(e).take(b) == offers.take(b),
        replies_of(offers.skip(b).push(e)).drop_last() == replies_of(offers.skip(b)),
        replies_of(offers.skip(b).push(e)).last() == e.1,
        forall|i: int| 0 <= i <= offers.len() - b ==> #[trigger] offers.skip(b).push(e).take(i) == offers.skip(b).take(i),
{
    assert(offers.push(e).skip(b) =~= offers.skip(b).push(e));
    assert(offers.push(e).take(b) =~= offers.take(b));
    assert(replies_of(offers.skip(b).push(e)).drop_last() =~= replies_of(offers.skip(b)));
    assert forall|i: int| 0 <= i <= offers.len() - b implies #[trigger] offers.skip(b).push(e).take(i) == offers.skip(b).take(i) by {
        assert(offers.skip(b).push(e).take(i) =~= offers.skip(b).take(i));
    }
}

impl<'t, T: Transmitter> TransmitSend<'t, T> {
    /// The bytes to send.
    pub closed spec fn data(&self) -> Seq<u8> {
        self.data@
    }

    /// The transmitter they go through.
    pub closed spec fn transmitter(&self) -> T {
        *self.transmitter
    }

    /// Every offer made to the transmitter so far, in order, with its answer.
    pub closed spec fn offers(&self) -> Seq<(Seq<u8>, Poll<Result<usize, FusoError>>)> {
        self.offers@
    }

    /// One attempt to send the bytes: all of them are offered to the transmitter,
    /// once, and its answer (how many went) is passed on.
    pub fn poll(&mut self, cx: &mut std::task::Context<'_>) -> (r: Poll<Result<usize, FusoError>>)
        ensures
            final(self).data() == old(self).data(),
            final(self).offers() == old(self).offers().push((old(self).data(), r)),
    {
        send_recorded(self.transmitter, cx, self.data, &mut self.offers)
    }
}

impl<'t, T: Transmitter> TransmitSendAll<'t, T> {
    /// The bytes to send.
    pub closed spec fn data(&self) -> Seq<u8> {
        self.data@
    }

    /// The transmitter they go through.
    pub closed spec fn transmitter(&self) -> T {
        *self.transmitter
    }

    /// How many of them went already.
    pub closed spec fn sent(&self) -> nat {
        self.pos as nat
    }

    /// Every offer made to the transmitter so far, in order, with its answer.
    pub closed spec fn offers(&self) -> Seq<(Seq<u8>, Poll<Result<usize, FusoError>>)> {
        self.offers@
    }

    /// Sends the bytes not sent yet, each attempt offering the rest from the first
    /// unsent byte, until all went, the transmitter makes the caller wait, fails,
    /// or takes no byte (a broken pipe). Ready with `Ok` only when every byte went;
    /// a later poll goes on from where this one stopped.
    pub fn poll(&mut self, cx: &mut std::task::Context<'_>) -> (r: Poll<Result<(), FusoError>>)
        requires
            old(self).sent() <= old(self).data().len(),
        ensures
            final(self).data() == old(self).data(),
            old(self).sent() <= final(self).sent() <= final(self).data().len(),
            old(self).offers().len() <= final(self).offers().len(),
            final(self).offers().take(old(self).offers().len() as int) == old(self).offers(),
            send_all_poll(old(self).data(), old(self).sent(), final(self).offers().skip(old(self).offers().len() as int), final(self).sent(), r),
            send_state(old(self).data(), old(self).offers(), old(self).sent()) ==> send_state(final(self).data(), final(self).offers(), final(self).sent()),
    {
        let ghost tracked0 = send_state(self.data@, self.offers@, self.pos as nat);
        let ghost before = self.offers@;
        let ghost b = before.len() as int;
        let ghost start = self.pos as nat;
        let ghost len = self.data@.len();
        while self.pos < self.data.len()
            invariant
                self.data@ == old(self).data@,
                len == self.data@.len(),
                start == old(self).pos,
                old(self).pos <= self.pos <= self.data@.len(),
                before == old(self).offers@,
                b == before.len(),
                b <= self.offers@.len(),
                self.offers@.take(b) == before,
                offers_from(self.data@, start, self.offers@.skip(b)),
                forall|i: int| 0 <= i < self.offers@.skip(b).len() ==> took_bytes((#[trigger] self.offers@.skip(b)[i]).1),
                self.pos == sent_after(start, len, replies_of(self.offers@.skip(b))),
                self.offers@.len() > b ==> start < len,
                tracked0 == send_state(old(self).data@, old(self).offers@, old(self).pos as nat),
                tracked0 ==> send_state(self.data@, self.offers@, self.pos as nat),
            decreases self.data@.len() - self.pos,
        {
            let rest = vstd::slice::slice_subrange(self.data, self.pos, self.data.len());
            let ghost offers0 = self.offers@;
            let polled = send_recorded(self.transmitter, cx, rest, &mut self.offers);
            proof {
                let e = (rest@, polled);
                lemma_offer_pushed(offers0, b, e);
                assert(rest@ =~= self.data@.skip(self.pos as int));
                let fresh = self.offers@.skip(b);
                assert(fresh.take(fresh.len() - 1) == offers0.skip(b));
                assert forall|i: int| 0 <= i < fresh.len() implies
                    (#[trigger] fresh[i]).0 == self.data@.skip(sent_after(start, len, replies_of(fresh.take(i))) as int) by {
                    if i < fresh.len() - 1 {
                        assert(fresh[i] == offers0.skip(b)[i]);
                    }
                }
                if tracked0 {
                    let all = self.offers@;
                    assert(replies_of(all).drop_last() =~= replies_of(offers0));
                    assert forall|i: int| 0 <= i < all.len() implies
                        (#[trigger] all[i]).0 == self.data@.skip(sent_after(0, len, replies_of(all.take(i))) as int) by {
                        if i < offers0.len() {
                            assert(all.take(i) =~= offers0.take(i));
                            assert(all[i] == offers0[i]);
                        } else {
                            assert(all.take(i) =~= offers0);
                        }
                    }
                }
            }
            match send_progress(self.pos, self.data.len(), polled) {
                SendProgress::Continue(p) => {
                    self.pos = p;
                },
                SendProgress::Stop(r) => {
                    return r;
                },
            }
        }
        Poll::Ready(Ok(()))
    }
}

} // verus!
