use rc4::{KeyInit, Rc4, StreamCipher};
use vstd::prelude::*;

use crate::connector::{connect_recorded, Connector};
use crate::error::FusoError;
use crate::poll::Poll;
use crate::transfer::{
    law_taken_bytes_are_the_data, lemma_offer_pushed, offers_from, replies_of, send_state, taken_bytes, send_progress, sent_after, took_bytes, AbstractTransmitter, SendProgress,
    Transmitter,
};

verus! {

/// The RC4 keystream of `len` bytes for `key`.
pub uninterp spec fn rc4_keystream(key: Seq<u8>, len: nat) -> Seq<u8>;

/// `Rc4::new(key).apply_keystream(data)` from the `rc4` crate: every byte of
/// `data` is XORed with the byte at the same place of the keystream for `key`.
#[verifier::external_body]
fn rc4_apply_keystream(key: &[u8; 16], data: &mut [u8])
    ensures
        final(data)@.len() == old(data)@.len(),
        forall|i: int| 0 <= i < old(data)@.len() ==>
            #[trigger] final(data)@[i] == (old(data)@[i] ^ rc4_keystream(key@, old(data)@.len())[i]),
{
    let mut cipher = Rc4::<rc4::consts::U16>::new(key.into());
    cipher.apply_keystream(data)
}

/// The little-endian bytes of a 32-bit number.
pub open spec fn le_u32(m: u32) -> Seq<u8> {
    seq![(m % 0x100) as u8, ((m / 0x100) % 0x100) as u8, ((m / 0x1_0000) % 0x100) as u8, (m / 0x100_0000) as u8]
}

/// The prefix by which a mux connection introduces itself: the magic number in
/// little-endian bytes, encrypted with RC4 under the secret.
pub open spec fn spec_prefix(magic: u32, secret: Seq<u8>) -> Seq<u8> {
    Seq::new(4, |i: int| le_u32(magic)[i] ^ rc4_keystream(secret, 4)[i])
}

/// The magic number and secret that a mux connection starts with.
pub struct MuxConfig {
    pub magic: u32,
    pub secret: [u8; 16],
}

impl MuxConfig {
    /// The bytes a mux connection starts with.
    pub fn prefix(&self) -> (r: [u8; 4])
        ensures
            r@ == spec_prefix(self.magic, self.secret@),
    {
        let m = self.magic;
        let mut bytes: [u8; 4] = [(m % 0x100) as u8, ((m / 0x100) % 0x100) as u8, ((m / 0x1_0000) % 0x100) as u8, (m / 0x100_0000) as u8];
        assert(bytes@ =~= le_u32(m));
        rc4_apply_keystream(&self.secret, &mut bytes);
        assert(bytes@ =~= spec_prefix(self.magic, self.secret@));
        bytes
    }
}

/// A connector that, once its inner connector delivers a transmitter, sends the
/// mux prefix through it before handing it out.
pub struct MuxConnector<'connector, T, C> {
    conf: MuxConfig,
    inner: C,
    sending: Option<(AbstractTransmitter<'connector>, [u8; 4], usize)>,
    connects: Ghost<Seq<(T, Poll<Result<AbstractTransmitter<'connector>, FusoError>>)>>,
    offers: Ghost<Seq<(Seq<u8>, Poll<Result<usize, FusoError>>)>>,
    mark: Ghost<nat>,
}

/// The transmitter the last of these connection answers delivered, if it delivered one.
pub open spec fn delivered<T, O>(connects: Seq<(T, Poll<Result<O, FusoError>>)>) -> Option<O> {
    if connects.len() == 0 {
        None
    } else {
        match connects.last().1 {
            Poll::Ready(Ok(o)) => Some(o),
            _ => None,
        }
    }
}

impl<'connector, T, C> MuxConnector<'connector, T, C> {
    /// The configuration.
    pub closed spec fn conf(&self) -> MuxConfig {
        self.conf
    }

    /// The inner connector.
    pub closed spec fn inner(&self) -> C {
        self.inner
    }

    /// Whether a transmitter is being introduced.
    pub closed spec fn introducing(&self) -> bool {
        self.sending is Some
    }

    /// How many bytes of the prefix went to the transmitter being introduced.
    pub closed spec fn prefix_sent(&self) -> nat {
        match self.sending {
            Some((_, _, pos)) => pos as nat,
            None => 0,
        }
    }

    /// Every poll of the inner connector so far, in order: the target handed to
    /// it and its answer, with the transmitter it delivered.
    pub closed spec fn connects(&self) -> Seq<(T, Poll<Result<AbstractTransmitter<'connector>, FusoError>>)> {
        self.connects@
    }

    /// Every offer of prefix bytes to a transmitter so far, in order, with its answer.
    pub closed spec fn offers(&self) -> Seq<(Seq<u8>, Poll<Result<usize, FusoError>>)> {
        self.offers@
    }

    /// Where, among the offers, those to the last transmitter delivered start.
    pub closed spec fn mark(&self) -> nat {
        self.mark@
    }

    /// A transmitter being introduced is the one the inner connector delivered
    /// last, as it was then but for the prefix offers made to it since, which
    /// are the offers from the mark on; they offered the prefix of the
    /// configuration from its first byte, and fewer than all four bytes went.
    pub closed spec fn wf(&self) -> bool {
        &&& self.mark@ <= self.offers@.len()
        &&& match self.sending {
            Some((t, prefix, pos)) => {
                &&& prefix@ == spec_prefix(self.conf.magic, self.conf.secret@)
                &&& pos < 4
                &&& delivered(self.connects@) is Some
                &&& t.sends() == delivered(self.connects@)->0.sends() + self.offers@.skip(self.mark@ as int)
                &&& t.recvs() == delivered(self.connects@)->0.recvs()
                &&& send_state(prefix@, self.offers@.skip(self.mark@ as int), pos as nat)
            },
            None => true,
        }
    }

    /// A mux connector over `connector`.
    pub fn new(conf: MuxConfig, connector: C) -> (r: Self)
        ensures
            r.conf() == conf,
            r.inner() == connector,
            !r.introducing(),
            r.wf(),
            r.connects() == Seq::<(T, Poll<Result<AbstractTransmitter<'connector>, FusoError>>)>::empty(),
            r.offers() == Seq::<(Seq<u8>, Poll<Result<usize, FusoError>>)>::empty(),
    {
        MuxConnector {
            conf,
            inner: connector,
            sending: None,
            connects: Ghost(Seq::empty()),
            offers: Ghost(Seq::empty()),
            mark: Ghost(0),
        }
    }
}

impl<'connector, T, C: Connector<T, AbstractTransmitter<'connector>>> Connector<T, AbstractTransmitter<'connector>> for MuxConnector<'connector, T, C> {
    /// Connects through the inner connector with the same target, then offers the
    /// prefix of the configuration to the transmitter it delivered, each time the
    /// rest from the first byte not yet taken (resuming where it stopped when the
    /// transmitter made it wait), and hands that transmitter out once all four
    /// bytes went. An error of either step ends the attempt, and a transmitter
    /// that takes no byte is a broken pipe. The inner connector is not polled
    /// while a transmitter is being introduced.
    fn poll_connect(&mut self, cx: &mut std::task::Context<'_>, target: &T) -> (r: Poll<Result<AbstractTransmitter<'connector>, FusoError>>)
        ensures
            final(self).conf() == old(self).conf(),
            old(self).wf() ==> final(self).wf(),
            old(self).introducing() ==> final(self).connects() == old(self).connects(),
            !old(self).introducing() ==> final(self).connects().len() == old(self).connects().len() + 1
                && final(self).connects().drop_last() == old(self).connects()
                && final(self).connects().last().0 == *target,
            !old(self).introducing() && delivered(final(self).connects()) is None ==>
                final(self).offers() == old(self).offers() && !final(self).introducing() && match final(self).connects().last().1 {
                    Poll::Ready(Err(e)) => r == Poll::<Result<AbstractTransmitter<'connector>, FusoError>>::Ready(Err(e)),
                    _ => r is Pending,
                },
            old(self).offers().len() <= final(self).offers().len(),
            final(self).offers().take(old(self).offers().len() as int) == old(self).offers(),
            old(self).wf() ==> offers_from(
                spec_prefix(old(self).conf().magic, old(self).conf().secret@),
                old(self).prefix_sent(),
                final(self).offers().skip(old(self).offers().len() as int),
            ),
            final(self).introducing() ==> r is Pending
                && final(self).prefix_sent() == sent_after(old(self).prefix_sent(), 4, replies_of(final(self).offers().skip(old(self).offers().len() as int))),
            r is Ready && r->0 is Ok ==> !final(self).introducing()
                && (old(self).introducing() || delivered(final(self).connects()) is Some)
                && (old(self).wf() ==> final(self).offers().len() > old(self).offers().len()
                    && sent_after(old(self).prefix_sent(), 4, replies_of(final(self).offers().skip(old(self).offers().len() as int))) == 4),
            r matches Poll::Ready(Ok(t)) ==> old(self).wf() ==> {
                &&& delivered(final(self).connects()) is Some
                &&& final(self).mark() <= final(self).offers().len()
                &&& t.sends() == delivered(final(self).connects())->0.sends() + final(self).offers().skip(final(self).mark() as int)
                &&& t.recvs() == delivered(final(self).connects())->0.recvs()
                &&& send_state(spec_prefix(old(self).conf().magic, old(self).conf().secret@), final(self).offers().skip(final(self).mark() as int), 4)
                &&& taken_bytes(final(self).offers().skip(final(self).mark() as int)) == spec_prefix(old(self).conf().magic, old(self).conf().secret@)
            },
            final(self).offers().len() > old(self).offers().len() ==> match final(self).offers().last().1 {
                Poll::Pending => r is Pending && final(self).introducing(),
                Poll::Ready(Err(e)) => r == Poll::<Result<AbstractTransmitter<'connector>, FusoError>>::Ready(Err(e)) && !final(self).introducing(),
                Poll::Ready(Ok(n)) => if n == 0 {
                    r matches Poll::Ready(Err(FusoError::StdIo(_))) && !final(self).introducing()
                } else {
                    r is Ready && r->0 is Ok
                },
            },
    {
        let ghost was_introducing = self.sending is Some;
        let ghost start = self.prefix_sent();
        let ghost before = self.offers@;
        let ghost b = before.len() as int;
        let ghost wfp = old(self).wf();
        if self.sending.is_none() {
            match connect_recorded(&mut self.inner, cx, target, &mut self.connects) {
                Poll::Pending => {
                    return Poll::Pending;
                },
                Poll::Ready(Err(e)) => {
                    return Poll::Ready(Err(e));
                },
                Poll::Ready(Ok(transmitter)) => {
                    let prefix = self.conf.prefix();
                    proof {
                        assert(self.connects@.drop_last() =~= old(self).connects@);
                        self.mark@ = self.offers@.len();
                        assert(self.offers@.skip(self.mark@ as int) =~= Seq::<(Seq<u8>, Poll<Result<usize, FusoError>>)>::empty());
                        assert(transmitter.sends() + Seq::<(Seq<u8>, Poll<Result<usize, FusoError>>)>::empty() =~= transmitter.sends());
                    }
                    self.sending = Some((transmitter, prefix, 0));
                },
            }
        }
        assert(wfp ==> self.wf());
        let ghost connects = self.connects@;
        let ghost m = self.mark@;
        let ghost d = delivered(self.connects@)->0;
        match self.sending.take() {
            None => Poll::Pending,
            Some((transmitter, prefix, pos)) => {
                let mut transmitter = transmitter;
                let mut pos = pos;
                assert(self.offers@.skip(b) =~= Seq::<(Seq<u8>, Poll<Result<usize, FusoError>>)>::empty());
                assert(self.offers@.take(b) =~= before);
                while pos < 4
                    invariant
                        self.conf == old(self).conf,
                        self.sending is None,
                        self.connects@ == connects,
                        self.mark@ == m,
                        was_introducing == old(self).introducing(),
                        was_introducing ==> connects == old(self).connects@,
                        !was_introducing ==> connects.len() == old(self).connects@.len() + 1
                            && connects.drop_last() == old(self).connects@
                            && connects.last().0 == *target
                            && delivered(connects) is Some,
                        start == old(self).prefix_sent(),
                        before == old(self).offers@,
                        b == before.len(),
                        b <= self.offers@.len(),
                        self.offers@.take(b) == before,
                        wfp == old(self).wf(),
                        wfp ==> prefix@ == spec_prefix(old(self).conf.magic, old(self).conf.secret@) && start < 4,
                        wfp ==> pos <= 4,
                        wfp ==> m <= b && delivered(connects) == Some(d),
                        wfp ==> transmitter.sends() == d.sends() + self.offers@.skip(m as int),
                        wfp ==> transmitter.recvs() == d.recvs(),
                        wfp ==> send_state(prefix@, self.offers@.skip(m as int), pos as nat),
                        start <= pos,
                        offers_from(prefix@, start, self.offers@.skip(b)),
                        forall|i: int| 0 <= i < self.offers@.skip(b).len() ==> took_bytes((#[trigger] self.offers@.skip(b)[i]).1),
                        pos == sent_after(start, 4, replies_of(self.offers@.skip(b))),
                    decreases 4 - pos as int,
                {
                    let rest = vstd::slice::slice_subrange(prefix.as_slice(), pos, 4);
                    let ghost offers0 = self.offers@;
                    let ghost sends0 = transmitter.sends();
                    let polled = transmitter.poll_send(cx, rest);
                    proof {
                        let e = (rest@, polled);
                        self.offers@ = offers0.push(e);
                        lemma_offer_pushed(offers0, b, e);
                        assert(rest@ =~= prefix@.skip(pos as int));
                        let fresh = self.offers@.skip(b);
                        assert(fresh.take(fresh.len() - 1) == offers0.skip(b));
                        assert forall|i: int| 0 <= i < fresh.len() implies
                            (#[trigger] fresh[i]).0 == prefix@.skip(sent_after(start, 4, replies_of(fresh.take(i))) as int) by {
                            if i < fresh.len() - 1 {
                                assert(fresh[i] == offers0.skip(b)[i]);
                            }
                        }
                        if wfp {
                            lemma_offer_pushed(offers0, m as int, e);
                            let all0 = offers0.skip(m as int);
                            let all = self.offers@.skip(m as int);
                            assert(all == all0.push(e));
                            assert(transmitter.sends() =~= d.sends() + all);
                            assert(replies_of(all).drop_last() =~= replies_of(all0));
                            assert forall|i: int| 0 <= i < all.len() implies
                                (#[trigger] all[i]).0 == prefix@.skip(sent_after(0, prefix@.len(), replies_of(all.take(i))) as int) by {
                                if i < all0.len() {
                                    assert(all.take(i) =~= all0.take(i));
                                    assert(all[i] == all0[i]);
                                } else {
                                    assert(all.take(i) =~= all0);
                                }
                            }
                        }
                    }
                    match send_progress(pos, 4, polled) {
                        SendProgress::Continue(p) => {
                            pos = p;
                        },
                        SendProgress::Stop(Poll::Pending) => {
                            self.sending = Some((transmitter, prefix, pos));
                            return Poll::Pending;
                        },
                        SendProgress::Stop(Poll::Ready(Err(e))) => {
                            return Poll::Ready(Err(e));
                        },
                        SendProgress::Stop(Poll::Ready(Ok(()))) => {
                            pos = 4;
                        },
                    }
                }
                proof {
                    if wfp {
                        law_taken_bytes_are_the_data(prefix@, self.offers@.skip(m as int), 4);
                        assert(prefix@.take(4) =~= prefix@);
                    }
                }
                Poll::Ready(Ok(transmitter))
            },
        }
    }
}

/// Accepts connections that introduce themselves with a mux prefix.
pub struct MuxAccepter<A> {
    magic: u32,
    secret: [u8; 16],
    accepter: A,
}

impl<A> MuxAccepter<A> {
    /// The magic number expected.
    pub closed spec fn magic(&self) -> u32 {
        self.magic
    }

    /// The secret expected.
    pub closed spec fn secret(&self) -> [u8; 16] {
        self.secret
    }

    /// The accepter connections come from.
    pub closed spec fn accepter(&self) -> A {
        self.accepter
    }

    /// A mux accepter over `accepter` for this magic number and secret.
    pub fn new(magic: u32, secret: [u8; 16], accepter: A) -> (r: Self)
        ensures
            r.magic() == magic,
            r.secret() == secret,
            r.accepter() == accepter,
    {
        MuxAccepter { magic, secret, accepter }
    }
}

/// The mux prefix hides the magic number reversibly: XORing it with the same
/// keystream gives back the magic number's little-endian bytes.
pub proof fn law_prefix_reveals_magic(magic: u32, secret: Seq<u8>)
    ensures
        forall|i: int| 0 <= i < 4 ==> #[trigger] (spec_prefix(magic, secret)[i] ^ rc4_keystream(secret, 4)[i]) == le_u32(magic)[i],
{
    assert forall|i: int| 0 <= i < 4 implies #[trigger] (spec_prefix(magic, secret)[i] ^ rc4_keystream(secret, 4)[i]) == le_u32(magic)[i] by {
        let a = le_u32(magic)[i];
        let k = rc4_keystream(secret, 4)[i];
        assert((a ^ k) ^ k == a) by (bit_vector);
    }
}

} // verus!
