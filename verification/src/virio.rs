use std::collections::VecDeque;

use vstd::prelude::*;

use crate::error::FusoError;
use crate::poll::Poll;

verus! {

broadcast use vstd::std_specs::vecdeque::group_vec_dequeue_axioms;

/// How many chunks a buffer queues before writers must wait.
pub const MAX_CHUNKS: usize = 5;

/// The bytes of `chunks`, in order.
pub open spec fn stream_of(chunks: Seq<Seq<u8>>) -> Seq<u8> {
    chunks.flatten()
}

/// What `fill` does, step by step: starting at offset `off` of `buf`, chunks are
/// taken from the front and copied in while there is room. A chunk that does not
/// fit is copied as far as it goes, and then the tail of `buf` from the number of
/// bytes copied out of that chunk is put back at the front of the queue.
/// The result is the chunks left, the buffer and the offset reached.
pub open spec fn fill_model(chunks: Seq<Seq<u8>>, buf: Seq<u8>, off: nat) -> (Seq<Seq<u8>>, Seq<u8>, nat)
    decreases chunks.len(),
{
    if off >= buf.len() || chunks.len() == 0 {
        (chunks, buf, off)
    } else {
        let d = chunks[0];
        let room = (buf.len() - off) as nat;
        let n: nat = if d.len() < room { d.len() } else { room };
        let buf2 = buf.take(off as int) + d.take(n as int) + buf.skip((off + n) as int);
        if n < d.len() {
            (seq![buf2.skip(n as int)] + chunks.skip(1), buf2, off + n)
        } else {
            fill_model(chunks.skip(1), buf2, off + n)
        }
    }
}

/// How many bytes a read into a buffer of `len` bytes copies out of `chunks`.
pub open spec fn fill_count(chunks: Seq<Seq<u8>>, len: nat) -> nat {
    let s = stream_of(chunks).len();
    if len <= s { len } else { s }
}

/// Reading `room` bytes takes only whole chunks: the room ends at a chunk boundary
/// or after the last chunk.
pub open spec fn fits_whole(chunks: Seq<Seq<u8>>, room: nat) -> bool
    decreases chunks.len(),
{
    if room == 0 || chunks.len() == 0 {
        true
    } else {
        chunks[0].len() <= room && fits_whole(chunks.skip(1), (room - chunks[0].len()) as nat)
    }
}

/// The queue of chunks behind one direction of an in-memory duplex stream.
pub struct Container {
    total: usize,
    maxbuf: usize,
    buffer: VecDeque<Vec<u8>>,
}

impl Container {
    /// The queued chunks, front first.
    pub closed spec fn chunks(&self) -> Seq<Seq<u8>> {
        self.buffer@.map_values(|v: Vec<u8>| v@)
    }

    /// The count of unread bytes that the container keeps.
    pub closed spec fn total(&self) -> nat {
        self.total as nat
    }

    /// How many chunks may be queued before writers wait.
    pub closed spec fn maxbuf(&self) -> nat {
        self.maxbuf as nat
    }

    /// The count agrees with the queued bytes.
    pub open spec fn wf(&self) -> bool {
        self.total() == stream_of(self.chunks()).len()
    }

    /// Whether a writer may queue another chunk.
    pub fn can_fill(&self) -> (r: bool)
        ensures
            r == (self.chunks().len() < self.maxbuf()),
    {
        self.buffer.len() < self.maxbuf
    }

    /// How many bytes the queued chunks hold (capped at `usize::MAX`).
    pub fn buffered_len(&self) -> (n: usize)
        ensures
            n == if stream_of(self.chunks()).len() <= usize::MAX { stream_of(self.chunks()).len() } else { usize::MAX as nat },
    {
        let mut n: usize = 0;
        let mut i: usize = 0;
        let ghost cs = self.chunks();
        while i < self.buffer.len()
            invariant
                cs == self.chunks(),
                0 <= i <= cs.len(),
                n == if stream_of(cs.take(i as int)).len() <= usize::MAX { stream_of(cs.take(i as int)).len() } else { usize::MAX as nat },
            decreases cs.len() - i,
        {
            proof {
                lemma_flatten_take_step(cs, i as int);
            }
            let l = self.buffer[i].len();
            n = if n <= usize::MAX - l { n + l } else { usize::MAX };
            i = i + 1;
        }
        proof {
            assert(cs.take(cs.len() as int) =~= cs);
        }
        n
    }

    /// Whether the count of unread bytes can grow by `n`.
    pub fn can_count(&self, n: usize) -> (r: bool)
        ensures
            r == (self.total() + n <= usize::MAX),
    {
        n <= usize::MAX - self.total
    }

    /// Whether a read into `buf` keeps the count of unread bytes from going
    /// below zero.
    pub fn can_read_into(&self, buf: &[u8]) -> (r: bool)
        ensures
            r == (self.total() == 0 || fill_count(self.chunks(), buf@.len()) <= self.total()),
    {
        let queued = self.buffered_len();
        let n = if buf.len() < queued { buf.len() } else { queued };
        self.total == 0 || n <= self.total
    }

    /// Copies queued bytes into `buf` and returns how many were copied; it never
    /// fails. The front of the queued stream goes to the front of `buf`, as much
    /// as fits, and the rest of `buf` stays as it was; when the copy takes whole
    /// chunks only, exactly the bytes not copied stay queued. (A chunk that does
    /// not fit is put back as `fill_model` says.)
    pub fn fill(&mut self, buf: &mut [u8]) -> (r: Result<usize, FusoError>)
        ensures
            ({
                let m = fill_model(old(self).chunks(), old(buf)@, 0);
                &&& final(self).chunks() == m.0
                &&& final(buf)@ == m.1
                &&& r == Ok::<usize, FusoError>(m.2 as usize)
            }),
            ({
                let s = stream_of(old(self).chunks());
                let n = if old(buf)@.len() <= s.len() { old(buf)@.len() } else { s.len() };
                &&& r == Ok::<usize, FusoError>(n as usize)
                &&& final(buf)@.len() == old(buf)@.len()
                &&& final(buf)@.take(n as int) == s.take(n as int)
                &&& final(buf)@.skip(n as int) == old(buf)@.skip(n as int)
                &&& fits_whole(old(self).chunks(), old(buf)@.len()) ==> stream_of(final(self).chunks()) == s.skip(n as int)
            }),
            final(self).total() == old(self).total(),
            final(self).maxbuf() == old(self).maxbuf(),
    {
        proof {
            lemma_fill_copies_prefix(self.chunks(), buf@, 0);
            let m = fill_model(self.chunks(), buf@, 0);
            assert(m.1.take(m.2 as int) =~= m.1.subrange(0, m.2 as int));
        }
        let ghost goal = fill_model(self.chunks(), buf@, 0);
        let mut off: usize = 0;
        while off < buf.len()
            invariant_except_break
                fill_model(self.chunks(), buf@, off as nat) == goal,
                off <= buf@.len(),
                buf@.len() == old(buf)@.len(),
                self.total() == old(self).total(),
                self.maxbuf() == old(self).maxbuf(),
            ensures
                self.chunks() == goal.0,
                buf@ == goal.1,
                off == goal.2,
                self.total() == old(self).total(),
                self.maxbuf() == old(self).maxbuf(),
            decreases buf@.len() - off, self.chunks().len(),
        {
            let ghost cs = self.chunks();
            let ghost b0 = buf@;
            match self.buffer.pop_front() {
                None => {
                    break;
                },
                Some(data) => {
                    proof {
                        assert(self.chunks() =~= cs.skip(1));
                        assert(data@ == cs[0]);
                    }
                    let total = data.len();
                    let room = buf.len() - off;
                    let n = if total < room { total } else { room };
                    let mut j: usize = 0;
                    while j < n
                        invariant
                            0 <= j <= n,
                            n <= data@.len(),
                            off + n <= buf@.len(),
                            off + n <= buf.len(),
                            buf@.len() == b0.len(),
                            forall|k: int| 0 <= k < buf@.len() ==> buf@[k] == if off <= k < off + j { data@[k - off] } else { b0[k] },
                        decreases n - j,
                    {
                        buf[off + j] = data[j];
                        j = j + 1;
                    }
                    proof {
                        let expect = b0.take(off as int) + data@.take(n as int) + b0.skip(off + n);
                        assert(buf@ =~= expect);
                    }
                    off = off + n;
                    if n < total {
                        let rest = tail_of(buf, n);
                        self.buffer.push_front(rest);
                        proof {
                            assert(self.chunks() =~= seq![buf@.skip(n as int)] + cs.skip(1));
                        }
                    }
                },
            }
        }
        Ok(off)
    }

    /// One read: nothing queued (`total` is 0) leaves the reader waiting; otherwise
    /// queued bytes are copied into `buf` and taken off the count.
    pub fn read_step(&mut self, buf: &mut [u8]) -> (r: Poll<Result<usize, FusoError>>)
        requires
            old(self).total() == 0 || fill_count(old(self).chunks(), old(buf)@.len()) <= old(self).total(),
        ensures
            final(self).maxbuf() == old(self).maxbuf(),
            old(self).total() == 0 ==> r == Poll::<Result<usize, FusoError>>::Pending
                && final(self).chunks() == old(self).chunks() && final(self).total() == 0
                && final(buf)@ == old(buf)@,
            old(self).total() != 0 ==> ({
                let m = fill_model(old(self).chunks(), old(buf)@, 0);
                &&& r == Poll::Ready(Ok::<usize, FusoError>(m.2 as usize))
                &&& final(self).chunks() == m.0
                &&& final(buf)@ == m.1
                &&& final(self).total() == old(self).total() - m.2
            }),
    {
        proof {
            lemma_fill_copies_prefix(self.chunks(), buf@, 0);
        }
        if self.total == 0 {
            Poll::Pending
        } else {
            match self.fill(buf) {
                Ok(n) => {
                    self.total = self.total - n;
                    Poll::Ready(Ok(n))
                },
                Err(e) => Poll::Ready(Err(e)),
            }
        }
    }

    /// One write: with `maxbuf` chunks queued the writer waits; otherwise `data`
    /// is queued as one chunk and all of it is reported written.
    pub fn write_step(&mut self, data: &[u8]) -> (r: Poll<Result<usize, FusoError>>)
        requires
            old(self).chunks().len() < old(self).maxbuf() ==> old(self).total() + data@.len() <= usize::MAX,
        ensures
            final(self).maxbuf() == old(self).maxbuf(),
            old(self).chunks().len() >= old(self).maxbuf() ==> r == Poll::<Result<usize, FusoError>>::Pending
                && final(self).chunks() == old(self).chunks() && final(self).total() == old(self).total(),
            old(self).chunks().len() < old(self).maxbuf() ==> r == Poll::Ready(Ok::<usize, FusoError>(data@.len() as usize))
                && final(self).chunks() == old(self).chunks().push(data@)
                && final(self).total() == old(self).total() + data@.len(),
    {
        if !self.can_fill() {
            Poll::Pending
        } else {
            let chunk = vstd::slice::slice_to_vec(data);
            self.buffer.push_back(chunk);
            self.total = self.total + data.len();
            proof {
                assert(self.chunks() =~= old(self).chunks().push(data@));
            }
            Poll::Ready(Ok(data.len()))
        }
    }
}

impl Default for Container {
    /// An empty container that queues up to five chunks.
    fn default() -> (r: Self)
        ensures
            r.chunks() == Seq::<Seq<u8>>::empty(),
            r.total() == 0,
            r.maxbuf() == MAX_CHUNKS,
    {
        let r = Container { total: 0, maxbuf: MAX_CHUNKS, buffer: VecDeque::new() };
        proof {
            assert(r.chunks() =~= Seq::<Seq<u8>>::empty());
        }
        r
    }
}

/// The bytes of `buf` from `from` on, as a new vector.
fn tail_of(buf: &[u8], from: usize) -> (r: Vec<u8>)
    requires
        from <= buf@.len(),
    ensures
        r@ == buf@.skip(from as int),
{
    let mut r: Vec<u8> = Vec::new();
    let mut i = from;
    while i < buf.len()
        invariant
            from <= i <= buf@.len(),
            r@ == buf@.subrange(from as int, i as int),
        decreases buf@.len() - i,
    {
        r.push(buf[i]);
        i = i + 1;
        proof {
            assert(r@ =~= buf@.subrange(from as int, i as int));
        }
    }
    proof {
        assert(buf@.subrange(from as int, buf@.len() as int) =~= buf@.skip(from as int));
    }
    r
}

proof fn lemma_flatten_take_step(cs: Seq<Seq<u8>>, i: int)
    requires
        0 <= i < cs.len(),
    ensures
        stream_of(cs.take(i + 1)).len() == stream_of(cs.take(i)).len() + cs[i].len(),
{
    assert(cs.take(i + 1) =~= cs.take(i).push(cs[i]));
    cs.take(i).lemma_flatten_and_flatten_alt_are_equivalent();
    cs.take(i + 1).lemma_flatten_and_flatten_alt_are_equivalent();
    assert(cs.take(i + 1).drop_last() =~= cs.take(i));
}

proof fn lemma_stream_cons(chunks: Seq<Seq<u8>>)
    requires
        chunks.len() > 0,
    ensures
        stream_of(chunks) == chunks[0] + stream_of(chunks.skip(1)),
{
    assert(chunks.drop_first() =~= chunks.skip(1));
}

/// What one fill does to the queued stream, starting at offset `off` of `buf`:
/// it copies the next bytes of the stream, as many as fit, right after `off`,
/// leaves the rest of `buf` alone, and, when it took whole chunks only, leaves
/// exactly the bytes it did not copy queued.
pub proof fn lemma_fill_copies_prefix(chunks: Seq<Seq<u8>>, buf: Seq<u8>, off: nat)
    requires
        off <= buf.len(),
    ensures
        ({
            let m = fill_model(chunks, buf, off);
            let s = stream_of(chunks);
            &&& m.1.len() == buf.len()
            &&& m.2 == if buf.len() <= off + s.len() { buf.len() } else { off + s.len() }
            &&& m.1.take(off as int) == buf.take(off as int)
            &&& m.1.subrange(off as int, m.2 as int) == s.take(m.2 - off)
            &&& m.1.skip(m.2 as int) == buf.skip(m.2 as int)
            &&& fits_whole(chunks, (buf.len() - off) as nat) ==> stream_of(m.0) == s.skip(m.2 - off)
        }),
    decreases chunks.len(),
{
    let m = fill_model(chunks, buf, off);
    let s = stream_of(chunks);
    if off >= buf.len() {
        assert(m.1.subrange(off as int, m.2 as int) =~= s.take(m.2 - off));
        assert(s.skip(0) =~= s);
    } else if chunks.len() == 0 {
        assert(s =~= Seq::<u8>::empty());
        assert(m.1.subrange(off as int, m.2 as int) =~= s.take(m.2 - off));
        assert(s.skip(0) =~= s);
    } else {
        lemma_stream_cons(chunks);
        let d = chunks[0];
        let room = (buf.len() - off) as nat;
        let n: nat = if d.len() < room { d.len() } else { room };
        let buf2 = buf.take(off as int) + d.take(n as int) + buf.skip((off + n) as int);
        assert(buf2.len() == buf.len());
        if n < d.len() {
            assert(m.1.take(off as int) =~= buf.take(off as int));
            assert(m.1.subrange(off as int, m.2 as int) =~= s.take(m.2 - off));
            assert(m.1.skip(m.2 as int) =~= buf.skip(m.2 as int));
        } else {
            lemma_fill_copies_prefix(chunks.skip(1), buf2, off + n);
            let r = stream_of(chunks.skip(1));
            assert(m == fill_model(chunks.skip(1), buf2, off + n));
            assert(buf2.take(off as int) =~= buf.take(off as int));
            assert(m.1.take(off as int) =~= m.1.take((off + n) as int).take(off as int));
            assert(buf2.take((off + n) as int).take(off as int) =~= buf2.take(off as int));
            assert(m.1.subrange(off as int, m.2 as int) =~= m.1.subrange(off as int, (off + n) as int) + m.1.subrange((off + n) as int, m.2 as int));
            assert(m.1.subrange(off as int, (off + n) as int) =~= m.1.take((off + n) as int).subrange(off as int, (off + n) as int));
            assert(buf2.take((off + n) as int).subrange(off as int, (off + n) as int) =~= d);
            assert(s.take(m.2 - off) =~= d + r.take(m.2 - off - n));
            assert(m.1.skip(m.2 as int) =~= buf.skip(m.2 as int)) by {
                assert(buf2.skip(m.2 as int) =~= buf.skip(m.2 as int));
            }
            if fits_whole(chunks, room) {
                assert(s.skip(m.2 - off) =~= r.skip(m.2 - off - n));
            }
        }
    }
}

/// Bytes come out of a container in the order they went in: a read copies the
/// front of the queued stream, as much as fits; when it takes whole chunks only,
/// what stays queued is the rest of the stream and the count stays exact.
pub proof fn law_read_is_fifo(c: Container, buf: Seq<u8>)
    requires
        c.wf(),
        c.total() > 0,
    ensures
        ({
            let m = fill_model(c.chunks(), buf, 0);
            let s = stream_of(c.chunks());
            &&& m.2 <= c.total()
            &&& m.2 == if buf.len() <= s.len() { buf.len() } else { s.len() }
            &&& m.1.take(m.2 as int) == s.take(m.2 as int)
            &&& m.1.skip(m.2 as int) == buf.skip(m.2 as int)
            &&& fits_whole(c.chunks(), buf.len()) ==> stream_of(m.0) == s.skip(m.2 as int)
                && stream_of(m.0).len() == c.total() - m.2
        }),
{
    lemma_fill_copies_prefix(c.chunks(), buf, 0);
    let m = fill_model(c.chunks(), buf, 0);
    assert(m.1.take(m.2 as int) =~= m.1.subrange(0, m.2 as int));
}

/// A write appends its bytes to the end of the queued stream.
pub proof fn law_write_appends(chunks: Seq<Seq<u8>>, data: Seq<u8>)
    ensures
        stream_of(chunks.push(data)) == stream_of(chunks) + data,
{
    chunks.lemma_flatten_and_flatten_alt_are_equivalent();
    chunks.push(data).lemma_flatten_and_flatten_alt_are_equivalent();
    assert(chunks.push(data).drop_last() =~= chunks);
}

} // verus!
