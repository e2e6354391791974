use std::task::{Context, Waker};

use fuso::error::FusoError;
use fuso::poll::Poll;
use fuso::transfer::{send_progress, AbstractTransmitter, SendProgress, Transmitter, TransmitterExt};

/// Takes at most `chunk` bytes per send, pending every other call when `stall`.
struct Sink {
    got: Vec<u8>,
    chunk: usize,
    stall: bool,
    flip: bool,
    zero: bool,
}

impl Transmitter for Sink {
    fn poll_send(&mut self, _: &mut Context<'_>, buf: &[u8]) -> Poll<Result<usize, FusoError>> {
        if self.zero {
            return Poll::Ready(Ok(0));
        }
        if self.stall {
            self.flip = !self.flip;
            if self.flip {
                return Poll::Pending;
            }
        }
        let n = buf.len().min(self.chunk);
        self.got.extend_from_slice(&buf[..n]);
        Poll::Ready(Ok(n))
    }

    fn poll_recv(&mut self, _: &mut Context<'_>, _: &mut [u8]) -> Poll<Result<usize, FusoError>> {
        Poll::Pending
    }
}

fn sink(chunk: usize) -> Sink {
    Sink { got: Vec::new(), chunk, stall: false, flip: false, zero: false }
}

#[test]
fn send_all_sends_every_byte_in_pieces() {
    let mut cx = Context::from_waker(Waker::noop());
    let mut s = sink(2);
    let data = [1u8, 2, 3, 4, 5];
    {
        let mut f = s.send_all(&data);
        assert!(matches!(f.poll(&mut cx), Poll::Ready(Ok(()))));
    }
    assert_eq!(s.got, vec![1, 2, 3, 4, 5]);
}

#[test]
fn send_all_resumes_after_pending() {
    let mut cx = Context::from_waker(Waker::noop());
    let mut s = sink(2);
    s.stall = true;
    let data = [1u8, 2, 3];
    {
        let mut f = s.send_all(&data);
        let mut rounds = 0;
        loop {
            rounds += 1;
            match f.poll(&mut cx) {
                Poll::Pending => continue,
                Poll::Ready(r) => {
                    assert!(r.is_ok());
                    break;
                }
            }
        }
        assert!(rounds > 1);
    }
    assert_eq!(s.got, vec![1, 2, 3]);
}

#[test]
fn send_all_of_zero_bytes_sent_is_broken_pipe() {
    let mut cx = Context::from_waker(Waker::noop());
    let mut s = sink(2);
    s.zero = true;
    let data = [1u8];
    let mut f = s.send_all(&data);
    match f.poll(&mut cx) {
        Poll::Ready(Err(FusoError::StdIo(e))) => assert_eq!(e.kind(), std::io::ErrorKind::BrokenPipe),
        _ => panic!("expected a broken pipe"),
    }
}

#[test]
fn send_all_of_nothing_is_done_at_once() {
    let mut cx = Context::from_waker(Waker::noop());
    let mut s = sink(2);
    s.zero = true;
    let data: [u8; 0] = [];
    let mut f = s.send_all(&data);
    assert!(matches!(f.poll(&mut cx), Poll::Ready(Ok(()))));
}

#[test]
fn send_sends_once() {
    let mut cx = Context::from_waker(Waker::noop());
    let mut s = sink(2);
    let data = [1u8, 2, 3];
    {
        let mut f = s.send(&data);
        assert!(matches!(f.poll(&mut cx), Poll::Ready(Ok(2))));
    }
    assert_eq!(s.got, vec![1, 2]);
}

#[test]
fn abstract_transmitter_forwards() {
    let mut cx = Context::from_waker(Waker::noop());
    let mut t = AbstractTransmitter::new(sink(10));
    assert!(matches!(t.poll_send(&mut cx, &[1, 2, 3]), Poll::Ready(Ok(3))));
}

#[test]
fn send_progress_steps() {
    assert!(matches!(send_progress(0, 5, Poll::Ready(Ok(2))), SendProgress::Continue(2)));
    assert!(matches!(send_progress(3, 5, Poll::Ready(Ok(9))), SendProgress::Continue(5)));
    assert!(matches!(send_progress(3, 5, Poll::Pending), SendProgress::Stop(Poll::Pending)));
    assert!(matches!(
        send_progress(3, 5, Poll::Ready(Err(FusoError::Cancel))),
        SendProgress::Stop(Poll::Ready(Err(FusoError::Cancel)))
    ));
    assert!(matches!(
        send_progress(3, 5, Poll::Ready(Ok(0))),
        SendProgress::Stop(Poll::Ready(Err(FusoError::StdIo(_))))
    ));
}

/// Records every buffer offered to it and takes at most two bytes, making the
/// caller wait on its second call.
struct Offers {
    seen: Vec<Vec<u8>>,
    calls: usize,
}

impl Transmitter for Offers {
    fn poll_send(&mut self, _: &mut Context<'_>, buf: &[u8]) -> Poll<Result<usize, FusoError>> {
        self.calls += 1;
        self.seen.push(buf.to_vec());
        if self.calls == 2 {
            return Poll::Pending;
        }
        Poll::Ready(Ok(buf.len().min(2)))
    }

    fn poll_recv(&mut self, _: &mut Context<'_>, _: &mut [u8]) -> Poll<Result<usize, FusoError>> {
        Poll::Pending
    }
}

#[test]
fn send_all_offers_the_rest_from_its_position() {
    let mut cx = Context::from_waker(Waker::noop());
    let mut t = Offers { seen: Vec::new(), calls: 0 };
    let data = [1u8, 2, 3, 4, 5];
    {
        let mut f = t.send_all(&data);
        assert!(matches!(f.poll(&mut cx), Poll::Pending));
        assert!(matches!(f.poll(&mut cx), Poll::Ready(Ok(()))));
    }
    let expected: Vec<Vec<u8>> = vec![vec![1, 2, 3, 4, 5], vec![3, 4, 5], vec![3, 4, 5], vec![5]];
    assert_eq!(t.seen, expected);
}
