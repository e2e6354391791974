use fuso::poll::Poll;
use fuso::virio::Container;

fn read(c: &mut Container, buf: &mut [u8]) -> Poll<usize> {
    match c.read_step(buf) {
        Poll::Pending => Poll::Pending,
        Poll::Ready(r) => Poll::Ready(r.unwrap()),
    }
}

fn write(c: &mut Container, data: &[u8]) -> Poll<usize> {
    match c.write_step(data) {
        Poll::Pending => Poll::Pending,
        Poll::Ready(r) => Poll::Ready(r.unwrap()),
    }
}

/// Two writes of `[1, 2]` on one side are read back together on the other,
/// then echoed back.
#[test]
fn k() {
    let mut to_v2 = Container::default();
    let mut to_v1 = Container::default();
    assert!(matches!(write(&mut to_v2, &[0x1, 0x2]), Poll::Ready(2)));
    assert!(matches!(write(&mut to_v2, &[0x1, 0x2]), Poll::Ready(2)));
    let mut buf = [0u8; 1024];
    let n = match read(&mut to_v2, &mut buf) {
        Poll::Ready(n) => n,
        Poll::Pending => panic!("data was written"),
    };
    assert_eq!(&buf[..n], &[1, 2, 1, 2]);
    assert!(matches!(write(&mut to_v1, &buf[..n]), Poll::Ready(4)));
    let mut back = [0u8; 1024];
    let m = match read(&mut to_v1, &mut back) {
        Poll::Ready(m) => m,
        Poll::Pending => panic!("data was echoed"),
    };
    assert_eq!(&back[..m], &[1, 2, 1, 2]);
}

#[test]
fn empty_container_makes_reader_wait() {
    let mut c = Container::default();
    let mut buf = [7u8; 4];
    assert!(matches!(read(&mut c, &mut buf), Poll::Pending));
    assert_eq!(buf, [7, 7, 7, 7]);
}

#[test]
fn writer_waits_after_five_chunks() {
    let mut c = Container::default();
    for _ in 0..5 {
        assert!(c.can_fill());
        assert!(matches!(write(&mut c, &[1]), Poll::Ready(1)));
    }
    assert!(!c.can_fill());
    assert!(matches!(write(&mut c, &[1]), Poll::Pending));
    assert_eq!(c.buffered_len(), 5);
}

#[test]
fn reads_follow_chunk_boundaries_in_order() {
    let mut c = Container::default();
    write(&mut c, &[1, 2]);
    write(&mut c, &[3]);
    write(&mut c, &[4, 5, 6]);
    let mut buf = [0u8; 3];
    assert!(matches!(read(&mut c, &mut buf), Poll::Ready(3)));
    assert_eq!(buf, [1, 2, 3]);
    assert!(matches!(read(&mut c, &mut buf), Poll::Ready(3)));
    assert_eq!(buf, [4, 5, 6]);
    assert!(matches!(read(&mut c, &mut buf), Poll::Pending));
}

/// A read that splits a chunk puts back the tail of the read buffer from the
/// number of bytes taken out of that chunk, not the rest of the chunk.
#[test]
fn split_chunk_requeues_buffer_tail() {
    let mut c = Container::default();
    write(&mut c, &[1, 2, 3, 4, 5]);
    let mut buf = [0u8; 2];
    assert!(matches!(read(&mut c, &mut buf), Poll::Ready(2)));
    assert_eq!(buf, [1, 2]);
    // buf[2..] is empty, so an empty chunk is queued while 3 bytes are counted
    assert_eq!(c.buffered_len(), 0);
    let mut more = [0u8; 8];
    assert!(matches!(read(&mut c, &mut more), Poll::Ready(0)));
}

#[test]
fn fill_copies_what_fits() {
    let mut c = Container::default();
    write(&mut c, &[9, 8, 7]);
    let mut buf = [0u8; 5];
    assert_eq!(c.fill(&mut buf).unwrap(), 3);
    assert_eq!(buf, [9, 8, 7, 0, 0]);
    assert_eq!(c.buffered_len(), 0);
}
