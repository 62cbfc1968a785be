use std::str::from_utf8;

use memsocket::{unbounded, Condition, EndpointId};

#[test]
fn unbounded_write_then_read() {
    let mut pair = unbounded();

    pair.write(EndpointId::A, &b"hello world".to_vec()).unwrap();
    pair.shutdown(EndpointId::A).unwrap();

    let mut buf = vec![0u8; 16];
    let count = pair.read(EndpointId::B, &mut buf).unwrap();
    assert_eq!(count, 11);
    assert_eq!(from_utf8(&buf[..11]), Ok("hello world"));
    assert_eq!(pair.read(EndpointId::B, &mut buf), Ok(0));
}

#[test]
fn unbounded_write_always_accepts() {
    let mut pair = unbounded();

    // Far more than any bounded capacity: still accepted in full.
    let big = vec![7u8; 100_000];
    assert_eq!(pair.write(EndpointId::A, &big), Ok(100_000));

    let mut buf = vec![0u8; 100_000];
    assert_eq!(pair.read(EndpointId::B, &mut buf), Ok(100_000));
    assert_eq!(buf, big);
}

#[test]
fn unbounded_partial_read_reports_would_block() {
    let mut pair = unbounded();

    pair.write(EndpointId::A, &b"abc".to_vec()).unwrap();

    // Five bytes requested, three available, peer still open: the call
    // reports WouldBlock, yet the three bytes were already moved into
    // the buffer and have left the stream.
    let mut buf = vec![0u8; 5];
    assert_eq!(pair.read(EndpointId::B, &mut buf), Err(Condition::WouldBlock));
    assert_eq!(&buf[..3], b"abc");

    pair.shutdown(EndpointId::A).unwrap();
    assert_eq!(pair.read(EndpointId::B, &mut buf), Ok(0));
}

#[test]
fn unbounded_exact_read_succeeds() {
    let mut pair = unbounded();

    pair.write(EndpointId::A, &b"abcd".to_vec()).unwrap();

    let mut buf = vec![0u8; 4];
    assert_eq!(pair.read(EndpointId::B, &mut buf), Ok(4));
    assert_eq!(&buf[..], b"abcd");
}

#[test]
fn unbounded_write_after_shutdown_is_broken_pipe() {
    let mut pair = unbounded();

    pair.shutdown(EndpointId::A).unwrap();
    pair.shutdown(EndpointId::A).unwrap();

    assert_eq!(
        pair.write(EndpointId::A, &b"x".to_vec()),
        Err(Condition::BrokenPipe)
    );

    // The other direction is unaffected.
    assert_eq!(pair.write(EndpointId::B, &b"pong".to_vec()), Ok(4));
    let mut buf = vec![0u8; 4];
    assert_eq!(pair.read(EndpointId::A, &mut buf), Ok(4));
    assert_eq!(&buf[..], b"pong");
}

#[test]
fn unbounded_flush_is_a_no_op() {
    let mut pair = unbounded();

    pair.write(EndpointId::A, &b"ab".to_vec()).unwrap();
    assert_eq!(pair.flush(EndpointId::A), Ok(()));

    let mut buf = vec![0u8; 2];
    assert_eq!(pair.read(EndpointId::B, &mut buf), Ok(2));
    assert_eq!(&buf[..], b"ab");
}
