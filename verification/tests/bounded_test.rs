use std::str::from_utf8;

use memsocket::{bounded, BoundedSocket, Condition, EndpointId};

/// Reads from `side` until end of stream, collecting everything delivered.
fn read_to_end(pair: &mut BoundedSocket, side: EndpointId) -> Vec<u8> {
    let mut collected: Vec<u8> = Vec::new();
    let mut buf = vec![0u8; 4];
    loop {
        match pair.read(side, &mut buf) {
            Ok(0) => return collected,
            Ok(n) => collected.extend_from_slice(&buf[..n]),
            Err(error) => panic!("{:?}", error),
        }
    }
}

#[test]
fn write_then_read() {
    let mut pair = bounded(64).unwrap();

    let written = pair.write(EndpointId::A, &b"hello world".to_vec()).unwrap();
    assert_eq!(written, 11);
    pair.shutdown(EndpointId::A).unwrap();

    let result = read_to_end(&mut pair, EndpointId::B);
    assert_eq!(from_utf8(&result), Ok("hello world"));
}

#[test]
fn read_then_write() {
    let mut pair = bounded(64).unwrap();

    let mut buf = vec![0u8; 4];
    assert_eq!(pair.read(EndpointId::B, &mut buf), Err(Condition::WouldBlock));

    pair.write(EndpointId::A, &b"hello world".to_vec()).unwrap();
    pair.shutdown(EndpointId::A).unwrap();

    let result = read_to_end(&mut pair, EndpointId::B);
    assert_eq!(from_utf8(&result), Ok("hello world"));
}

#[test]
fn write_then_read_partial() {
    let mut pair = bounded(64).unwrap();

    pair.write(EndpointId::A, &b"hello world".to_vec()).unwrap();

    let mut buf = vec![0; 12];
    let count = pair.read(EndpointId::B, &mut buf).unwrap();
    assert_eq!(count, 11);
    pair.shutdown(EndpointId::A).unwrap();

    assert_eq!(from_utf8(&buf), Ok("hello world\u{0}"));
}

#[test]
fn round_trip_many_small_reads() {
    let mut pair = bounded(64).unwrap();

    pair.write(EndpointId::A, &b"hello world".to_vec()).unwrap();
    pair.shutdown(EndpointId::A).unwrap();

    let mut collected: Vec<u8> = Vec::new();
    let mut buf = vec![0u8; 3];
    loop {
        match pair.read(EndpointId::B, &mut buf) {
            Ok(0) => break,
            Ok(n) => collected.extend_from_slice(&buf[..n]),
            Err(error) => panic!("{:?}", error),
        }
    }
    assert_eq!(collected, b"hello world".to_vec());
}

#[test]
fn backpressure_accepts_exactly_capacity() {
    let mut pair = bounded(4).unwrap();

    // Six bytes into a four-byte channel: the write reports WouldBlock,
    // but exactly four bytes were accepted and stay delivered.
    assert_eq!(
        pair.write(EndpointId::A, &b"abcdef".to_vec()),
        Err(Condition::WouldBlock)
    );

    let mut buf = vec![0u8; 6];
    let count = pair.read(EndpointId::B, &mut buf).unwrap();
    assert_eq!(count, 4);
    assert_eq!(&buf[..4], b"abcd");

    // Space freed: the writer can continue where it stopped.
    assert_eq!(pair.write(EndpointId::A, &b"ef".to_vec()), Ok(2));
    let count = pair.read(EndpointId::B, &mut buf).unwrap();
    assert_eq!(count, 2);
    assert_eq!(&buf[..2], b"ef");
}

#[test]
fn partial_read_never_blocks() {
    let mut pair = bounded(64).unwrap();

    pair.write(EndpointId::A, &b"abc".to_vec()).unwrap();

    // Only three of the eight requested bytes are available and the peer
    // is still open: the read returns them immediately.
    let mut buf = vec![0u8; 8];
    assert_eq!(pair.read(EndpointId::B, &mut buf), Ok(3));
    assert_eq!(&buf[..3], b"abc");
}

#[test]
fn eof_after_drain_returns_zero() {
    let mut pair = bounded(8).unwrap();

    pair.write(EndpointId::A, &b"hi".to_vec()).unwrap();
    pair.shutdown(EndpointId::A).unwrap();

    let mut buf = vec![0u8; 8];
    assert_eq!(pair.read(EndpointId::B, &mut buf), Ok(2));
    // Backlog drained and the peer shut down: zero bytes, not an error,
    // and permanently so.
    assert_eq!(pair.read(EndpointId::B, &mut buf), Ok(0));
    assert_eq!(pair.read(EndpointId::B, &mut buf), Ok(0));
}

#[test]
fn write_after_shutdown_is_broken_pipe() {
    let mut pair = bounded(8).unwrap();

    pair.shutdown(EndpointId::A).unwrap();
    // Shutdown is idempotent.
    pair.shutdown(EndpointId::A).unwrap();

    assert_eq!(
        pair.write(EndpointId::A, &b"x".to_vec()),
        Err(Condition::BrokenPipe)
    );
    // Zero bytes were accepted: the peer sees a clean end of stream.
    let mut buf = vec![0u8; 4];
    assert_eq!(pair.read(EndpointId::B, &mut buf), Ok(0));
}

#[test]
fn zero_capacity_is_configuration_error() {
    match bounded(0) {
        Ok(_) => panic!("a zero capacity must be rejected"),
        Err(condition) => assert_eq!(condition, Condition::ConfigurationError),
    }
}

#[test]
fn half_close_leaves_other_direction_open() {
    let mut pair = bounded(8).unwrap();

    pair.shutdown(EndpointId::A).unwrap();

    // B can still write towards A, and A can still read.
    assert_eq!(pair.write(EndpointId::B, &b"pong".to_vec()), Ok(4));
    let mut buf = vec![0u8; 8];
    assert_eq!(pair.read(EndpointId::A, &mut buf), Ok(4));
    assert_eq!(&buf[..4], b"pong");
}

#[test]
fn flush_is_a_no_op() {
    let mut pair = bounded(8).unwrap();

    pair.write(EndpointId::A, &b"ab".to_vec()).unwrap();
    assert_eq!(pair.flush(EndpointId::A), Ok(()));

    let mut buf = vec![0u8; 2];
    assert_eq!(pair.read(EndpointId::B, &mut buf), Ok(2));
    assert_eq!(&buf[..], b"ab");
}

#[test]
fn empty_buffer_read_returns_zero() {
    let mut pair = bounded(8).unwrap();

    pair.write(EndpointId::A, &b"xy".to_vec()).unwrap();

    // A zero-length buffer asks for nothing and gets nothing, without
    // consuming or blocking.
    let mut empty: Vec<u8> = Vec::new();
    assert_eq!(pair.read(EndpointId::B, &mut empty), Ok(0));

    let mut buf = vec![0u8; 2];
    assert_eq!(pair.read(EndpointId::B, &mut buf), Ok(2));
    assert_eq!(&buf[..], b"xy");
}
