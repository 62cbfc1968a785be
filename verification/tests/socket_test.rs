use std::str::from_utf8;

use memsocket::{new_pair, Condition, EndpointId, Socket};

/// Reads from `side` until end of stream, collecting everything delivered.
fn drain_side(pair: &mut Socket, side: EndpointId) -> Vec<u8> {
    let mut collected: Vec<u8> = Vec::new();
    let mut buf = vec![0u8; 4];
    loop {
        match pair.read(side, &mut buf) {
            Ok(0) => return collected,
            Ok(n) => collected.extend_from_slice(&buf[..n]),
            Err(error) => panic!("{:?}", error),
        }
    }
}

#[test]
fn async_write_then_read() {
    let mut pair = new_pair();

    pair.write(EndpointId::A, &b"hello world".to_vec()).unwrap();
    pair.shutdown(EndpointId::A).unwrap();

    let result = drain_side(&mut pair, EndpointId::B);
    assert_eq!(from_utf8(&result), Ok("hello world"));
}

#[test]
fn async_read_then_write() {
    let mut pair = new_pair();

    // Nothing buffered yet and the peer still open: the reader must
    // suspend and retry after the writer has run.
    let mut buf = vec![0u8; 4];
    assert_eq!(pair.read(EndpointId::B, &mut buf), Err(Condition::WouldBlock));

    pair.write(EndpointId::A, &b"hello world".to_vec()).unwrap();
    pair.shutdown(EndpointId::A).unwrap();

    let result = drain_side(&mut pair, EndpointId::B);
    assert_eq!(from_utf8(&result), Ok("hello world"));
}

#[test]
fn socket_write_after_shutdown_is_broken_pipe() {
    let mut pair = new_pair();

    pair.shutdown(EndpointId::A).unwrap();
    assert_eq!(
        pair.write(EndpointId::A, &b"x".to_vec()),
        Err(Condition::BrokenPipe)
    );

    let mut buf = vec![0u8; 4];
    assert_eq!(pair.read(EndpointId::B, &mut buf), Ok(0));
}

#[test]
fn socket_empty_read_blocks_even_for_empty_buffer() {
    let mut pair = new_pair();

    // The shared-buffer read checks the buffered data first: with nothing
    // buffered and the peer open it reports WouldBlock whatever the
    // buffer length.
    let mut empty: Vec<u8> = Vec::new();
    assert_eq!(pair.read(EndpointId::B, &mut empty), Err(Condition::WouldBlock));

    // With data buffered, a zero-length buffer reads zero bytes.
    pair.write(EndpointId::A, &b"xy".to_vec()).unwrap();
    assert_eq!(pair.read(EndpointId::B, &mut empty), Ok(0));

    let mut buf = vec![0u8; 2];
    assert_eq!(pair.read(EndpointId::B, &mut buf), Ok(2));
    assert_eq!(&buf[..], b"xy");
}

#[test]
fn socket_flush_is_a_no_op() {
    let mut pair = new_pair();

    pair.write(EndpointId::A, &b"ab".to_vec()).unwrap();
    assert_eq!(pair.flush(EndpointId::A), Ok(()));

    let mut buf = vec![0u8; 2];
    assert_eq!(pair.read(EndpointId::B, &mut buf), Ok(2));
    assert_eq!(&buf[..], b"ab");
}
