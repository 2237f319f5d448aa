use firmware_rs::buffer::ResponseBuffer;
use firmware_rs::config::{RESPONSE_BUFFER_SIZE, TLS_READ_BUFFER_SIZE, TLS_WRITE_BUFFER_SIZE};

#[test]
fn buffer_sizes() {
    assert_eq!(RESPONSE_BUFFER_SIZE, 4096);
    assert_eq!(TLS_READ_BUFFER_SIZE, 4096);
    assert_eq!(TLS_WRITE_BUFFER_SIZE, 4096);
}

#[test]
fn new_buffer_is_empty() {
    let buffer = ResponseBuffer::with_capacity(16);
    assert_eq!(buffer.capacity(), 16);
    assert_eq!(buffer.len(), 0);
    assert_eq!(buffer.bytes(), &[] as &[u8]);
}

#[test]
fn store_keeps_what_fits() {
    let mut buffer = ResponseBuffer::with_capacity(8);
    assert_eq!(buffer.store(&[1, 2, 3]), 3);
    assert_eq!(buffer.bytes(), &[1, 2, 3]);
    assert_eq!(buffer.store(&[4, 5]), 2);
    assert_eq!(buffer.bytes(), &[1, 2, 3, 4, 5]);
    assert_eq!(buffer.len(), 5);
    assert_eq!(buffer.capacity(), 8);
}

#[test]
fn store_cuts_what_does_not_fit() {
    let mut buffer = ResponseBuffer::with_capacity(4);
    assert_eq!(buffer.store(&[1, 2, 3]), 3);
    assert_eq!(buffer.store(&[4, 5, 6]), 1);
    assert_eq!(buffer.bytes(), &[1, 2, 3, 4]);
    assert_eq!(buffer.store(&[7]), 0);
    assert_eq!(buffer.bytes(), &[1, 2, 3, 4]);
    assert_eq!(buffer.len(), 4);
}

#[test]
fn store_fills_to_the_last_byte() {
    let mut buffer = ResponseBuffer::with_capacity(3);
    assert_eq!(buffer.store(&[9, 8, 7]), 3);
    assert_eq!(buffer.len(), buffer.capacity());
    assert_eq!(buffer.bytes(), &[9, 8, 7]);
}

#[test]
fn store_of_nothing_changes_nothing() {
    let mut buffer = ResponseBuffer::with_capacity(2);
    buffer.store(&[1]);
    assert_eq!(buffer.store(&[]), 0);
    assert_eq!(buffer.bytes(), &[1]);
}

#[test]
fn buffer_without_capacity_takes_nothing() {
    let mut buffer = ResponseBuffer::with_capacity(0);
    assert_eq!(buffer.store(&[1, 2, 3]), 0);
    assert_eq!(buffer.len(), 0);
}

#[test]
fn large_input_never_overruns() {
    let mut buffer = ResponseBuffer::with_capacity(RESPONSE_BUFFER_SIZE);
    let incoming: Vec<u8> = (0..10_000u32).map(|i| (i % 251) as u8).collect();
    assert_eq!(buffer.store(&incoming), 4096);
    assert_eq!(buffer.len(), 4096);
    assert_eq!(buffer.bytes(), &incoming[..4096]);
}
