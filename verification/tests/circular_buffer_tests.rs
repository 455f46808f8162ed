use trng_core::circular_buffer::CircularBuffer;

#[test]
fn test_basic_operations() {
    let mut buf = CircularBuffer::new(10);
    assert_eq!(buf.len(), 0);
    assert_eq!(buf.available_space(), 10);

    buf.extend(b"hello");
    assert_eq!(buf.len(), 5);
    assert_eq!(buf.available_space(), 5);

    let data = buf.take(3);
    assert_eq!(data, b"hel");
    assert_eq!(buf.len(), 2);

    let data = buf.take(5);
    assert_eq!(data, b"lo");
    assert_eq!(buf.len(), 0);
}

#[test]
fn test_wraparound() {
    let mut buf = CircularBuffer::new(5);

    // Fill buffer
    buf.extend(b"12345");
    assert_eq!(buf.len(), 5);

    // Take some
    let data = buf.take(2);
    assert_eq!(data, b"12");
    assert_eq!(buf.len(), 3);

    // Add more (should wrap around)
    buf.extend(b"ab");
    assert_eq!(buf.len(), 5);

    // Take all
    let data = buf.take(10);
    assert_eq!(data, b"345ab");
    assert_eq!(buf.len(), 0);
}

#[test]
fn test_overflow_is_dropped() {
    let mut buf = CircularBuffer::new(5);
    buf.extend(b"abcdefgh");
    assert_eq!(buf.len(), 5);
    assert_eq!(buf.take(10), b"abcde");
}

#[test]
fn test_zero_capacity() {
    let mut buf = CircularBuffer::new(0);
    assert_eq!(buf.available_space(), 0);
    buf.extend(b"xyz");
    assert_eq!(buf.len(), 0);
    assert_eq!(buf.take(4), Vec::<u8>::new());
}

#[test]
fn test_extend_from_vec_truncates() {
    let mut buf = CircularBuffer::new(4);
    buf.extend_from_vec(vec![1, 2, 3, 4, 5, 6]);
    assert_eq!(buf.len(), 4);
    assert_eq!(buf.take(4), vec![1, 2, 3, 4]);
}
