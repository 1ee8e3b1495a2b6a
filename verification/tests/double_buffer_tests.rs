use chatterlog::double_buffer::DoubleBuffer;

#[test]
fn basic() {
    let mut buf = DoubleBuffer::new();
    buf.next_mut().resize(1, 0);
    assert_eq!(buf.next().len(), 1);
    assert_eq!(buf.last().len(), 0);
    buf.swap();
    assert_eq!(buf.next().len(), 0);
    assert_eq!(buf.last().len(), 1);
}

#[test]
fn swap_keeps_contents() {
    let mut buf = DoubleBuffer::new();
    buf.next_mut().extend_from_slice(&[1, 2, 3]);
    buf.swap();
    assert_eq!(buf.last(), &[1, 2, 3]);
    assert_eq!(buf.next(), &[] as &[u8]);
    buf.next_mut().push(9);
    buf.swap();
    assert_eq!(buf.last(), &[9]);
    assert_eq!(buf.next(), &[1, 2, 3]);
}
