use nlattr::Buffer;

#[test]
fn new_buffer_is_empty() {
    let buf = Buffer::new();
    assert!(buf.is_empty());
    assert_eq!(buf.len(), 0);
    assert_eq!(buf.as_slice(), &[] as &[u8]);
}

#[test]
fn buffer_from_slice_holds_a_copy() {
    let mut source = vec![1u8, 2, 3];
    let buf = Buffer::from_slice(&source);
    source[0] = 9;
    assert_eq!(buf.as_slice(), &[1, 2, 3]);
    assert_eq!(buf.len(), 3);
    assert!(!buf.is_empty());
}

#[test]
fn buffer_grows_at_its_end() {
    let mut buf = Buffer::new();
    buf.push(1);
    buf.extend_from_slice(&[2, 3]);
    buf.extend_from_slice(&[]);
    buf.push(4);
    assert_eq!(buf.as_slice(), &[1, 2, 3, 4]);
    assert_eq!(buf.len(), 4);
}

#[test]
fn buffer_clone_shares_nothing() {
    let mut a = Buffer::from_slice(&[1, 2]);
    let mut b = a.clone();
    assert_eq!(b.as_slice(), &[1, 2]);
    b.push(3);
    a.push(4);
    assert_eq!(a.as_slice(), &[1, 2, 4]);
    assert_eq!(b.as_slice(), &[1, 2, 3]);
}
