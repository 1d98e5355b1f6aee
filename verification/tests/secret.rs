use rooster::secret::{SecretBuffer, WIPE_PATTERN};

#[test]
fn buffer_holds_what_it_was_given() {
    let buffer = SecretBuffer::new(vec![1, 2, 3]);
    assert_eq!(buffer.as_slice(), &[1, 2, 3]);
    assert_eq!(buffer.len(), 3);
    assert!(!buffer.is_empty());
    assert!(SecretBuffer::new(Vec::new()).is_empty());
}

#[test]
fn buffer_from_text_holds_utf8() {
    let buffer = SecretBuffer::from_text("pä");
    assert_eq!(buffer.as_slice(), &[0x70, 0xc3, 0xa4]);
}

#[test]
fn wipe_overwrites_every_byte_and_keeps_the_length() {
    let mut buffer = SecretBuffer::new(vec![9, 8, 7, 6]);
    buffer.wipe();
    assert_eq!(WIPE_PATTERN, 0);
    assert_eq!(buffer.as_slice(), &[0, 0, 0, 0]);
    assert_eq!(buffer.len(), 4);
}

#[test]
fn duplicate_does_not_follow_the_original() {
    let mut original = SecretBuffer::new(vec![5, 6]);
    let copy = original.duplicate();
    original.wipe();
    assert_eq!(copy.as_slice(), &[5, 6]);
    assert_eq!(original.as_slice(), &[0, 0]);
    let cloned = copy.clone();
    drop(copy);
    assert_eq!(cloned.as_slice(), &[5, 6]);
}

#[test]
fn replace_puts_new_content_in_place() {
    let mut buffer = SecretBuffer::new(vec![1, 2, 3]);
    buffer.replace(vec![4]);
    assert_eq!(buffer.as_slice(), &[4]);
}

#[test]
fn same_content_compares_bytes() {
    let a = SecretBuffer::new(vec![1, 2, 3]);
    assert!(a.same_content(&SecretBuffer::new(vec![1, 2, 3])));
    assert!(!a.same_content(&SecretBuffer::new(vec![1, 2, 4])));
    assert!(!a.same_content(&SecretBuffer::new(vec![1, 2])));
    assert!(SecretBuffer::new(vec![]).same_content(&SecretBuffer::new(vec![])));
}

#[test]
fn wipe_of_an_empty_buffer_leaves_it_empty() {
    let mut buffer = SecretBuffer::new(Vec::new());
    buffer.wipe();
    assert!(buffer.is_empty());
    buffer.replace(vec![7, 7]);
    buffer.wipe();
    assert_eq!(buffer.as_slice(), &[0, 0]);
}
