use owned_read::OwnedRead;

#[test]
fn new_exposes_all_bytes() {
    let reader = OwnedRead::new(vec![3u8, 1, 4, 1, 5]);
    assert!(!reader.is_empty());
    assert_eq!(reader.as_slice(), &[3u8, 1, 4, 1, 5]);
    assert_eq!(reader.get(0), 3);
    assert_eq!(reader.get(4), 5);
}

#[test]
fn slice_from_offsets_within_the_view() {
    let mut reader = OwnedRead::new(vec![0u8, 1, 2, 3, 4, 5]);
    reader.advance(2);
    assert_eq!(reader.slice_from(0), &[2u8, 3, 4, 5]);
    assert_eq!(reader.slice_from(3), &[5u8]);
    assert_eq!(reader.slice_from(4), &[] as &[u8]);
}

#[test]
fn clip_narrows_the_view_end() {
    let mut reader = OwnedRead::new(vec![9u8, 8, 7, 6]);
    reader.clip(2);
    assert_eq!(reader.as_slice(), &[9u8, 8]);
    let mut buffer = vec![0u8; 4];
    let n = reader.read(&mut buffer);
    assert_eq!(n, 2);
    assert_eq!(buffer, vec![9u8, 8, 0, 0]);
}

#[test]
fn clone_independence() {
    let mut original = OwnedRead::new(vec![1u8, 2, 3, 4]);
    let mut cloned = original.clone();
    original.advance(2);
    assert_eq!(cloned.slice_from(0), &[1u8, 2, 3, 4]);
    cloned.clip(1);
    assert_eq!(original.slice_from(0), &[3u8, 4]);
    assert_eq!(cloned.slice_from(0), &[1u8]);
}

#[test]
fn advance_monotonicity() {
    let mut partial = OwnedRead::new(vec![1u8, 2, 3]);
    partial.advance(2);
    assert!(!partial.is_empty());
    let mut whole = OwnedRead::new(vec![1u8, 2, 3]);
    whole.advance(3);
    assert!(whole.is_empty());
}

#[test]
fn clip_to_full_length_is_a_noop() {
    let mut clipped = OwnedRead::new(vec![5u8, 6, 7]);
    clipped.advance(1);
    clipped.clip(2);
    let mut untouched = OwnedRead::new(vec![5u8, 6, 7]);
    untouched.advance(1);
    assert_eq!(clipped.as_slice(), untouched.as_slice());
    let mut a = vec![0u8; 2];
    let mut b = vec![0u8; 2];
    assert!(clipped.read_exact(&mut a).is_ok());
    assert!(untouched.read_exact(&mut b).is_ok());
    assert_eq!(a, b);
}

#[test]
fn read_is_equivalent_to_slice_then_advance() {
    let mut via_read = OwnedRead::new(vec![10u8, 20, 30, 40, 50]);
    let mut via_advance = OwnedRead::new(vec![10u8, 20, 30, 40, 50]);
    let mut buffer = vec![0u8; 3];
    let n = via_read.read(&mut buffer);
    assert_eq!(n, 3);
    let expected: Vec<u8> = via_advance.slice_from(0)[..3].to_vec();
    via_advance.advance(3);
    assert_eq!(buffer, expected);
    assert_eq!(via_read.as_slice(), via_advance.as_slice());
}

#[test]
fn end_to_end_scenario() {
    let mut original = OwnedRead::new((0u8..100u8).collect::<Vec<_>>());
    let mut buffer = vec![0u8; 5];
    assert!(original.read_exact(&mut buffer).is_ok());
    assert_eq!(buffer, vec![0u8, 1, 2, 3, 4]);
    let mut cloned = original.clone();
    assert!(cloned.read_exact(&mut buffer).is_ok());
    assert_eq!(buffer, vec![5u8, 6, 7, 8, 9]);
    assert_eq!(original.get(0), 5);
    assert_eq!(original.slice_from(0)[0], 5);
    assert_eq!(cloned.slice_from(0)[0], 10);
}
