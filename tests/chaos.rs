use cranelift_control::chaos::ControlPlane;
use cranelift_control::error::Error;

#[test]
fn decisions_follow_lowest_bits_then_default_to_false() {
    let mut cp = ControlPlane::new(vec![0x01, 0x00, 0xFF]);
    assert!(cp.get_decision());
    assert!(!cp.get_decision());
    assert!(cp.get_decision());
    assert!(cp.is_empty());
    assert!(!cp.get_decision());
    assert!(!cp.get_decision());
}

#[test]
fn decisions_consume_one_byte_each() {
    let mut cp = ControlPlane::new(vec![0x02, 0x03]);
    assert!(!cp.is_empty());
    assert!(!cp.get_decision());
    assert!(!cp.is_empty());
    assert!(cp.get_decision());
    assert!(cp.is_empty());
}

#[test]
fn default_control_plane_always_says_false() {
    let mut cp = ControlPlane::default();
    assert!(cp.is_empty());
    assert!(!cp.get_decision());
    assert_eq!(cp.get_arbitrary_bool(), Err(Error::InsufficientData));
}

#[test]
fn arbitrary_bool_reports_exhaustion() {
    let mut cp = ControlPlane::new(vec![0x07]);
    assert_eq!(cp.get_arbitrary_bool(), Ok(true));
    assert!(cp.is_empty());
    assert_eq!(cp.get_arbitrary_bool(), Err(Error::InsufficientData));
    assert_eq!(cp.get_arbitrary_bool(), Err(Error::InsufficientData));
}

#[test]
fn arbitrary_bool_reads_lowest_bit() {
    let mut cp = ControlPlane::new(vec![0xFE, 0x01]);
    assert_eq!(cp.get_arbitrary_bool(), Ok(false));
    assert_eq!(cp.get_arbitrary_bool(), Ok(true));
}

#[test]
fn placeholder_fails_every_query() {
    let mut cp = ControlPlane::todo();
    assert!(cp.is_empty());
    for _ in 0..5 {
        assert_eq!(cp.get_arbitrary_bool(), Err(Error::PlaceholderAccessed));
    }
    assert!(!cp.get_decision());
    let mut items = vec![1, 2, 3];
    cp.shuffle(&mut items);
    assert_eq!(items, vec![1, 2, 3]);
    assert_eq!(cp.get_arbitrary_bool(), Err(Error::PlaceholderAccessed));
}

#[test]
fn shuffle_of_short_slices_consumes_nothing() {
    let mut cp = ControlPlane::new(vec![0x01]);
    let mut empty: Vec<u32> = vec![];
    cp.shuffle(&mut empty);
    assert!(empty.is_empty());
    let mut one = vec![9u32];
    cp.shuffle(&mut one);
    assert_eq!(one, vec![9]);
    assert!(!cp.is_empty());
    assert!(cp.get_decision());
}

#[test]
fn shuffle_draws_one_index_per_position() {
    // First draw: 1 % 3 moves 'b' to the front; second: 1 % 2 swaps the rest.
    let mut cp = ControlPlane::new(vec![0x01, 0x01]);
    let mut items = vec!['a', 'b', 'c'];
    cp.shuffle(&mut items);
    assert_eq!(items, vec!['b', 'c', 'a']);
    assert!(cp.is_empty());
}

#[test]
fn shuffle_leaves_suffix_in_order_when_bytes_run_out() {
    let mut cp = ControlPlane::new(vec![0x02]);
    let mut items = vec!['a', 'b', 'c', 'd'];
    cp.shuffle(&mut items);
    assert_eq!(items, vec!['c', 'b', 'a', 'd']);
    assert!(cp.is_empty());
}

#[test]
fn shuffle_leaves_unneeded_bytes() {
    // Two elements need one single-byte draw: 5 % 2 swaps them.
    let mut cp = ControlPlane::new(vec![0x05, 0x01]);
    let mut items = vec![10, 20];
    cp.shuffle(&mut items);
    assert_eq!(items, vec![20, 10]);
    assert!(!cp.is_empty());
    assert!(cp.get_decision());
    assert!(cp.is_empty());
}

#[test]
fn shuffle_reads_wide_indices_big_endian() {
    // 300 elements: an index takes two bytes; 0x012D = 301, and 301 % 300 = 1.
    let mut cp = ControlPlane::new(vec![0x01, 0x2D]);
    let mut items: Vec<u32> = (0..300).collect();
    cp.shuffle(&mut items);
    let mut expected: Vec<u32> = (0..300).collect();
    expected.swap(0, 1);
    assert_eq!(items, expected);
    assert!(cp.is_empty());
}

#[test]
fn shuffle_uses_a_partial_wide_index() {
    // Only one of the two bytes of the index is there: it reads as 1.
    let mut cp = ControlPlane::new(vec![0x01]);
    let mut items: Vec<u32> = (0..300).collect();
    cp.shuffle(&mut items);
    let mut expected: Vec<u32> = (0..300).collect();
    expected.swap(0, 1);
    assert_eq!(items, expected);
    assert!(cp.is_empty());
}

#[test]
fn shuffle_is_deterministic_and_a_permutation() {
    let bytes = vec![0x13, 0x77, 0x02, 0xA0, 0x05, 0x31, 0xEE];
    let mut a: Vec<u32> = (0..8).collect();
    let mut b: Vec<u32> = (0..8).collect();
    let mut cp1 = ControlPlane::new(bytes.clone());
    let mut cp2 = ControlPlane::new(bytes);
    cp1.shuffle(&mut a);
    cp2.shuffle(&mut b);
    assert_eq!(a, b);
    assert_eq!(cp1.is_empty(), cp2.is_empty());
    assert_eq!(cp1.get_decision(), cp2.get_decision());
    let mut sorted = a.clone();
    sorted.sort();
    assert_eq!(sorted, (0..8).collect::<Vec<u32>>());
    assert_ne!(a, (0..8).collect::<Vec<u32>>());
}
