use rift_workspaces::common::collections::{sort_ranked, VecMap, VecSet};
use rift_workspaces::common::text::{
    chars_of, contains_text, decimal_text, digits_in, parse_digits, zero_padded_text,
};
use rift_workspaces::model::geometry::{numbers_equal, Frame};
use rift_workspaces::model::ids::WindowId;

#[test]
fn numbers_are_written_and_read_in_decimal() {
    assert_eq!(decimal_text(0), "0");
    assert_eq!(decimal_text(u64::MAX), "18446744073709551615");
    assert_eq!(zero_padded_text(41, 8), "00000041");
    assert_eq!(zero_padded_text(123456789, 8), "123456789");
    assert_eq!(digits_in("a1b22c"), vec!['1', '2', '2']);
    assert_eq!(parse_digits(&chars_of("18446744073709551615")), Some(u64::MAX));
    assert_eq!(parse_digits(&chars_of("18446744073709551616")), None);
    assert_eq!(parse_digits(&Vec::new()), None);
    for n in [0, 7, 10, 99, 12345, u64::MAX] {
        assert_eq!(parse_digits(&chars_of(&decimal_text(n))), Some(n));
    }
}

#[test]
fn texts_are_searched() {
    assert!(contains_text("Inbox", "box"));
    assert!(contains_text("Inbox", ""));
    assert!(!contains_text("box", "Inbox"));
    assert!(contains_text("grün", "ü"));
}

#[test]
fn maps_and_sets_keep_one_entry_per_key() {
    let mut map: VecMap<usize, u64> = VecMap::new();
    assert_eq!(map.insert(1, 10), None);
    assert_eq!(map.insert(1, 11), Some(10));
    assert_eq!(map.insert(2, 20), None);
    assert_eq!(map.len(), 2);
    assert_eq!(map.get(&1), Some(&11));
    assert_eq!(map.remove(&1), Some(11));
    assert_eq!(map.remove(&1), None);
    assert_eq!(map.keys(), vec![2]);
    map.clear();
    assert!(!map.contains_key(&2));
    let mut set: VecSet<usize> = VecSet::new();
    assert!(set.insert(1));
    assert!(!set.insert(1));
    assert!(set.contains(&1));
    assert_eq!(set.to_vec(), vec![1]);
    assert!(set.remove(&1));
    assert!(!set.remove(&1));
    assert!(set.is_empty());
    set.insert(3);
    set.clear();
    assert_eq!(set.len(), 0);
}

#[test]
fn windows_are_ranked_by_process_then_number() {
    let sorted = sort_ranked(vec![
        WindowId::new(2, 1),
        WindowId::new(-1, 9),
        WindowId::new(2, 0),
        WindowId::new(1, 4000000000),
    ]);
    assert_eq!(
        sorted,
        vec![
            WindowId::new(-1, 9),
            WindowId::new(1, 4000000000),
            WindowId::new(2, 0),
            WindowId::new(2, 1),
        ]
    );
}

#[test]
fn frames_are_compared_as_numbers() {
    assert!(numbers_equal(0.0f64.to_bits(), (-0.0f64).to_bits()));
    assert!(!numbers_equal(f64::NAN.to_bits(), f64::NAN.to_bits()));
    assert!(numbers_equal(1.5f64.to_bits(), 1.5f64.to_bits()));
    assert!(!numbers_equal(1.5f64.to_bits(), (-1.5f64).to_bits()));
    assert!(numbers_equal(f64::INFINITY.to_bits(), f64::INFINITY.to_bits()));
    let a = Frame {
        x: 1.0f64.to_bits(),
        y: 0.0f64.to_bits(),
        width: 5.0f64.to_bits(),
        height: 6.0f64.to_bits(),
    };
    let b = Frame { x: 2.0f64.to_bits(), ..a };
    assert!(a.size_equals(&b));
    assert!(!a.equals(&b));
    assert!(a.equals(&Frame { y: (-0.0f64).to_bits(), ..a }));
}
