use bitstates::bit_state::BitState;

#[test]
fn bit_state_simple() {
    let mut result = 0u8;
    result.set_bit(1);
    assert_eq!(result, 0b_0000_0010);
    result.set_bit(3);
    assert_eq!(result, 0b_0000_1010);
}

#[test]
fn bit_state_test_set_with_changes() {
    let mut result = 0b_0001_1011 as u8;
    if let Some((ups, downs)) = result.set_with_changes(0b_1001_0101 as u8) {
        assert_eq!(ups, Vec::from([2, 7]));
        assert_eq!(downs, Vec::from([1, 3]));
        assert_eq!(result, 0b_1001_0101 as u8);
    }
}

#[test]
fn set_with_changes_from_zero_scenario() {
    let mut v = 0u8;
    let (ups, downs) = v.set_with_changes(0b_0001_0100).unwrap();
    assert_eq!(ups, vec![2, 4]);
    assert_eq!(downs, Vec::<u8>::new());
    let (ups, downs) = v.set_with_changes(0b_1100_0001).unwrap();
    assert_eq!(ups, vec![0, 6, 7]);
    assert_eq!(downs, vec![2, 4]);
    assert_eq!(v, 0b_1100_0001);
}

#[test]
fn set_with_changes_equal_value_reports_nothing() {
    let mut v = 0u8;
    assert!(v.set_with_changes(0b_0000_0101).is_some());
    assert!(v.set_with_changes(0b_0000_0101).is_none());
    assert_eq!(v, 0b_0000_0101);
}

#[test]
fn set_replaces_without_reporting() {
    let mut v = 0u8;
    v.set(0b_1010_0001);
    assert_eq!(v, 0b_1010_0001);
    v.reset();
    assert_eq!(v, 0);
}

#[test]
fn single_bit_accessors() {
    let mut v = 0u8;
    assert!(!v.get_bit(5));
    v.set_bit(5);
    assert!(v.get_bit(5));
    assert_eq!(v, 0b_0010_0000);
    v.clear_bit(5);
    assert!(!v.get_bit(5));
    assert_eq!(v, 0);
}

#[test]
fn wider_words_report_high_bits() {
    let mut v = 0u16;
    let (ups, downs) = v.set_with_changes(0b_1000_0000_0000_0001).unwrap();
    assert_eq!(ups, vec![0, 15]);
    assert_eq!(downs, Vec::<u8>::new());

    let mut v = 0u32;
    v.set_bit(31);
    assert_eq!(v, 1u32 << 31);
    assert!(v.get_bit(31));
    let (ups, downs) = v.set_with_changes(1).unwrap();
    assert_eq!(ups, vec![0]);
    assert_eq!(downs, vec![31]);

    let mut v = 0u64;
    v.set_bit(63);
    assert_eq!(v, 1u64 << 63);
    v.clear_bit(63);
    assert_eq!(v, 0);

    let mut v = 0u128;
    v.set_bit(127);
    assert_eq!(v, 1u128 << 127);
    let (ups, downs) = v.set_with_changes(2).unwrap();
    assert_eq!(ups, vec![1]);
    assert_eq!(downs, vec![127]);
    assert_eq!(v, 2);
}
