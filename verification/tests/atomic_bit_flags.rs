use bitstates::atomic_bit_flags::AtomicFlagSet;
use bitstates::bit_state::BitState;
use std::cell::RefCell;
use std::sync::atomic::AtomicU16;
use std::sync::atomic::AtomicU32;
use std::sync::atomic::AtomicU64;
use std::sync::atomic::AtomicU8;

#[derive(Debug, Copy, Clone, PartialEq, Eq)]
enum Status {
    Zero,
    One,
    Two,
    Three,
    Four,
}

#[test]
fn atomic_bit_flags_simple() {
    let up_events = RefCell::new(Vec::new());
    let down_events = RefCell::new(Vec::new());
    let mut result = AtomicFlagSet::<AtomicU8, u8, (&str, &str), _, _>::new(
        vec![
            (0, ("Flag0", "GG")),
            (2, ("Flag2", "GG")),
            (4, ("Flag4", "GG")),
            (7, ("Flag7", "GG")),
            (6, ("Flag6", "GG")),
        ],
        |a: (&str, &str)| up_events.borrow_mut().push(a.0),
        |a: (&str, &str)| down_events.borrow_mut().push(a.0),
    );

    result.set_with_state(0b_0001_0100);
    result.set_with_state(0b_1100_0001);

    let up = up_events.borrow();
    let down = down_events.borrow();

    assert_eq!(up.len(), 5);
    assert_eq!(down.len(), 2);

    assert!(up.contains(&"Flag0"));
    assert!(up.contains(&"Flag2"));
    assert!(up.contains(&"Flag4"));
    assert!(up.contains(&"Flag6"));
    assert!(up.contains(&"Flag7"));

    assert!(down.contains(&"Flag2"));
    assert!(down.contains(&"Flag4"));
}

#[test]
fn atomic_bit_flags_test_set_with_changes() {
    let mut result = 0b_0001_1011 as u8;
    if let Some((ups, downs)) = result.set_with_changes(0b_1001_0101 as u8) {
        assert_eq!(ups, Vec::from([2, 7]));
        assert_eq!(downs, Vec::from([1, 3]));
        assert_eq!(result, 0b_1001_0101 as u8);
    }
}

fn atomic_status_set<'a>(
    events_up: &'a RefCell<Vec<Status>>,
    events_down: &'a RefCell<Vec<Status>>,
) -> AtomicFlagSet<AtomicU8, u8, Status, impl Fn(Status) + 'a, impl Fn(Status) + 'a> {
    AtomicFlagSet::new(
        vec![
            (0, Status::Zero),
            (1, Status::One),
            (2, Status::Two),
            (3, Status::Three),
            (4, Status::Four),
        ],
        move |a: Status| events_up.borrow_mut().push(a),
        move |a: Status| events_down.borrow_mut().push(a),
    )
}

#[test]
fn atomic_full_updates() {
    let events_up: RefCell<Vec<Status>> = RefCell::new(Vec::new());
    let events_down: RefCell<Vec<Status>> = RefCell::new(Vec::new());

    let mut set_status = atomic_status_set(&events_up, &events_down);

    set_status.set_with_state(0b_0000_0001 as u8);
    set_status.set_with_state(0b_0001_0000 as u8);

    assert_eq!(events_up.borrow().len(), 2);
    assert_eq!(events_down.borrow().len(), 1);

    assert!(events_up.borrow().contains(&Status::Zero));
    assert!(events_up.borrow().contains(&Status::Four));
    assert!(events_down.borrow().contains(&Status::Zero));
    assert_eq!(set_status.get(), 0b_0001_0000);
}

#[test]
fn atomic_helpers_single_owner() {
    let events_up: RefCell<Vec<Status>> = RefCell::new(Vec::new());
    let events_down: RefCell<Vec<Status>> = RefCell::new(Vec::new());

    let mut set_status = atomic_status_set(&events_up, &events_down);

    set_status.set_with_state(0b_0001_0000 as u8);
    set_status.set_flag(3);

    assert_eq!(set_status.get(), 0b_0001_1000 as u8);
    assert_eq!(events_up.borrow_mut().pop(), Some(Status::Three));
    assert_eq!(set_status.is_set(3), true);
    set_status.clear();
    assert_eq!(set_status.get(), 0);
    set_status.reset_flag(3);
    assert_eq!(events_down.borrow().len(), 0);
}

#[test]
fn atomic_equal_value_invokes_no_handler() {
    let events_up: RefCell<Vec<Status>> = RefCell::new(Vec::new());
    let events_down: RefCell<Vec<Status>> = RefCell::new(Vec::new());

    let mut set_status = atomic_status_set(&events_up, &events_down);

    set_status.set_with_state(0b_0000_0011 as u8);
    assert_eq!(events_up.borrow().len(), 2);
    set_status.set_with_state(0b_0000_0011 as u8);
    assert_eq!(events_up.borrow().len(), 2);
    assert_eq!(events_down.borrow().len(), 0);
}

#[test]
fn atomic_set_flag_twice_fires_once() {
    let events_up: RefCell<Vec<Status>> = RefCell::new(Vec::new());
    let events_down: RefCell<Vec<Status>> = RefCell::new(Vec::new());

    let mut set_status = atomic_status_set(&events_up, &events_down);

    set_status.set_flag(1);
    set_status.set_flag(1);
    assert_eq!(events_up.borrow().len(), 1);
    assert_eq!(events_up.borrow()[0], Status::One);

    set_status.reset_flag(1);
    set_status.reset_flag(1);
    assert_eq!(events_down.borrow().len(), 1);
    assert_eq!(events_down.borrow()[0], Status::One);
    assert_eq!(set_status.get(), 0);
}

#[test]
fn atomic_wider_words() {
    let counts = RefCell::new((0u32, 0u32));

    let mut cell16 = AtomicFlagSet::<AtomicU16, u16, u8, _, _>::new(
        vec![(15, 15u8), (0, 0u8)],
        |_a: u8| counts.borrow_mut().0 += 1,
        |_a: u8| counts.borrow_mut().1 += 1,
    );
    cell16.set_with_state(0b_1000_0000_0000_0001);
    assert_eq!(cell16.get(), 0b_1000_0000_0000_0001);
    assert_eq!(counts.borrow().0, 2);
    cell16.set_flag(15);
    assert_eq!(counts.borrow().0, 2);
    cell16.reset_flag(15);
    assert_eq!(counts.borrow().1, 1);
    assert_eq!(cell16.get(), 1);

    let mut cell32 = AtomicFlagSet::<AtomicU32, u32, u8, _, _>::new(
        vec![(31, 31u8)],
        |_a: u8| counts.borrow_mut().0 += 1,
        |_a: u8| counts.borrow_mut().1 += 1,
    );
    cell32.set_flag(31);
    assert_eq!(cell32.get(), 1u32 << 31);
    assert!(cell32.is_set(31));
    cell32.clear();
    assert_eq!(cell32.get(), 0);

    let mut cell64 = AtomicFlagSet::<AtomicU64, u64, u8, _, _>::new(
        vec![(63, 63u8)],
        |_a: u8| counts.borrow_mut().0 += 1,
        |_a: u8| counts.borrow_mut().1 += 1,
    );
    cell64.set_with_state(1u64 << 63);
    assert_eq!(cell64.get(), 1u64 << 63);
    assert!(cell64.is_set(63));
    cell64.set_with_state(0);
    assert_eq!(cell64.get(), 0);
}
