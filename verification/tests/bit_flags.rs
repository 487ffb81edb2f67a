use bitstates::bit_flags::FlagSet;
use bitstates::bit_state::BitState;
use std::cell::RefCell;

#[derive(Debug, Copy, Clone, PartialEq, Eq)]
enum Status {
    Zero,
    One,
    Two,
    Three,
    Four,
}

#[test]
fn bit_flags_simple() {
    let up_events = RefCell::new(Vec::new());
    let down_events = RefCell::new(Vec::new());
    let mut result = FlagSet::<u8, (&str, &str), _, _>::new(
        vec![
            (0, ("Flag0", "GG")),
            (2, ("Flag2", "GG")),
            (4, ("Flag4", "GG")),
            (7, ("Flag7", "GG")),
            (6, ("Flag6", "GG")),
        ],
        |a: (&str, &str)| up_events.borrow_mut().push(a.0),
        |a: (&str, &str)| down_events.borrow_mut().push(a.0),
    );

    result.set_with_state(0b_0001_0100);
    result.set_with_state(0b_1100_0001);

    let up = up_events.borrow();
    let down = down_events.borrow();

    assert_eq!(up.len(), 5);
    assert_eq!(down.len(), 2);

    assert!(up.contains(&"Flag0"));
    assert!(up.contains(&"Flag2"));
    assert!(up.contains(&"Flag4"));
    assert!(up.contains(&"Flag6"));
    assert!(up.contains(&"Flag7"));

    assert!(down.contains(&"Flag2"));
    assert!(down.contains(&"Flag4"));
}

#[test]
fn bit_flags_test_set_with_changes() {
    let mut result = 0b_0001_1011 as u8;
    if let Some((ups, downs)) = result.set_with_changes(0b_1001_0101 as u8) {
        assert_eq!(ups, Vec::from([2, 7]));
        assert_eq!(downs, Vec::from([1, 3]));
        assert_eq!(result, 0b_1001_0101 as u8);
    }
}

fn status_set<'a>(
    events_up: &'a RefCell<Vec<Status>>,
    events_down: &'a RefCell<Vec<Status>>,
) -> FlagSet<u8, Status, impl Fn(Status) + 'a, impl Fn(Status) + 'a> {
    FlagSet::new(
        vec![
            (0, Status::Zero),
            (1, Status::One),
            (2, Status::Two),
            (3, Status::Three),
            (4, Status::Four),
        ],
        move |a: Status| events_up.borrow_mut().push(a),
        move |a: Status| events_down.borrow_mut().push(a),
    )
}

#[test]
fn normal() {
    let events_up: RefCell<Vec<Status>> = RefCell::new(Vec::new());
    let events_down: RefCell<Vec<Status>> = RefCell::new(Vec::new());

    let mut set_status = status_set(&events_up, &events_down);

    set_status.set_with_state(0b_0000_0001);
    assert_eq!(events_up.borrow_mut().pop(), Some(Status::Zero));
    assert_eq!(events_down.borrow_mut().pop(), None);
    set_status.set_with_state(0b_0000_0010);
    assert_eq!(events_up.borrow_mut().pop(), Some(Status::One));
    assert_eq!(events_down.borrow_mut().pop(), Some(Status::Zero));
    set_status.set_with_state(0b_0000_0100);
    assert_eq!(events_up.borrow_mut().pop(), Some(Status::Two));
    assert_eq!(events_down.borrow_mut().pop(), Some(Status::One));
    set_status.set_with_state(0b_0001_0000);
    assert_eq!(events_up.borrow_mut().pop(), Some(Status::Four));
    assert_eq!(events_down.borrow_mut().pop(), Some(Status::Two));
}

#[test]
fn normal_helpers() {
    let events_up: RefCell<Vec<Status>> = RefCell::new(Vec::new());
    let events_down: RefCell<Vec<Status>> = RefCell::new(Vec::new());

    let mut set_status = status_set(&events_up, &events_down);

    set_status.set_flag(3);
    assert_eq!(events_up.borrow_mut().pop(), Some(Status::Three));
    assert_eq!(set_status.is_set(3), true);
    set_status.clear();
    assert_eq!(set_status.get(), 0);
    set_status.reset_flag(3);
    assert_ne!(events_down.borrow_mut().pop(), Some(Status::Three));
}

#[test]
fn equal_value_invokes_no_handler() {
    let events_up: RefCell<Vec<Status>> = RefCell::new(Vec::new());
    let events_down: RefCell<Vec<Status>> = RefCell::new(Vec::new());

    let mut set_status = status_set(&events_up, &events_down);

    set_status.set_with_state(0b_0000_0110);
    assert_eq!(events_up.borrow().len(), 2);
    set_status.set_with_state(0b_0000_0110);
    assert_eq!(events_up.borrow().len(), 2);
    assert_eq!(events_down.borrow().len(), 0);
    assert_eq!(set_status.get(), 0b_0000_0110);
}

#[test]
fn set_flag_twice_fires_once() {
    let events_up: RefCell<Vec<Status>> = RefCell::new(Vec::new());
    let events_down: RefCell<Vec<Status>> = RefCell::new(Vec::new());

    let mut set_status = status_set(&events_up, &events_down);

    set_status.set_flag(2);
    set_status.set_flag(2);
    assert_eq!(events_up.borrow().len(), 1);
    assert_eq!(events_up.borrow()[0], Status::Two);

    set_status.reset_flag(2);
    set_status.reset_flag(2);
    assert_eq!(events_down.borrow().len(), 1);
    assert_eq!(events_down.borrow()[0], Status::Two);
}

#[test]
fn clear_is_silent() {
    let events_up: RefCell<Vec<Status>> = RefCell::new(Vec::new());
    let events_down: RefCell<Vec<Status>> = RefCell::new(Vec::new());

    let mut set_status = status_set(&events_up, &events_down);

    set_status.set_with_state(0b_0001_1111);
    let ups_before = events_up.borrow().len();
    set_status.clear();
    assert_eq!(set_status.get(), 0);
    assert_eq!(events_up.borrow().len(), ups_before);
    assert_eq!(events_down.borrow().len(), 0);
}

#[test]
fn unmapped_bits_are_skipped() {
    let events_up: RefCell<Vec<Status>> = RefCell::new(Vec::new());
    let events_down: RefCell<Vec<Status>> = RefCell::new(Vec::new());

    let mut set_status = status_set(&events_up, &events_down);

    set_status.set_with_state(0b_1110_0001);
    assert_eq!(events_up.borrow().len(), 1);
    assert_eq!(events_up.borrow()[0], Status::Zero);
}
