use connection_handshake::error::InternalError;
use connection_handshake::identifier::ConnectionIdentifier;

#[test]
fn first_identifier_is_connection_zero() {
    let id = ConnectionIdentifier::new(0);
    assert_eq!(id.as_str(), "connection-0");
    assert_eq!(id.counter(), 0);
}

#[test]
fn identifier_spells_the_counter_in_decimal() {
    assert_eq!(ConnectionIdentifier::new(7).as_str(), "connection-7");
    assert_eq!(ConnectionIdentifier::new(11).as_str(), "connection-11");
    assert_eq!(ConnectionIdentifier::new(100).as_str(), "connection-100");
    assert_eq!(ConnectionIdentifier::new(9_007_199_254_740_993).as_str(), "connection-9007199254740993");
}

#[test]
fn identifier_of_the_largest_counter() {
    let id = ConnectionIdentifier::new(u64::MAX);
    assert_eq!(id.as_str(), "connection-18446744073709551615");
    assert_eq!(id.counter(), u64::MAX);
}

#[test]
fn different_counters_give_different_identifiers() {
    let a = ConnectionIdentifier::new(1);
    let b = ConnectionIdentifier::new(10);
    let c = ConnectionIdentifier::new(11);
    assert_ne!(a.as_str(), b.as_str());
    assert_ne!(b.as_str(), c.as_str());
    assert_ne!(a, c);
    assert_eq!(a, ConnectionIdentifier::new(1));
}

#[test]
fn cloned_identifier_is_the_same_identifier() {
    let id = ConnectionIdentifier::new(42);
    let copy = id.clone();
    assert_eq!(copy, id);
    assert_eq!(copy.as_str(), "connection-42");
    assert_eq!(copy.counter(), 42);
}

#[test]
fn allocate_hands_out_the_counter_and_moves_it_on() {
    let (id, next) = ConnectionIdentifier::allocate(5).unwrap();
    assert_eq!(id.as_str(), "connection-5");
    assert_eq!(id.counter(), 5);
    assert_eq!(next, 6);
}

#[test]
fn allocate_hands_out_the_last_identifier() {
    let (id, next) = ConnectionIdentifier::allocate(u64::MAX - 1).unwrap();
    assert_eq!(id.as_str(), "connection-18446744073709551614");
    assert_eq!(next, u64::MAX);
}

#[test]
fn allocate_fails_when_the_counter_cannot_move_on() {
    assert_eq!(
        ConnectionIdentifier::allocate(u64::MAX),
        Err(InternalError::ConnectionCounterExhausted)
    );
}
