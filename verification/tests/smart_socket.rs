use smart_home::smart_socket::SmartSocket;
use smart_home::Reading;

fn reading(value: f32) -> Reading {
    Reading::new(value.to_bits(), value.to_string())
}

fn value(reading: &Reading) -> f32 {
    f32::from_bits(reading.bits())
}

#[test]
fn new_socket_is_off_and_draws_no_power() {
    let socket = SmartSocket::new(reading(1500.0));

    assert!(!socket.is_on());
    assert_eq!(value(&socket.power()), 0.0);
}

#[test]
fn socket_changes_state_with_turn_on_and_turn_off() {
    let mut socket = SmartSocket::new(reading(1500.0));

    socket.turn_on();
    assert!(socket.is_on());
    assert_eq!(value(&socket.power()), 1500.0);

    socket.turn_off();
    assert!(!socket.is_on());
    assert_eq!(value(&socket.power()), 0.0);
}
