use smart_home::emulator::{take_line, SocketState};
use smart_home::socket::{expect_ok, parse_state, power_from};
use smart_home::{DeviceError, Reading};

fn reading(value: f32) -> Reading {
    Reading::new(value.to_bits(), value.to_string())
}

#[test]
fn expect_ok_accepts_only_ok() {
    assert!(expect_ok("OK").is_ok());
    match expect_ok("ok") {
        Err(DeviceError::Protocol(m)) => assert_eq!(m, "неожиданный ответ `ok`"),
        _ => panic!("expected a protocol error"),
    }
}

#[test]
fn parse_state_reads_the_first_three_words() {
    let (on, power) = parse_state("STATE on 123").unwrap();
    assert!(on);
    assert_eq!(power, "123");
    let (on, power) = parse_state("  STATE\toff  0 extra").unwrap();
    assert!(!on);
    assert_eq!(power, "0");
}

#[test]
fn parse_state_rejects_other_replies() {
    for reply in ["STATE maybe 1", "STATE on", "OK", "", "state on 1"] {
        match parse_state(reply) {
            Err(DeviceError::Protocol(m)) => assert_eq!(m, format!("неожиданный ответ `{reply}`")),
            _ => panic!("expected a protocol error for {reply:?}"),
        }
    }
}

#[test]
fn power_from_reports_a_word_that_is_not_a_number() {
    assert_eq!(power_from("12", Some(reading(12.0))).unwrap().text(), "12");
    match power_from("many", None) {
        Err(DeviceError::Protocol(m)) => assert_eq!(m, "некорректное значение мощности `many`"),
        _ => panic!("expected a protocol error"),
    }
}

#[test]
fn emulated_device_answers_commands() {
    let mut state = SocketState::new(false, reading(2000.0));
    assert_eq!(state.handle_command("GET_STATE"), "STATE off 0");
    assert_eq!(state.handle_command("TURN_ON"), "OK");
    assert!(state.is_on);
    assert_eq!(state.handle_command("GET_STATE"), "STATE on 2000");
    assert_eq!(state.handle_command("TURN_OFF"), "OK");
    assert!(!state.is_on);
    assert_eq!(state.handle_command("REBOOT"), "ERR unknown command");
    assert_eq!(state.answer_line("  TURN_ON\r\n"), "OK");
    assert!(state.is_on);
}

#[test]
fn take_line_cuts_complete_lines_only() {
    let mut buffer = b"TURN_ON\nGET_ST".to_vec();
    assert_eq!(take_line(&mut buffer).unwrap(), b"TURN_ON\n".to_vec());
    assert_eq!(buffer, b"GET_ST".to_vec());
    assert!(take_line(&mut buffer).is_none());
    assert_eq!(buffer, b"GET_ST".to_vec());
    buffer.extend_from_slice(b"ATE\n\n");
    assert_eq!(take_line(&mut buffer).unwrap(), b"GET_STATE\n".to_vec());
    assert_eq!(take_line(&mut buffer).unwrap(), b"\n".to_vec());
    assert!(buffer.is_empty());
}

#[test]
fn device_state_reply_parses_back_to_the_state() {
    let mut state = SocketState::new(true, reading(42.5));
    let reply = state.handle_command("GET_STATE");
    let (on, power) = parse_state(&reply).unwrap();
    assert!(on);
    assert_eq!(power, "42.5");
    assert!(expect_ok(&state.handle_command("TURN_OFF")).is_ok());
}
