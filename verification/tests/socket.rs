use std::sync::Mutex;

use smart_home::emulator::SocketState;
use smart_home::{DeviceError, Reading, Report, SmartSocket, SocketLink};

fn reading(value: f32) -> Reading {
    Reading::new(value.to_bits(), value.to_string())
}

fn value(reading: &Reading) -> f32 {
    f32::from_bits(reading.bits())
}

/// A link to an emulated device in memory: every command line goes to the
/// device's protocol handler, as a TCP device would receive it.
struct EmulatedDevice(Mutex<SocketState>);

impl SocketLink for EmulatedDevice {
    fn exchange(&self, command: &str) -> Result<String, DeviceError> {
        let mut state = self.0.lock().unwrap();
        Ok(format!("{}\n", state.answer_line(&format!("{command}\n"))))
    }

    fn number(&self, word: &str) -> Option<Reading> {
        word.parse::<f32>().ok().map(reading)
    }
}

/// A link whose device never answers.
struct DeadLink;

impl SocketLink for DeadLink {
    fn exchange(&self, _command: &str) -> Result<String, DeviceError> {
        Err(DeviceError::Io("connection refused".to_string()))
    }

    fn number(&self, word: &str) -> Option<Reading> {
        word.parse::<f32>().ok().map(reading)
    }
}

/// A link whose device answers `reply` to everything.
struct FixedReply(&'static str);

impl SocketLink for FixedReply {
    fn exchange(&self, _command: &str) -> Result<String, DeviceError> {
        Ok(self.0.to_string())
    }

    fn number(&self, word: &str) -> Option<Reading> {
        word.parse::<f32>().ok().map(reading)
    }
}

#[test]
fn reports_zero_power_when_turned_off() {
    let socket = SmartSocket::new(false, reading(150.0));

    assert!(!socket.is_on().unwrap());
    assert_eq!(value(&socket.get_power().unwrap()), 0.0);
}

#[test]
fn changes_state_with_turn_on_and_turn_off() {
    let mut socket = SmartSocket::new(false, reading(200.0));

    socket.turn_on().unwrap();
    assert!(socket.is_on().unwrap());
    assert_eq!(value(&socket.get_power().unwrap()), 200.0);

    socket.turn_off().unwrap();
    assert!(!socket.is_on().unwrap());
    assert_eq!(value(&socket.get_power().unwrap()), 0.0);
}

#[test]
fn controls_linked_socket_through_device_protocol() {
    let device = EmulatedDevice(Mutex::new(SocketState::new(false, reading(123.0))));
    let mut socket = SmartSocket::linked(Box::new(device));

    socket.turn_on().unwrap();
    assert!(socket.is_on().unwrap());
    assert_eq!(value(&socket.get_power().unwrap()), 123.0);

    socket.turn_off().unwrap();
    assert!(!socket.is_on().unwrap());
    assert_eq!(value(&socket.get_power().unwrap()), 0.0);
}

#[test]
fn linked_report_contains_error_when_device_is_down() {
    let socket = SmartSocket::linked(Box::new(DeadLink));
    assert_eq!(
        socket.report(),
        "Умная розетка. Не удалось получить данные: Ошибка ввода-вывода: connection refused"
    );
}

#[test]
fn linked_socket_rejects_unexpected_replies() {
    let mut socket = SmartSocket::linked(Box::new(FixedReply("ERR unknown command")));
    match socket.turn_on() {
        Err(DeviceError::Protocol(message)) => {
            assert_eq!(message, "неожиданный ответ `ERR unknown command`")
        }
        _ => panic!("expected a protocol error"),
    }
    match socket.is_on() {
        Err(DeviceError::Protocol(message)) => {
            assert_eq!(message, "неожиданный ответ `ERR unknown command`")
        }
        _ => panic!("expected a protocol error"),
    }
}

#[test]
fn linked_socket_rejects_a_power_that_is_not_a_number() {
    let socket = SmartSocket::linked(Box::new(FixedReply("STATE on lots\n")));
    match socket.get_power() {
        Err(DeviceError::Protocol(message)) => {
            assert_eq!(message, "некорректное значение мощности `lots`")
        }
        _ => panic!("expected a protocol error"),
    }
}

#[test]
fn emulated_socket_report_is_exact() {
    let mut socket = SmartSocket::new(true, reading(1500.0));
    assert_eq!(socket.report(), "Умная розетка. Включена: true. Текущая мощность: 1500 W");
    socket.turn_off().unwrap();
    assert_eq!(socket.report(), "Умная розетка. Включена: false. Текущая мощность: 0 W");
}

#[test]
fn device_error_messages() {
    assert_eq!(DeviceError::NoData.message(), "Данные от устройства ещё не получены");
    assert_eq!(DeviceError::Protocol("x".to_string()).message(), "Ошибка протокола: x");
    assert_eq!(DeviceError::Io("y".to_string()).message(), "Ошибка ввода-вывода: y");
}
