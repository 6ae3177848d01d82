use std::sync::{Arc, Mutex};

use smart_home::{Reading, Report, Room, SmartDevice, SmartSocket, SmartThermometer, Subscriber};

fn reading(value: f32) -> Reading {
    Reading::new(value.to_bits(), value.to_string())
}

fn value(reading: &Reading) -> f32 {
    f32::from_bits(reading.bits())
}

/// A closure as a subscriber.
struct Callback<F>(F);

impl<F: FnMut(&str, &SmartDevice) + Send> Subscriber for Callback<F> {
    fn on_device_added(&mut self, name: &str, device: &SmartDevice) {
        (self.0)(name, device)
    }
}

#[test]
fn notifies_closure_subscriber_on_device_added() {
    let events = Arc::new(Mutex::new(Vec::new()));

    let mut room = Room::new();
    room.subscribe(Box::new(Callback({
        let events = Arc::clone(&events);
        move |name: &str, _device: &SmartDevice| {
            events.lock().unwrap().push(name.to_string());
        }
    })));

    room.add_device("socket", SmartSocket::new(true, reading(100.0)));
    room.add_device("thermometer", SmartThermometer::new(reading(20.0)));

    assert_eq!(*events.lock().unwrap(), ["socket", "thermometer"]);
}

#[test]
fn notifies_object_subscriber_on_device_added() {
    struct EventLog(Arc<Mutex<Vec<String>>>);

    impl Subscriber for EventLog {
        fn on_device_added(&mut self, name: &str, device: &SmartDevice) {
            self.0
                .lock()
                .unwrap()
                .push(format!("{name}: {}", device.report()));
        }
    }

    let events = Arc::new(Mutex::new(Vec::new()));

    let mut room = Room::new();
    room.subscribe(Box::new(EventLog(Arc::clone(&events))));
    room.add_device("socket", SmartSocket::new(true, reading(100.0)));

    let events = events.lock().unwrap();
    assert_eq!(events.len(), 1);
    assert!(events[0].starts_with("socket: Умная розетка"));
}

#[test]
fn returns_device_by_key() {
    let mut room = Room::new();
    room.add_device("thermometer", SmartThermometer::new(reading(22.0)));
    room.add_device("socket", SmartSocket::new(true, reading(100.0)));

    match room.get_device("thermometer") {
        Some(SmartDevice::Thermometer(thermometer)) => {
            assert_eq!(value(&thermometer.get_temperature().unwrap()), 22.0);
        }
        _ => panic!("expected thermometer"),
    }

    assert!(room.get_device("unknown").is_none());
}

#[test]
fn allows_mutating_device_by_key() {
    let mut room = Room::new();
    room.add_device("socket", SmartSocket::new(true, reading(100.0)));

    match room.get_device_mut("socket") {
        Some(SmartDevice::Socket(socket)) => socket.turn_off().unwrap(),
        _ => panic!("expected socket"),
    }

    match room.get_device("socket") {
        Some(SmartDevice::Socket(socket)) => {
            assert!(!socket.is_on().unwrap());
            assert_eq!(value(&socket.get_power().unwrap()), 0.0);
        }
        _ => panic!("expected socket"),
    }
}

#[test]
fn removes_device_by_key() {
    let mut room = Room::new();
    room.add_device("socket", SmartSocket::new(true, reading(100.0)));

    assert!(room.remove_device("socket").is_some());
    assert!(room.get_device("socket").is_none());
}

#[test]
fn macro_builds_room_from_devices() {
    let room = {
        let mut room = Room::new();
        room.add_device("thermometer", SmartThermometer::new(reading(22.0)));
        room.add_device("socket", SmartSocket::new(true, reading(100.0)));
        room
    };

    match room.get_device("thermometer") {
        Some(SmartDevice::Thermometer(thermometer)) => {
            assert_eq!(value(&thermometer.get_temperature().unwrap()), 22.0);
        }
        _ => panic!("expected thermometer"),
    }
}

#[test]
fn report_contains_all_devices() {
    let room = {
        let mut room = Room::new();
        room.add_device("socket", SmartSocket::new(true, reading(100.0)));
        room.add_device("thermometer", SmartThermometer::new(reading(22.0)));
        room
    };

    let report = room.report();
    assert!(report.contains("Устройство `socket`"));
    assert!(report.contains("Устройство `thermometer`"));
}

#[test]
fn room_report_is_exact_and_in_name_order() {
    let mut room = Room::new();
    room.add_device("thermometer", SmartThermometer::new(reading(22.5)));
    room.add_device("socket", SmartSocket::new(false, reading(100.0)));

    assert_eq!(
        room.report(),
        "  Устройство `socket`: Умная розетка. Включена: false. Текущая мощность: 0 W\n  \
         Устройство `thermometer`: Умный термометр. Температура: 22.5°C"
    );
}

#[test]
fn empty_room_report_says_no_devices() {
    assert_eq!(Room::new().report(), "  Нет устройств.");
}

#[test]
fn adding_under_a_taken_name_returns_the_previous_device() {
    let mut room = Room::new();
    assert!(room.add_device("lamp", SmartSocket::new(true, reading(40.0))).is_none());
    let previous = room.add_device("lamp", SmartThermometer::new(reading(19.0)));
    assert!(matches!(previous, Some(SmartDevice::Socket(_))));
    assert!(matches!(room.get_device("lamp"), Some(SmartDevice::Thermometer(_))));
    assert_eq!(room.device_names(), vec!["lamp"]);
}

#[test]
fn device_names_and_devices_are_sorted() {
    let mut room = Room::with_devices(vec![
        ("b".to_string(), SmartSocket::new(true, reading(1.0)).into()),
        ("a".to_string(), SmartThermometer::new(reading(2.0)).into()),
    ]);
    room.add_device("c", SmartSocket::new(false, reading(3.0)));
    assert_eq!(room.device_names(), vec!["a", "b", "c"]);
    let names: Vec<String> = room.devices().into_iter().map(|(name, _)| name).collect();
    assert_eq!(names, vec!["a", "b", "c"]);
}

#[test]
fn removing_a_missing_device_changes_nothing() {
    let mut room = Room::new();
    room.add_device("socket", SmartSocket::new(true, reading(10.0)));
    assert!(room.remove_device("lamp").is_none());
    assert_eq!(room.device_names(), vec!["socket"]);
}

#[test]
fn every_subscriber_hears_each_addition_in_subscription_order() {
    let events = Arc::new(Mutex::new(Vec::new()));
    let listener = |tag: &'static str| {
        let events = Arc::clone(&events);
        Callback(move |name: &str, _device: &SmartDevice| {
            events.lock().unwrap().push(format!("{tag}:{name}"));
        })
    };

    let mut room = Room::new();
    room.subscribe(Box::new(listener("first")));
    room.add_device("socket", SmartSocket::new(false, reading(5.0)));
    room.subscribe(Box::new(listener("second")));
    room.add_device("thermometer", SmartThermometer::new(reading(21.5)));
    room.remove_device("socket");
    room.add_device("socket", SmartSocket::new(true, reading(7.0)));

    assert_eq!(
        *events.lock().unwrap(),
        [
            "first:socket",
            "first:thermometer",
            "second:thermometer",
            "first:socket",
            "second:socket",
        ]
    );
}

#[test]
fn subscribing_and_removing_call_nobody() {
    let events = Arc::new(Mutex::new(Vec::new()));
    let mut room = Room::new();
    room.add_device("socket", SmartSocket::new(true, reading(3.0)));
    room.subscribe(Box::new(Callback({
        let events = Arc::clone(&events);
        move |name: &str, _device: &SmartDevice| {
            events.lock().unwrap().push(name.to_string());
        }
    })));
    room.remove_device("socket");
    assert!(room.get_device("socket").is_none());
    assert!(events.lock().unwrap().is_empty());
}
