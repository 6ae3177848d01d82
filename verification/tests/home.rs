use smart_home::{Reading, Report, Room, SmartDevice, SmartHome, SmartHomeError, SmartSocket, SmartThermometer};

fn reading(value: f32) -> Reading {
    Reading::new(value.to_bits(), value.to_string())
}

fn value(reading: &Reading) -> f32 {
    f32::from_bits(reading.bits())
}

#[test]
fn allows_mutating_devices_inside_room() {
    let mut room = Room::new();
    room.add_device("socket", SmartSocket::new(true, reading(75.0)));

    let mut home = SmartHome::new();
    home.add_room("living room", room);

    match home.get_smart_device_mut("living room", "socket") {
        Ok(SmartDevice::Socket(socket)) => socket.turn_off().unwrap(),
        _ => panic!("expected socket"),
    }

    match home.get_smart_device("living room", "socket") {
        Ok(SmartDevice::Socket(socket)) => {
            assert!(!socket.is_on().unwrap());
            assert_eq!(value(&socket.get_power().unwrap()), 0.0);
        }
        _ => panic!("expected socket"),
    }
}

#[test]
fn adds_and_removes_rooms() {
    let mut home = SmartHome::new();

    home.add_room("living room", Room::new());
    assert!(home.get_room("living room").is_some());

    assert!(home.remove_room("living room").is_some());
    assert!(home.get_room("living room").is_none());
}

#[test]
fn returns_specific_error_for_missing_room_or_device() {
    let mut home = SmartHome::new();
    home.add_room("living room", Room::new());

    assert_eq!(
        home.get_smart_device("kitchen", "socket").err().unwrap(),
        SmartHomeError::RoomNotFound {
            room: "kitchen".to_string()
        }
    );

    assert_eq!(
        home.get_smart_device("living room", "socket").err().unwrap(),
        SmartHomeError::DeviceNotFound {
            room: "living room".to_string(),
            device: "socket".to_string(),
        }
    );
}

#[test]
fn report_contains_room_names() {
    let mut home = SmartHome::new();
    home.add_room("living room", Room::new());

    assert!(home.report().contains("Комната `living room`"));
}

#[test]
fn home_report_of_empty_home_says_no_rooms() {
    let home = SmartHome::new();
    assert_eq!(home.report(), "Отчёт по умному дому:\nНет комнат.");
}

#[test]
fn home_report_lists_rooms_in_name_order() {
    let mut home = SmartHome::new();
    let mut kitchen = Room::new();
    kitchen.add_device("kettle", SmartSocket::new(true, reading(750.0)));
    home.add_room("kitchen", kitchen);
    home.add_room("bedroom", Room::new());

    assert_eq!(
        home.report(),
        "Отчёт по умному дому:\
         \nКомната `bedroom`:\n  Нет устройств.\
         \nКомната `kitchen`:\n  Устройство `kettle`: Умная розетка. Включена: true. Текущая мощность: 750 W"
    );
}

#[test]
fn adding_a_room_again_replaces_it_and_returns_the_old_one() {
    let mut home = SmartHome::new();
    let mut first = Room::new();
    first.add_device("lamp", SmartSocket::new(false, reading(40.0)));
    assert!(home.add_room("hall", first).is_none());

    let previous = home.add_room("hall", Room::new()).unwrap();
    assert!(previous.get_device("lamp").is_some());
    assert!(home.get_room("hall").unwrap().get_device("lamp").is_none());
}

#[test]
fn room_names_are_sorted() {
    let mut home = SmartHome::new();
    for name in ["Кухня", "Гостиная", "attic", "Attic"] {
        home.add_room(name, Room::new());
    }
    assert_eq!(home.room_names(), vec!["Attic", "attic", "Гостиная", "Кухня"]);
}

#[test]
fn with_rooms_keeps_the_last_of_equal_names() {
    let mut second = Room::new();
    second.add_device("thermometer", SmartThermometer::new(reading(18.0)));
    let home = SmartHome::with_rooms(vec![
        ("hall".to_string(), Room::new()),
        ("hall".to_string(), second),
        ("attic".to_string(), Room::new()),
    ]);
    assert_eq!(home.room_names(), vec!["attic", "hall"]);
    assert!(home.get_room("hall").unwrap().get_device("thermometer").is_some());
}

#[test]
fn missing_room_message_names_the_room() {
    let error = SmartHomeError::RoomNotFound { room: "kitchen".to_string() };
    assert_eq!(error.message(), "Комната `kitchen` не найдена");
    let error = SmartHomeError::DeviceNotFound { room: "hall".to_string(), device: "lamp".to_string() };
    assert_eq!(error.message(), "Устройство `lamp` в комнате `hall` не найдено");
}
