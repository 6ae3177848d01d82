use smart_home::{HomeBuilder, Reading, SmartDevice, SmartSocket, SmartThermometer};

fn reading(value: f32) -> Reading {
    Reading::new(value.to_bits(), value.to_string())
}

#[test]
fn builds_home_with_rooms_and_devices() {
    let home = HomeBuilder::new()
        .add_room("living room")
        .add_device("socket_1", SmartSocket::new(true, reading(150.0)))
        .add_device("thermo_1", SmartThermometer::new(reading(23.5)))
        .add_room("bedroom")
        .add_device("socket_2", SmartSocket::new(false, reading(60.0)))
        .build();

    assert!(home.get_smart_device("living room", "socket_1").is_ok());
    assert!(home.get_smart_device("living room", "thermo_1").is_ok());
    assert!(home.get_smart_device("bedroom", "socket_2").is_ok());
}

#[test]
fn builds_home_with_empty_rooms() {
    let home = HomeBuilder::new()
        .add_room("hall")
        .add_room("attic")
        .build();

    assert!(home.get_room("hall").is_some());
    assert!(home.get_room("attic").is_some());
}

#[test]
fn devices_go_into_the_room_added_last() {
    let home = HomeBuilder::new()
        .add_room("hall")
        .add_room("attic")
        .add_device("lamp", SmartSocket::new(true, reading(40.0)))
        .build();

    assert!(home.get_smart_device("hall", "lamp").is_err());
    assert!(matches!(home.get_smart_device("attic", "lamp"), Ok(SmartDevice::Socket(_))));
    assert_eq!(home.room_names(), vec!["attic", "hall"]);
}
