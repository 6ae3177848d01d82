use smart_home::api::{
    add_device, add_room, get_device, get_room, home_report, list_devices, list_rooms, remove_device,
    remove_room, DeviceRequest, DeviceSpec, RoomRequest, CONFLICT, CREATED, NOT_FOUND, NO_CONTENT,
};
use smart_home::{Reading, SmartHome};

fn reading(value: f32) -> Reading {
    Reading::new(value.to_bits(), value.to_string())
}

fn room(name: &str) -> RoomRequest {
    RoomRequest { name: name.to_string() }
}

fn socket(name: &str, is_on: bool, power: f32) -> DeviceRequest {
    DeviceRequest { name: name.to_string(), spec: DeviceSpec::Socket { is_on, power: reading(power) } }
}

#[test]
fn api_manages_rooms() {
    let mut home = SmartHome::new();
    assert!(list_rooms(&home).rooms.is_empty());

    for name in ["Кухня", "Гостиная"] {
        assert_eq!(add_room(&mut home, room(name)).unwrap(), CREATED);
    }

    let error = add_room(&mut home, room("Кухня")).unwrap_err();
    assert_eq!(error.status, CONFLICT);
    assert_eq!(error.body().error, "Комната `Кухня` уже существует");

    assert_eq!(list_rooms(&home).rooms, vec!["Гостиная", "Кухня"]);

    let info = get_room(&home, "Кухня").ok().unwrap();
    assert_eq!(info.name, "Кухня");
    assert!(info.devices.is_empty());

    assert_eq!(remove_room(&mut home, "Кухня").unwrap(), NO_CONTENT);
    assert_eq!(get_room(&home, "Кухня").err().unwrap().status, NOT_FOUND);
    assert_eq!(remove_room(&mut home, "Кухня").unwrap_err().status, NOT_FOUND);
}

#[test]
fn api_manages_devices_in_room() {
    let mut home = SmartHome::new();
    add_room(&mut home, room("Кухня")).unwrap();

    assert_eq!(add_device(&mut home, "Кухня", socket("Розетка", true, 1500.0)).unwrap(), CREATED);
    let thermometer = DeviceRequest {
        name: "Термометр".to_string(),
        spec: DeviceSpec::Thermometer { temperature: reading(24.5) },
    };
    assert_eq!(add_device(&mut home, "Кухня", thermometer).unwrap(), CREATED);

    let error = add_device(&mut home, "Кухня", socket("Розетка", false, 100.0)).unwrap_err();
    assert_eq!(error.status, CONFLICT);
    assert_eq!(error.message, "Устройство `Розетка` в комнате `Кухня` уже существует");

    let error = add_device(&mut home, "Чулан", socket("Розетка", false, 100.0)).unwrap_err();
    assert_eq!(error.status, NOT_FOUND);

    assert_eq!(list_devices(&home, "Кухня").ok().unwrap().devices, vec!["Розетка", "Термометр"]);

    let device = get_device(&home, "Кухня", "Розетка").ok().unwrap();
    assert_eq!(device.name, "Розетка");
    assert_eq!(device.room, "Кухня");
    assert_eq!(device.kind, "socket");
    assert!(device.report.contains("Умная розетка"), "report: {}", device.report);
    assert!(device.report.contains("1500"), "report: {}", device.report);

    let device = get_device(&home, "Кухня", "Термометр").ok().unwrap();
    assert_eq!(device.kind, "thermometer");
    assert!(device.report.contains("24.5"));

    let error = get_device(&home, "Кухня", "Утюг").err().unwrap();
    assert_eq!(error.status, NOT_FOUND);
    assert!(error.body().error.contains("Утюг"));

    assert_eq!(remove_device(&mut home, "Кухня", "Розетка").unwrap(), NO_CONTENT);
    assert_eq!(get_device(&home, "Кухня", "Розетка").err().unwrap().status, NOT_FOUND);
    assert_eq!(remove_device(&mut home, "Кухня", "Розетка").unwrap_err().status, NOT_FOUND);
    assert_eq!(get_device(&home, "Чулан", "Розетка").err().unwrap().message, "Комната `Чулан` не найдена");
}

#[test]
fn api_returns_home_report() {
    let mut home = SmartHome::new();
    add_room(&mut home, room("Спальня")).unwrap();
    add_device(&mut home, "Спальня", socket("Ночник", true, 40.0)).unwrap();

    let text = home_report(&home).report;
    assert!(text.contains("Отчёт по умному дому"), "report: {text}");
    assert!(text.contains("Комната `Спальня`"), "report: {text}");
    assert!(text.contains("Устройство `Ночник`"), "report: {text}");
    assert!(text.contains("Умная розетка"), "report: {text}");
}
