use smart_home::{Reading, Reporter, Room, SmartSocket, SmartThermometer};

fn reading(value: f32) -> Reading {
    Reading::new(value.to_bits(), value.to_string())
}

#[test]
fn collects_reports_from_all_added_objects() {
    let room = {
        let mut room = Room::new();
        room.add_device("socket", SmartSocket::new(false, reading(50.0)));
        room
    };
    let socket = SmartSocket::new(true, reading(100.0));
    let thermometer = SmartThermometer::new(reading(21.0));

    let report = Reporter::new()
        .add(&room)
        .add(&socket)
        .add(&thermometer)
        .report_string();

    assert!(report.contains("Устройство `socket`"));
    assert!(report.contains("Умная розетка. Включена: true"));
    assert!(report.contains("Умный термометр. Температура: 21"));
}

#[test]
fn empty_reporter_produces_empty_report() {
    assert_eq!(Reporter::new().report_string(), "");
}

#[test]
fn reports_come_one_per_line_in_the_order_added() {
    let socket = SmartSocket::new(true, reading(100.0));
    let thermometer = SmartThermometer::new(reading(21.0));
    let report = Reporter::new().add(&thermometer).add(socket).report_string();
    assert_eq!(
        report,
        "Умный термометр. Температура: 21°C\nУмная розетка. Включена: true. Текущая мощность: 100 W"
    );
}
