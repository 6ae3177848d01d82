use std::sync::Mutex;

use smart_home::{DeviceError, Reading, Report, SmartThermometer, TemperatureFeed};

fn reading(value: f32) -> Reading {
    Reading::new(value.to_bits(), value.to_string())
}

fn value(reading: &Reading) -> f32 {
    f32::from_bits(reading.bits())
}

/// Temperatures that arrive when the test delivers them.
struct Feed(std::sync::Arc<Mutex<Option<f32>>>);

impl TemperatureFeed for Feed {
    fn latest(&self) -> Option<Reading> {
        (*self.0.lock().unwrap()).map(reading)
    }

    fn local_addr(&self) -> Option<String> {
        Some("127.0.0.1:55441".to_string())
    }
}

#[test]
fn returns_stored_temperature() {
    let thermometer = SmartThermometer::new(reading(21.5));

    assert_eq!(value(&thermometer.get_temperature().unwrap()), 21.5);
}

#[test]
fn returns_no_data_before_first_packet() {
    let latest = std::sync::Arc::new(Mutex::new(None));
    let thermometer = SmartThermometer::fed(Box::new(Feed(latest)));

    assert!(thermometer.get_temperature().is_err());
}

#[test]
fn fed_thermometer_gives_the_latest_temperature() {
    let latest = std::sync::Arc::new(Mutex::new(None));
    let thermometer = SmartThermometer::fed(Box::new(Feed(latest.clone())));
    assert!(matches!(thermometer.get_temperature(), Err(DeviceError::NoData)));
    assert_eq!(
        thermometer.report(),
        "Умный термометр. Не удалось получить данные: Данные от устройства ещё не получены"
    );

    *latest.lock().unwrap() = Some(23.5);
    assert_eq!(value(&thermometer.get_temperature().unwrap()), 23.5);
    assert_eq!(thermometer.report(), "Умный термометр. Температура: 23.5°C");
    assert_eq!(thermometer.local_addr().unwrap(), "127.0.0.1:55441");
}

#[test]
fn emulated_thermometer_has_no_address() {
    let thermometer = SmartThermometer::new(reading(-4.25));
    assert!(thermometer.local_addr().is_none());
    assert_eq!(thermometer.report(), "Умный термометр. Температура: -4.25°C");
}
