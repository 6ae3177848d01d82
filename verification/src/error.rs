//! Errors of devices and of the home.
use vstd::prelude::*;

verus! {

/// What can go wrong when a device is asked for its state.
#[derive(Debug)]
pub enum DeviceError {
    /// The channel to the device failed; the text describes the failure.
    Io(String),
    /// The device answered something that is not in its protocol.
    Protocol(String),
    /// The device has not sent any data yet.
    NoData,
}

impl DeviceError {
    /// The text that describes the error.
    pub open spec fn message_text(&self) -> Seq<char> {
        match self {
            DeviceError::Io(e) => "Ошибка ввода-вывода: "@ + e@,
            DeviceError::Protocol(m) => "Ошибка протокола: "@ + m@,
            DeviceError::NoData => "Данные от устройства ещё не получены"@,
        }
    }

    /// The text that describes the error.
    pub fn message(&self) -> (r: String)
        ensures
            r@ == self.message_text(),
    {
        let mut r = String::new();
        match self {
            DeviceError::Io(e) => {
                r.append("Ошибка ввода-вывода: ");
                r.append(e.as_str());
            },
            DeviceError::Protocol(m) => {
                r.append("Ошибка протокола: ");
                r.append(m.as_str());
            },
            DeviceError::NoData => {
                r.append("Данные от устройства ещё не получены");
            },
        }
        r
    }
}

/// A room or a device that the home does not have.
#[derive(Debug, PartialEq, Eq)]
pub enum SmartHomeError {
    RoomNotFound { room: String },
    DeviceNotFound { room: String, device: String },
}

impl SmartHomeError {
    /// The text that describes the error.
    pub open spec fn message_text(&self) -> Seq<char> {
        match self {
            SmartHomeError::RoomNotFound { room } => "Комната `"@ + room@ + "` не найдена"@,
            SmartHomeError::DeviceNotFound { room, device } =>
                "Устройство `"@ + device@ + "` в комнате `"@ + room@ + "` не найдено"@,
        }
    }

    /// The text that describes the error.
    pub fn message(&self) -> (r: String)
        ensures
            r@ == self.message_text(),
    {
        let mut r = String::new();
        match self {
            SmartHomeError::RoomNotFound { room } => {
                r.append("Комната `");
                r.append(room.as_str());
                r.append("` не найдена");
            },
            SmartHomeError::DeviceNotFound { room, device } => {
                r.append("Устройство `");
                r.append(device.as_str());
                r.append("` в комнате `");
                r.append(room.as_str());
                r.append("` не найдено");
            },
        }
        r
    }
}

} // verus!
