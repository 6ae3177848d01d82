//! A smart home: rooms of named devices, their reports and the rules of the
//! services built on them.
pub mod text;
pub mod registry;
pub mod reading;
pub mod error;
pub mod report;
pub mod socket;
pub mod thermometer;
pub mod device;
pub mod room;
pub mod home;
pub mod reporter;
pub mod builder;
pub mod smart_socket;
pub mod emulator;
pub mod config;
pub mod api;
pub mod laws;

pub use error::{DeviceError, SmartHomeError};
pub use reading::Reading;
pub use report::Report;
pub use socket::{SmartSocket, SocketLink};
pub use thermometer::{SmartThermometer, TemperatureFeed};
pub use device::SmartDevice;
pub use room::{Room, Subscriber};
pub use home::SmartHome;
pub use reporter::{ReportSources, Reporter};
pub use builder::{HomeBuilder, HomeBuilderWithRooms};
