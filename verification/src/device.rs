//! A device of a room: a thermometer or a socket.
use vstd::prelude::*;
use crate::report::Report;
use crate::socket::SmartSocket;
use crate::thermometer::SmartThermometer;

verus! {

/// A device of a room.
pub enum SmartDevice {
    Thermometer(SmartThermometer),
    Socket(SmartSocket),
}

impl From<SmartSocket> for SmartDevice {
    fn from(socket: SmartSocket) -> (r: SmartDevice) {
        SmartDevice::Socket(socket)
    }
}

impl vstd::std_specs::convert::FromSpecImpl<SmartSocket> for SmartDevice {
    open spec fn obeys_from_spec() -> bool {
        true
    }

    open spec fn from_spec(socket: SmartSocket) -> SmartDevice {
        SmartDevice::Socket(socket)
    }
}

impl From<SmartThermometer> for SmartDevice {
    fn from(thermometer: SmartThermometer) -> (r: SmartDevice) {
        SmartDevice::Thermometer(thermometer)
    }
}

impl vstd::std_specs::convert::FromSpecImpl<SmartThermometer> for SmartDevice {
    open spec fn obeys_from_spec() -> bool {
        true
    }

    open spec fn from_spec(thermometer: SmartThermometer) -> SmartDevice {
        SmartDevice::Thermometer(thermometer)
    }
}

impl Report for SmartDevice {
    open spec fn is_report(&self, text: Seq<char>) -> bool {
        match self {
            SmartDevice::Thermometer(t) => t.is_report(text),
            SmartDevice::Socket(s) => s.is_report(text),
        }
    }

    fn report(&self) -> (r: String) {
        match self {
            SmartDevice::Thermometer(t) => t.report(),
            SmartDevice::Socket(s) => s.report(),
        }
    }
}

} // verus!
