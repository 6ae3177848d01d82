//! The rules of the home's web service: what each request does to the home
//! and what it is answered, as status codes and response bodies.
use vstd::prelude::*;
use vstd::std_specs::convert::{FromSpec, FromSpecImpl};
use crate::device::SmartDevice;
use crate::home::SmartHome;
use crate::reading::Reading;
use crate::report::Report;
use crate::room::{Room, lists_keys_in_order};
use crate::socket::SmartSocket;
use crate::thermometer::SmartThermometer;
use crate::text::views;

verus! {

/// `201 Created`.
pub const CREATED: u16 = 201;

/// `204 No Content`.
pub const NO_CONTENT: u16 = 204;

/// `404 Not Found`.
pub const NOT_FOUND: u16 = 404;

/// `409 Conflict`.
pub const CONFLICT: u16 = 409;

/// A refused request: its status code and the message for the client.
#[derive(Debug)]
pub struct ApiError {
    pub status: u16,
    pub message: String,
}

/// The body of a refusal: `{"error": "..."}`.
pub struct ErrorBody {
    pub error: String,
}

/// The body of `GET /rooms`.
pub struct RoomListResponse {
    pub rooms: Vec<String>,
}

/// The body of `POST /rooms`.
pub struct RoomRequest {
    pub name: String,
}

/// The body of `GET /rooms/{room}`.
pub struct RoomResponse {
    pub name: String,
    pub devices: Vec<String>,
}

/// The body of `GET /rooms/{room}/devices`.
pub struct DeviceListResponse {
    pub devices: Vec<String>,
}

/// A device as a request describes it.
pub enum DeviceSpec {
    Socket { is_on: bool, power: Reading },
    Thermometer { temperature: Reading },
}

/// The body of `POST /rooms/{room}/devices`.
pub struct DeviceRequest {
    pub name: String,
    pub spec: DeviceSpec,
}

/// The body of `GET /rooms/{room}/devices/{device}`.
pub struct DeviceResponse {
    pub name: String,
    pub room: String,
    pub kind: String,
    pub report: String,
}

/// The body of `GET /report`.
pub struct ReportResponse {
    pub report: String,
}

impl ApiError {
    pub fn not_found(message: String) -> (r: ApiError)
        ensures
            r.status == NOT_FOUND,
            r.message == message,
    {
        ApiError { status: NOT_FOUND, message }
    }

    pub fn conflict(message: String) -> (r: ApiError)
        ensures
            r.status == CONFLICT,
            r.message == message,
    {
        ApiError { status: CONFLICT, message }
    }

    /// The body the client receives.
    pub fn body(&self) -> (r: ErrorBody)
        ensures
            r.error@ == self.message@,
    {
        ErrorBody { error: self.message.clone() }
    }
}

impl From<DeviceSpec> for SmartDevice {
    fn from(spec: DeviceSpec) -> (r: SmartDevice) {
        match spec {
            DeviceSpec::Socket { is_on, power } => SmartDevice::Socket(SmartSocket::new(is_on, power)),
            DeviceSpec::Thermometer { temperature } => SmartDevice::Thermometer(SmartThermometer::new(temperature)),
        }
    }
}

impl FromSpecImpl<DeviceSpec> for SmartDevice {
    open spec fn obeys_from_spec() -> bool {
        true
    }

    open spec fn from_spec(spec: DeviceSpec) -> SmartDevice {
        match spec {
            DeviceSpec::Socket { is_on, power } => SmartDevice::Socket(SmartSocket::emulated(is_on, power)),
            DeviceSpec::Thermometer { temperature } => SmartDevice::Thermometer(
                SmartThermometer::emulated(temperature),
            ),
        }
    }
}

/// The message about a missing room.
pub open spec fn room_not_found_text(room: Seq<char>) -> Seq<char> {
    "Комната `"@ + room + "` не найдена"@
}

/// The message about a missing device.
pub open spec fn device_not_found_text(room: Seq<char>, device: Seq<char>) -> Seq<char> {
    "Устройство `"@ + device + "` в комнате `"@ + room + "` не найдено"@
}

/// The message about a room that exists already.
pub open spec fn room_exists_text(room: Seq<char>) -> Seq<char> {
    "Комната `"@ + room + "` уже существует"@
}

/// The message about a device that exists already.
pub open spec fn device_exists_text(room: Seq<char>, device: Seq<char>) -> Seq<char> {
    "Устройство `"@ + device + "` в комнате `"@ + room + "` уже существует"@
}

/// The kind of a device as the service names it.
pub open spec fn kind_text(device: SmartDevice) -> Seq<char> {
    match device {
        SmartDevice::Socket(_) => "socket"@,
        SmartDevice::Thermometer(_) => "thermometer"@,
    }
}

pub fn room_not_found(room: &str) -> (r: ApiError)
    ensures
        r.status == NOT_FOUND,
        r.message@ == room_not_found_text(room@),
{
    let mut m = String::new();
    m.append("Комната `");
    m.append(room);
    m.append("` не найдена");
    ApiError::not_found(m)
}

pub fn device_not_found(room: &str, device: &str) -> (r: ApiError)
    ensures
        r.status == NOT_FOUND,
        r.message@ == device_not_found_text(room@, device@),
{
    let mut m = String::new();
    m.append("Устройство `");
    m.append(device);
    m.append("` в комнате `");
    m.append(room);
    m.append("` не найдено");
    ApiError::not_found(m)
}

/// `GET /rooms`: the room names in increasing order.
pub fn list_rooms(home: &SmartHome) -> (r: RoomListResponse)
    ensures
        lists_keys_in_order(views(r.rooms@), home.view()),
{
    RoomListResponse { rooms: home.room_names() }
}

/// `POST /rooms`: adds an empty room, unless one of that name exists.
pub fn add_room(home: &mut SmartHome, request: RoomRequest) -> (r: Result<u16, ApiError>)
    ensures
        old(home).view().contains_key(request.name@) ==> {
            &&& r matches Err(e) && e.status == CONFLICT && e.message@ == room_exists_text(request.name@)
            &&& final(home).view() == old(home).view()
        },
        !old(home).view().contains_key(request.name@) ==> {
            &&& r == Ok::<u16, ApiError>(CREATED)
            &&& final(home).view() == old(home).view().insert(request.name@, final(home).view()[request.name@])
            &&& final(home).view()[request.name@].view() == Map::<Seq<char>, SmartDevice>::empty()
        },
{
    if home.get_room(request.name.as_str()).is_some() {
        let mut m = String::new();
        m.append("Комната `");
        m.append(request.name.as_str());
        m.append("` уже существует");
        return Err(ApiError::conflict(m));
    }
    home.add_room(request.name.as_str(), Room::new());
    Ok(CREATED)
}

/// `GET /rooms/{room}`: the room's name and its device names in order.
pub fn get_room(home: &SmartHome, room_name: &str) -> (r: Result<RoomResponse, ApiError>)
    ensures
        match r {
            Ok(body) => {
                &&& home.view().contains_key(room_name@)
                &&& body.name@ == room_name@
                &&& lists_keys_in_order(views(body.devices@), home.view()[room_name@].view())
            },
            Err(e) => {
                &&& !home.view().contains_key(room_name@)
                &&& e.status == NOT_FOUND
                &&& e.message@ == room_not_found_text(room_name@)
            },
        },
{
    match home.get_room(room_name) {
        Some(room) => Ok(RoomResponse { name: room_name.to_owned(), devices: room.device_names() }),
        None => Err(room_not_found(room_name)),
    }
}

/// `DELETE /rooms/{room}`.
pub fn remove_room(home: &mut SmartHome, room_name: &str) -> (r: Result<u16, ApiError>)
    ensures
        final(home).view() == old(home).view().remove(room_name@),
        old(home).view().contains_key(room_name@) ==> r == Ok::<u16, ApiError>(NO_CONTENT),
        !old(home).view().contains_key(room_name@) ==> (r matches Err(e) && e.status == NOT_FOUND
            && e.message@ == room_not_found_text(room_name@)),
{
    match home.remove_room(room_name) {
        Some(_) => Ok(NO_CONTENT),
        None => Err(room_not_found(room_name)),
    }
}

/// `GET /rooms/{room}/devices`: the device names of the room in order.
pub fn list_devices(home: &SmartHome, room_name: &str) -> (r: Result<DeviceListResponse, ApiError>)
    ensures
        match r {
            Ok(body) => {
                &&& home.view().contains_key(room_name@)
                &&& lists_keys_in_order(views(body.devices@), home.view()[room_name@].view())
            },
            Err(e) => {
                &&& !home.view().contains_key(room_name@)
                &&& e.status == NOT_FOUND
                &&& e.message@ == room_not_found_text(room_name@)
            },
        },
{
    match home.get_room(room_name) {
        Some(room) => Ok(DeviceListResponse { devices: room.device_names() }),
        None => Err(room_not_found(room_name)),
    }
}

/// `POST /rooms/{room}/devices`: adds the described device, unless the room
/// is missing or has a device of that name.
pub fn add_device(home: &mut SmartHome, room_name: &str, request: DeviceRequest) -> (r: Result<u16, ApiError>)
    ensures
        !old(home).view().contains_key(room_name@) ==> {
            &&& r matches Err(e) && e.status == NOT_FOUND && e.message@ == room_not_found_text(room_name@)
            &&& final(home).view() == old(home).view()
        },
        old(home).view().contains_key(room_name@) && old(home).view()[room_name@].view().contains_key(request.name@) ==> {
            &&& r matches Err(e) && e.status == CONFLICT && e.message@ == device_exists_text(room_name@, request.name@)
            &&& final(home).view() == old(home).view()
        },
        old(home).view().contains_key(room_name@) && !old(home).view()[room_name@].view().contains_key(request.name@) ==> {
            &&& r == Ok::<u16, ApiError>(CREATED)
            &&& final(home).view() == old(home).view().insert(room_name@, final(home).view()[room_name@])
            &&& final(home).view()[room_name@].view() == old(home).view()[room_name@].view().insert(
                request.name@,
                <SmartDevice as FromSpec<DeviceSpec>>::from_spec(request.spec),
            )
        },
{
    match home.get_room_mut(room_name) {
        None => Err(room_not_found(room_name)),
        Some(room) => {
            if room.get_device(request.name.as_str()).is_some() {
                let mut m = String::new();
                m.append("Устройство `");
                m.append(request.name.as_str());
                m.append("` в комнате `");
                m.append(room_name);
                m.append("` уже существует");
                return Err(ApiError::conflict(m));
            }
            room.add_device(request.name.as_str(), request.spec);
            Ok(CREATED)
        },
    }
}

/// `GET /rooms/{room}/devices/{device}`: the device's name, room, kind and
/// report.
pub fn get_device(home: &SmartHome, room_name: &str, device_name: &str) -> (r: Result<DeviceResponse, ApiError>)
    ensures
        match r {
            Ok(body) => {
                &&& home.view().contains_key(room_name@)
                &&& home.view()[room_name@].view().contains_key(device_name@)
                &&& body.name@ == device_name@
                &&& body.room@ == room_name@
                &&& body.kind@ == kind_text(home.view()[room_name@].view()[device_name@])
                &&& home.view()[room_name@].view()[device_name@].is_report(body.report@)
            },
            Err(e) => {
                &&& e.status == NOT_FOUND
                &&& !home.view().contains_key(room_name@) ==> e.message@ == room_not_found_text(room_name@)
                &&& home.view().contains_key(room_name@) ==> {
                    &&& !home.view()[room_name@].view().contains_key(device_name@)
                    &&& e.message@ == device_not_found_text(room_name@, device_name@)
                }
            },
        },
{
    match home.get_smart_device(room_name, device_name) {
        Ok(device) => {
            let kind = match device {
                SmartDevice::Socket(_) => "socket",
                SmartDevice::Thermometer(_) => "thermometer",
            };
            Ok(
                DeviceResponse {
                    name: device_name.to_owned(),
                    room: room_name.to_owned(),
                    kind: kind.to_owned(),
                    report: device.report(),
                },
            )
        },
        Err(_) => match home.get_room(room_name) {
            Some(_) => Err(device_not_found(room_name, device_name)),
            None => Err(room_not_found(room_name)),
        },
    }
}

/// `DELETE /rooms/{room}/devices/{device}`.
pub fn remove_device(home: &mut SmartHome, room_name: &str, device_name: &str) -> (r: Result<u16, ApiError>)
    ensures
        !old(home).view().contains_key(room_name@) ==> {
            &&& r matches Err(e) && e.status == NOT_FOUND && e.message@ == room_not_found_text(room_name@)
            &&& final(home).view() == old(home).view()
        },
        old(home).view().contains_key(room_name@) ==> {
            &&& final(home).view() == old(home).view().insert(room_name@, final(home).view()[room_name@])
            &&& final(home).view()[room_name@].view() == old(home).view()[room_name@].view().remove(device_name@)
            &&& old(home).view()[room_name@].view().contains_key(device_name@) ==> r == Ok::<u16, ApiError>(NO_CONTENT)
            &&& !old(home).view()[room_name@].view().contains_key(device_name@) ==> (r matches Err(e) && e.status
                == NOT_FOUND && e.message@ == device_not_found_text(room_name@, device_name@))
        },
{
    match home.get_room_mut(room_name) {
        None => Err(room_not_found(room_name)),
        Some(room) => match room.remove_device(device_name) {
            Some(_) => Ok(NO_CONTENT),
            None => Err(device_not_found(room_name, device_name)),
        },
    }
}

/// `GET /report`: the home report.
pub fn home_report(home: &SmartHome) -> (r: ReportResponse)
    ensures
        home.is_report(r.report@),
{
    ReportResponse { report: home.report() }
}

} // verus!
