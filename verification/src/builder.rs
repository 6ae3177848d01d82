//! Builds a home room by room. Devices can only be added once there is a
//! room: `HomeBuilder` has no `add_device`, `HomeBuilderWithRooms` adds to the
//! room added last.
use vstd::prelude::*;
use vstd::std_specs::convert::IntoSpec;
use crate::device::SmartDevice;
use crate::home::SmartHome;
use crate::room::Room;

verus! {

/// A builder before its first room.
pub struct HomeBuilder {
    home: SmartHome,
}

/// A builder with at least one room; devices go into the room added last.
pub struct HomeBuilderWithRooms {
    home: SmartHome,
    current_name: String,
    current_room: Room,
}

impl HomeBuilder {
    /// The rooms built so far.
    pub closed spec fn rooms(&self) -> Map<Seq<char>, Room> {
        self.home.view()
    }

    pub fn new() -> (r: HomeBuilder)
        ensures
            r.rooms() == Map::<Seq<char>, Room>::empty(),
    {
        HomeBuilder { home: SmartHome::new() }
    }

    /// Starts the first room, `name`.
    pub fn add_room(self, name: &str) -> (r: HomeBuilderWithRooms)
        ensures
            r.finished_rooms() == self.rooms(),
            r.current_name() == name@,
            r.current_room().view() == Map::<Seq<char>, SmartDevice>::empty(),
            r.current_room().heard().len() == 0,
    {
        HomeBuilderWithRooms { home: self.home, current_name: name.to_owned(), current_room: Room::new() }
    }
}

impl Default for HomeBuilder {
    fn default() -> (r: HomeBuilder)
        ensures
            r.rooms() == Map::<Seq<char>, Room>::empty(),
    {
        HomeBuilder::new()
    }
}

impl HomeBuilderWithRooms {
    /// The rooms finished before the current one.
    pub closed spec fn finished_rooms(&self) -> Map<Seq<char>, Room> {
        self.home.view()
    }

    /// The name of the room added last.
    pub closed spec fn current_name(&self) -> Seq<char> {
        self.current_name@
    }

    /// The room added last.
    pub closed spec fn current_room(&self) -> Room {
        self.current_room
    }

    /// The rooms of the home that `build` gives now.
    pub open spec fn planned(&self) -> Map<Seq<char>, Room> {
        self.finished_rooms().insert(self.current_name(), self.current_room())
    }

    /// Finishes the current room and starts the room `name`.
    pub fn add_room(self, name: &str) -> (r: HomeBuilderWithRooms)
        ensures
            r.finished_rooms() == self.planned(),
            r.current_name() == name@,
            r.current_room().view() == Map::<Seq<char>, SmartDevice>::empty(),
            r.current_room().heard().len() == 0,
    {
        let mut home = self.home;
        home.add_room(self.current_name.as_str(), self.current_room);
        HomeBuilderWithRooms { home, current_name: name.to_owned(), current_room: Room::new() }
    }

    /// Adds a device to the room added last.
    pub fn add_device<D: Into<SmartDevice>>(self, name: &str, device: D) -> (r: HomeBuilderWithRooms)
        ensures
            r.finished_rooms() == self.finished_rooms(),
            r.current_name() == self.current_name(),
            D::obeys_into_spec() ==> r.current_room().view() == self.current_room().view().insert(
                name@,
                device.into_spec(),
            ),
            r.current_room().view().dom() == self.current_room().view().dom().insert(name@),
            r.current_room().view() == self.current_room().view().insert(name@, r.current_room().view()[name@]),
            call_ensures(D::into, (device,), r.current_room().view()[name@]),
            r.current_room().heard().len() == self.current_room().heard().len(),
    {
        let mut builder = self;
        builder.current_room.add_device(name, device);
        builder
    }

    /// The home with all rooms, the current one included.
    pub fn build(self) -> (r: SmartHome)
        ensures
            r.view() == self.planned(),
    {
        let mut home = self.home;
        home.add_room(self.current_name.as_str(), self.current_room);
        home
    }
}

} // verus!
