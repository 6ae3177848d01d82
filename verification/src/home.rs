//! The smart home: rooms under distinct names.
use vstd::prelude::*;
use crate::device::SmartDevice;
use crate::error::SmartHomeError;
use crate::registry::{Registry, to_map};
use crate::report::Report;
use crate::room::{Room, lists_keys_in_order};
use crate::text::{join, views};

verus! {

/// A home of named rooms.
pub struct SmartHome {
    rooms: Registry<Room>,
}

/// The heading of a home report.
pub open spec fn home_heading() -> Seq<char> {
    "Отчёт по умному дому:"@
}

/// The part of a home report about one room.
pub open spec fn room_section(name: Seq<char>, report: Seq<char>) -> Seq<char> {
    "\nКомната `"@ + name + "`:\n"@ + report
}

/// The report of a home whose rooms, in name order, are `names`, and whose
/// room reports are `reports`.
pub open spec fn home_report_text(names: Seq<Seq<char>>, reports: Seq<Seq<char>>) -> Seq<char> {
    if names.len() == 0 {
        home_heading() + "\nНет комнат."@
    } else {
        home_heading() + join(Seq::new(names.len(), |i: int| room_section(names[i], reports[i])), Seq::empty())
    }
}

impl SmartHome {
    /// The rooms by name.
    pub closed spec fn view(&self) -> Map<Seq<char>, Room> {
        self.rooms.view()
    }

    /// A home without rooms.
    pub fn new() -> (r: SmartHome)
        ensures
            r.view() == Map::<Seq<char>, Room>::empty(),
    {
        SmartHome { rooms: Registry::new() }
    }

    /// A home with `rooms`; a later pair wins over an earlier one of the same
    /// name.
    pub fn with_rooms(rooms: Vec<(String, Room)>) -> (r: SmartHome)
        ensures
            r.view() == to_map(rooms@),
    {
        SmartHome { rooms: Registry::from_pairs(rooms) }
    }

    /// Keeps `room` under `name`, handing back the room that was there before.
    pub fn add_room(&mut self, name: &str, room: Room) -> (r: Option<Room>)
        ensures
            final(self).view() == old(self).view().insert(name@, room),
            r == (if old(self).view().contains_key(name@) {
                Some(old(self).view()[name@])
            } else {
                None
            }),
    {
        self.rooms.insert(name.to_owned(), room)
    }

    /// Takes out the room kept under `name`.
    pub fn remove_room(&mut self, name: &str) -> (r: Option<Room>)
        ensures
            final(self).view() == old(self).view().remove(name@),
            r == (if old(self).view().contains_key(name@) {
                Some(old(self).view()[name@])
            } else {
                None
            }),
    {
        self.rooms.remove(name)
    }

    /// The room kept under `name`.
    pub fn get_room(&self, name: &str) -> (r: Option<&Room>)
        ensures
            match r {
                Some(room) => self.view().contains_key(name@) && *room == self.view()[name@],
                None => !self.view().contains_key(name@),
            },
    {
        self.rooms.get(name)
    }

    /// The room kept under `name`, to change in place.
    pub fn get_room_mut(&mut self, name: &str) -> (r: Option<&mut Room>)
        ensures
            match r {
                Some(room) => {
                    &&& old(self).view().contains_key(name@)
                    &&& *room == old(self).view()[name@]
                    &&& final(self).view() == old(self).view().insert(name@, *final(room))
                },
                None => {
                    &&& !old(self).view().contains_key(name@)
                    &&& final(self).view() == old(self).view()
                },
            },
    {
        self.rooms.get_mut(name)
    }

    /// The names of the rooms, in increasing lexicographic order.
    pub fn room_names(&self) -> (r: Vec<String>)
        ensures
            lists_keys_in_order(views(r@), self.view()),
    {
        self.rooms.names()
    }

    /// The device `device_name` of the room `room_name`, or which of the two
    /// is missing.
    pub fn get_smart_device(&self, room_name: &str, device_name: &str) -> (r: Result<&SmartDevice, SmartHomeError>)
        ensures
            match r {
                Ok(d) => {
                    &&& self.view().contains_key(room_name@)
                    &&& self.view()[room_name@].view().contains_key(device_name@)
                    &&& *d == self.view()[room_name@].view()[device_name@]
                },
                Err(SmartHomeError::RoomNotFound { room }) => {
                    &&& !self.view().contains_key(room_name@)
                    &&& room@ == room_name@
                },
                Err(SmartHomeError::DeviceNotFound { room, device }) => {
                    &&& self.view().contains_key(room_name@)
                    &&& !self.view()[room_name@].view().contains_key(device_name@)
                    &&& room@ == room_name@
                    &&& device@ == device_name@
                },
            },
    {
        match self.get_room(room_name) {
            None => Err(SmartHomeError::RoomNotFound { room: room_name.to_owned() }),
            Some(room) => match room.get_device(device_name) {
                Some(d) => Ok(d),
                None => Err(
                    SmartHomeError::DeviceNotFound {
                        room: room_name.to_owned(),
                        device: device_name.to_owned(),
                    },
                ),
            },
        }
    }

    /// The device `device_name` of the room `room_name`, to change in place,
    /// or which of the two is missing.
    pub fn get_smart_device_mut(&mut self, room_name: &str, device_name: &str) -> (r: Result<&mut SmartDevice, SmartHomeError>)
        ensures
            match r {
                Ok(d) => {
                    &&& old(self).view().contains_key(room_name@)
                    &&& old(self).view()[room_name@].view().contains_key(device_name@)
                    &&& *d == old(self).view()[room_name@].view()[device_name@]
                    &&& final(self).view() == old(self).view().insert(room_name@, final(self).view()[room_name@])
                    &&& final(self).view()[room_name@].view() == old(self).view()[room_name@].view().insert(
                        device_name@,
                        *final(d),
                    )
                },
                Err(SmartHomeError::RoomNotFound { room }) => {
                    &&& !old(self).view().contains_key(room_name@)
                    &&& room@ == room_name@
                    &&& final(self).view() == old(self).view()
                },
                Err(SmartHomeError::DeviceNotFound { room, device }) => {
                    &&& old(self).view().contains_key(room_name@)
                    &&& !old(self).view()[room_name@].view().contains_key(device_name@)
                    &&& room@ == room_name@
                    &&& device@ == device_name@
                    &&& final(self).view().dom() == old(self).view().dom()
                    &&& final(self).view()[room_name@].view() == old(self).view()[room_name@].view()
                },
            },
    {
        match self.get_room_mut(room_name) {
            None => Err(SmartHomeError::RoomNotFound { room: room_name.to_owned() }),
            Some(room) => match room.get_device_mut(device_name) {
                Some(d) => Ok(d),
                None => Err(
                    SmartHomeError::DeviceNotFound {
                        room: room_name.to_owned(),
                        device: device_name.to_owned(),
                    },
                ),
            },
        }
    }
}

impl Default for SmartHome {
    fn default() -> (r: SmartHome)
        ensures
            r.view() == Map::<Seq<char>, Room>::empty(),
    {
        SmartHome::new()
    }
}

impl Report for SmartHome {
    open spec fn is_report(&self, text: Seq<char>) -> bool {
        exists|names: Seq<Seq<char>>, reports: Seq<Seq<char>>|
            {
                &&& lists_keys_in_order(names, self.view())
                &&& reports.len() == names.len()
                &&& forall|i: int| 0 <= i < names.len() ==> self.view()[names[i]].is_report(#[trigger] reports[i])
                &&& text == #[trigger] home_report_text(names, reports)
            }
    }

    fn report(&self) -> (r: String) {
        let names = self.rooms.names();
        let mut r = String::new();
        r.append("Отчёт по умному дому:");
        let ghost name_views = views(names@);
        if names.len() == 0 {
            r.append("\nНет комнат.");
            proof {
                assert(r@ == home_report_text(name_views, Seq::empty()));
            }
            return r;
        }
        let ghost mut reports: Seq<Seq<char>> = Seq::empty();
        let ghost mut sections: Seq<Seq<char>> = Seq::empty();
        let mut i: usize = 0;
        while i < names.len()
            invariant
                i <= names@.len(),
                name_views == views(names@),
                reports.len() == i,
                sections.len() == i,
                lists_keys_in_order(name_views, self.view()),
                forall|t: int| 0 <= t < i ==> self.view()[name_views[t]].is_report(#[trigger] reports[t]),
                forall|t: int| 0 <= t < i ==> #[trigger] sections[t] == room_section(name_views[t], reports[t]),
                r@ == home_heading() + join(sections, Seq::empty()),
            decreases names.len() - i,
        {
            proof {
                assert(name_views.to_set().contains(name_views[i as int]));
            }
            match self.rooms.get(names[i].as_str()) {
                Some(room) => {
                    let rep = room.report();
                    let ghost before = r@;
                    r.append("\nКомната `");
                    r.append(names[i].as_str());
                    r.append("`:\n");
                    r.append(rep.as_str());
                    proof {
                        let sec = room_section(name_views[i as int], rep@);
                        let next = sections.push(sec);
                        assert(next.drop_last() =~= sections);
                        if sections.len() == 0 {
                            assert(join(sections, Seq::empty()) == Seq::<char>::empty());
                            assert(join(next, Seq::empty()) == sec);
                        }
                        assert(join(next, Seq::empty()) =~= join(sections, Seq::empty()) + sec);
                        assert(r@ =~= home_heading() + join(next, Seq::empty()));
                        reports = reports.push(rep@);
                        sections = next;
                    }
                },
                None => {
                    proof {
                        assert(false);
                    }
                },
            }
            i = i + 1;
        }
        proof {
            assert(sections =~= Seq::new(name_views.len(), |t: int| room_section(name_views[t], reports[t])));
            assert(r@ == home_report_text(name_views, reports));
        }
        r
    }
}

} // verus!
