//! A room: devices under distinct names, and subscribers that hear about
//! every device added.
use vstd::prelude::*;
use vstd::std_specs::convert::IntoSpec;
use crate::device::SmartDevice;
use crate::registry::{Registry, to_map};
use crate::report::Report;
use crate::text::{join, strictly_sorted, views, join_strings};

verus! {

/// Told about every device that is added to a room it subscribed to.
pub trait Subscriber: Send {
    /// Whether the subscriber keeps the record `told`. A verified
    /// implementation can say so; by default a subscriber promises nothing.
    closed spec fn keeps_record(&self) -> bool {
        false
    }

    /// What the subscriber has been told, in order: the name and the device
    /// of every addition; it means something where `keeps_record` holds.
    closed spec fn told(&self) -> Seq<(Seq<char>, SmartDevice)> {
        Seq::empty()
    }

    /// Hears that `device` was added under `name`.
    fn on_device_added(&mut self, name: &str, device: &SmartDevice)
        ensures
            final(self).keeps_record() == old(self).keeps_record(),
            old(self).keeps_record() ==> final(self).told() == old(self).told().push((name@, *device)),
    ;
}

/// A record of what a subscriber was told (`None`: it keeps none), after
/// it hears of `entry`.
pub open spec fn hear(
    record: Option<Seq<(Seq<char>, SmartDevice)>>,
    entry: (Seq<char>, SmartDevice),
) -> Option<Seq<(Seq<char>, SmartDevice)>> {
    match record {
        Some(log) => Some(log.push(entry)),
        None => None,
    }
}

/// A subscriber kept by a room. The subscriber's type is a parameter (the
/// room keeps `dyn Subscriber`) so that Verus sees the stored subscriber as
/// the one handed in.
struct Listener<T: ?Sized> {
    subscriber: Box<T>,
}

impl<T: Subscriber + ?Sized> Listener<T> {
    closed spec fn record(&self) -> Option<Seq<(Seq<char>, SmartDevice)>> {
        if self.subscriber.keeps_record() {
            Some(self.subscriber.told())
        } else {
            None
        }
    }

    fn on_device_added(&mut self, name: &str, device: &SmartDevice)
        ensures
            final(self).record() == hear(old(self).record(), (name@, *device)),
    {
        self.subscriber.on_device_added(name, device);
    }
}

/// What each of `listeners` has been told, in the order they subscribed.
spec fn logs_of(listeners: Seq<Listener<dyn Subscriber>>) -> Seq<Option<Seq<(Seq<char>, SmartDevice)>>> {
    listeners.map_values(|l: Listener<dyn Subscriber>| l.record())
}

/// A subscriber that joins adds one record at the end and leaves the
/// others as they were.
proof fn lemma_logs_joined(before: Seq<Listener<dyn Subscriber>>, after: Seq<Listener<dyn Subscriber>>, joined: Listener<dyn Subscriber>)
    requires
        after == before.push(joined),
    ensures
        logs_of(after) == logs_of(before).push(joined.record()),
{
    assert(logs_of(after) =~= logs_of(before).push(joined.record()));
}

/// Replacing one subscriber changes only its own record.
proof fn lemma_logs_update(listeners: Seq<Listener<dyn Subscriber>>, i: int, l: Listener<dyn Subscriber>)
    requires
        0 <= i < listeners.len(),
    ensures
        logs_of(listeners.update(i, l)) == logs_of(listeners).update(i, l.record()),
{
    assert(logs_of(listeners.update(i, l)) =~= logs_of(listeners).update(i, l.record()));
}

/// A room of named devices.
pub struct Room {
    devices: Registry<SmartDevice>,
    subscribers: Vec<Listener<dyn Subscriber>>,
    /// Every call made to a subscriber, in order: its position and the name
    /// of the device it was told about.
    calls: Ghost<Seq<(nat, Seq<char>)>>,
}

/// The calls that telling subscribers `0..count`, in that order, about the
/// device `name` makes.
pub open spec fn round(count: nat, name: Seq<char>) -> Seq<(nat, Seq<char>)> {
    Seq::new(count, |k: int| (k as nat, name))
}

/// The line of a room report about one device.
pub open spec fn device_line(name: Seq<char>, report: Seq<char>) -> Seq<char> {
    "  Устройство `"@ + name + "`: "@ + report
}

/// The report of a room without devices.
pub open spec fn empty_room_text() -> Seq<char> {
    "  Нет устройств."@
}

/// The report of a room whose devices, in name order, are `names`, and whose
/// device reports are `reports`.
pub open spec fn room_report_text(names: Seq<Seq<char>>, reports: Seq<Seq<char>>) -> Seq<char> {
    if names.len() == 0 {
        empty_room_text()
    } else {
        join(Seq::new(names.len(), |i: int| device_line(names[i], reports[i])), "\n"@)
    }
}

/// `names` lists the names of `m` once each, in increasing order.
pub open spec fn lists_keys_in_order<V>(names: Seq<Seq<char>>, m: Map<Seq<char>, V>) -> bool {
    &&& strictly_sorted(names)
    &&& names.to_set() == m.dom()
}

impl Room {
    /// What each subscriber has been told, in the order they subscribed;
    /// `None` for a subscriber that keeps no record.
    pub closed spec fn heard(&self) -> Seq<Option<Seq<(Seq<char>, SmartDevice)>>> {
        logs_of(self.subscribers@)
    }

    /// Every call made to a subscriber so far, in order: the subscriber's
    /// position among the subscribers and the name of the device added.
    pub closed spec fn calls(&self) -> Seq<(nat, Seq<char>)> {
        self.calls@
    }

    /// The devices by name.
    pub closed spec fn view(&self) -> Map<Seq<char>, SmartDevice> {
        self.devices.view()
    }

    /// A room without devices or subscribers.
    pub fn new() -> (r: Room)
        ensures
            r.view() == Map::<Seq<char>, SmartDevice>::empty(),
            r.heard() == Seq::<Option<Seq<(Seq<char>, SmartDevice)>>>::empty(),
            r.calls() == Seq::<(nat, Seq<char>)>::empty(),
    {
        Room { devices: Registry::new(), subscribers: Vec::new(), calls: Ghost(Seq::empty()) }
    }

    /// A room with `devices`; a later pair wins over an earlier one of the
    /// same name.
    pub fn with_devices(devices: Vec<(String, SmartDevice)>) -> (r: Room)
        ensures
            r.view() == to_map(devices@),
            r.heard() == Seq::<Option<Seq<(Seq<char>, SmartDevice)>>>::empty(),
            r.calls() == Seq::<(nat, Seq<char>)>::empty(),
    {
        Room {
            devices: Registry::from_pairs(devices),
            subscribers: Vec::new(),
            calls: Ghost(Seq::empty()),
        }
    }

    /// Adds a subscriber that hears about every device added from now on,
    /// after the subscribers already there. Subscribing calls nobody.
    pub fn subscribe(&mut self, subscriber: Box<dyn Subscriber>)
        ensures
            final(self).view() == old(self).view(),
            final(self).calls() == old(self).calls(),
            final(self).heard() == old(self).heard().push(
                if subscriber.keeps_record() {
                    Some(subscriber.told())
                } else {
                    None
                },
            ),
    {
        let ghost given = subscriber;
        let listener = Listener { subscriber };
        let ghost joined = listener;
        let ghost before = self.subscribers@;
        self.subscribers.push(listener);
        proof {
            lemma_logs_joined(before, self.subscribers@, joined);
        }
    }

    /// Keeps `device` under `name`, handing back the device that was there
    /// before; then tells every subscriber about the new device.
    pub fn add_device<D: Into<SmartDevice>>(&mut self, name: &str, device: D) -> (r: Option<SmartDevice>)
        ensures
            D::obeys_into_spec() ==> final(self).view() == old(self).view().insert(name@, device.into_spec()),
            final(self).view().dom() == old(self).view().dom().insert(name@),
            final(self).view() == old(self).view().insert(name@, final(self).view()[name@]),
            call_ensures(D::into, (device,), final(self).view()[name@]),
            final(self).heard() == old(self).heard().map_values(
                |record: Option<Seq<(Seq<char>, SmartDevice)>>| hear(record, (name@, final(self).view()[name@])),
            ),
            final(self).calls() == old(self).calls() + round(old(self).heard().len(), name@),
            r == (if old(self).view().contains_key(name@) {
                Some(old(self).view()[name@])
            } else {
                None
            }),
    {
        let device: SmartDevice = device.into();
        let ghost stored = device;
        let previous = self.devices.insert(name.to_owned(), device);
        let ghost after = self.devices.view();
        proof {
            assert(after.dom() =~= old(self).view().dom().insert(name@));
        }
        let ghost entry = (name@, stored);
        let ghost logs = logs_of(self.subscribers@);
        let ghost earlier = self.calls@;
        let n = self.subscribers.len();
        let mut i: usize = 0;
        while i < n
            invariant
                n == self.subscribers@.len(),
                n == logs.len(),
                i <= n,
                self.devices.view() == after,
                after.contains_key(name@),
                after[name@] == stored,
                entry == (name@, stored),
                forall|t: int| 0 <= t < i ==> #[trigger] logs_of(self.subscribers@)[t] == hear(logs[t], entry),
                forall|t: int| i <= t < n ==> #[trigger] logs_of(self.subscribers@)[t] == logs[t],
                self.calls@ == earlier + round(i as nat, name@),
            decreases n - i,
        {
            let ghost before = self.subscribers@;
            match self.devices.get(name) {
                Some(added) => {
                    let listener = &mut self.subscribers[i];
                    listener.on_device_added(name, added);
                    proof {
                        self.calls@ = self.calls@.push((i as nat, name@));
                        assert(self.subscribers@[i as int].record() == hear(before[i as int].record(), entry));
                    }
                },
                None => {
                    proof {
                        assert(false);
                    }
                },
            }
            proof {
                assert(round(i as nat, name@).push((i as nat, name@)) =~= round((i + 1) as nat, name@));
                lemma_logs_update(before, i as int, self.subscribers@[i as int]);
                assert(logs_of(before)[i as int] == logs[i as int]);
                assert(logs_of(self.subscribers@)[i as int] == hear(logs[i as int], entry));
            }
            i = i + 1;
        }
        proof {
            assert(logs_of(self.subscribers@) =~= logs.map_values(
                |record: Option<Seq<(Seq<char>, SmartDevice)>>| hear(record, entry),
            ));
        }
        previous
    }

    /// Takes out the device kept under `name`.
    pub fn remove_device(&mut self, name: &str) -> (r: Option<SmartDevice>)
        ensures
            final(self).view() == old(self).view().remove(name@),
            final(self).heard() == old(self).heard(),
            final(self).calls() == old(self).calls(),
            r == (if old(self).view().contains_key(name@) {
                Some(old(self).view()[name@])
            } else {
                None
            }),
    {
        self.devices.remove(name)
    }

    /// The device kept under `name`.
    pub fn get_device(&self, name: &str) -> (r: Option<&SmartDevice>)
        ensures
            match r {
                Some(d) => self.view().contains_key(name@) && *d == self.view()[name@],
                None => !self.view().contains_key(name@),
            },
    {
        self.devices.get(name)
    }

    /// The device kept under `name`, to change in place.
    pub fn get_device_mut(&mut self, name: &str) -> (r: Option<&mut SmartDevice>)
        ensures
            final(self).heard() == old(self).heard(),
            final(self).calls() == old(self).calls(),
            match r {
                Some(d) => {
                    &&& old(self).view().contains_key(name@)
                    &&& *d == old(self).view()[name@]
                    &&& final(self).view() == old(self).view().insert(name@, *final(d))
                },
                None => {
                    &&& !old(self).view().contains_key(name@)
                    &&& final(self).view() == old(self).view()
                },
            },
    {
        self.devices.get_mut(name)
    }

    /// The names of the devices, in increasing lexicographic order.
    pub fn device_names(&self) -> (r: Vec<String>)
        ensures
            lists_keys_in_order(views(r@), self.view()),
    {
        self.devices.names()
    }

    /// The devices with their names, in increasing order of name.
    pub fn devices(&self) -> (r: Vec<(String, &SmartDevice)>)
        ensures
            lists_keys_in_order(r@.map_values(|p: (String, &SmartDevice)| p.0@), self.view()),
            forall|i: int| 0 <= i < r@.len() ==> self.view().contains_key(#[trigger] r@[i].0@)
                && *r@[i].1 == self.view()[r@[i].0@],
    {
        let names = self.devices.names();
        let mut out: Vec<(String, &SmartDevice)> = Vec::new();
        let mut i: usize = 0;
        while i < names.len()
            invariant
                i <= names@.len(),
                out@.len() == i,
                lists_keys_in_order(views(names@), self.view()),
                forall|t: int| 0 <= t < i ==> (#[trigger] out@[t]).0@ == names@[t]@,
                forall|t: int| 0 <= t < i ==> self.view().contains_key(#[trigger] out@[t].0@)
                    && *out@[t].1 == self.view()[out@[t].0@],
            decreases names.len() - i,
        {
            proof {
                assert(views(names@).to_set().contains(views(names@)[i as int]));
            }
            match self.devices.get(names[i].as_str()) {
                Some(d) => {
                    out.push((names[i].clone(), d));
                },
                None => {
                    proof {
                        assert(false);
                    }
                },
            }
            i = i + 1;
        }
        proof {
            assert(out@.map_values(|p: (String, &SmartDevice)| p.0@) =~= views(names@));
        }
        out
    }
}

impl Default for Room {
    fn default() -> (r: Room)
        ensures
            r.view() == Map::<Seq<char>, SmartDevice>::empty(),
            r.heard() == Seq::<Option<Seq<(Seq<char>, SmartDevice)>>>::empty(),
            r.calls() == Seq::<(nat, Seq<char>)>::empty(),
    {
        Room::new()
    }
}

impl Report for Room {
    open spec fn is_report(&self, text: Seq<char>) -> bool {
        exists|names: Seq<Seq<char>>, reports: Seq<Seq<char>>|
            {
                &&& lists_keys_in_order(names, self.view())
                &&& reports.len() == names.len()
                &&& forall|i: int| 0 <= i < names.len() ==> self.view()[names[i]].is_report(#[trigger] reports[i])
                &&& text == #[trigger] room_report_text(names, reports)
            }
    }

    fn report(&self) -> (r: String) {
        let names = self.devices.names();
        let mut lines: Vec<String> = Vec::new();
        let ghost mut reports: Seq<Seq<char>> = Seq::empty();
        let mut i: usize = 0;
        while i < names.len()
            invariant
                i <= names@.len(),
                lines@.len() == i,
                reports.len() == i,
                lists_keys_in_order(views(names@), self.view()),
                forall|t: int| 0 <= t < i ==> self.view()[names@[t]@].is_report(#[trigger] reports[t]),
                forall|t: int| 0 <= t < i ==> (#[trigger] lines@[t])@ == device_line(names@[t]@, reports[t]),
            decreases names.len() - i,
        {
            proof {
                assert(views(names@).to_set().contains(views(names@)[i as int]));
            }
            match self.devices.get(names[i].as_str()) {
                Some(d) => {
                    let rep = d.report();
                    let mut line = String::new();
                    line.append("  Устройство `");
                    line.append(names[i].as_str());
                    line.append("`: ");
                    line.append(rep.as_str());
                    lines.push(line);
                    proof {
                        reports = reports.push(rep@);
                    }
                },
                None => {
                    proof {
                        assert(false);
                    }
                },
            }
            i = i + 1;
        }
        let ghost name_views = views(names@);
        if names.len() == 0 {
            proof {
                assert(room_report_text(name_views, reports) == empty_room_text());
            }
            return "  Нет устройств.".to_owned();
        }
        let r = join_strings(&lines, "\n");
        proof {
            assert(views(lines@) =~= Seq::new(name_views.len(), |t: int| device_line(name_views[t], reports[t])));
            assert(r@ == room_report_text(name_views, reports));
        }
        r
    }
}

} // verus!
