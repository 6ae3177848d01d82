//! The smart thermometer: it reports the temperature it last measured. A
//! thermometer is either emulated in memory or fed by a [`TemperatureFeed`].
use vstd::prelude::*;
use crate::error::DeviceError;
use crate::reading::Reading;
use crate::report::Report;
use crate::text::opt_view;

verus! {

/// A stream of temperatures that arrive from a device.
pub trait TemperatureFeed: Send {
    /// Whether `latest` is what asking the feed for its latest temperature
    /// may give: the record, kept by the implementation, of what has arrived.
    /// Unless an implementation narrows it, any outcome may come.
    closed spec fn delivers(&self, latest: Option<Reading>) -> bool {
        true
    }

    /// Whether `address` is what asking the feed for the address it receives
    /// on may give. Unless an implementation narrows it, any answer may come.
    closed spec fn bound_to(&self, address: Option<Seq<char>>) -> bool {
        true
    }

    /// The temperature that arrived last; `None` before the first one.
    fn latest(&self) -> (r: Option<Reading>)
        ensures
            self.delivers(r),
    ;

    /// The address that the feed receives on, as text.
    fn local_addr(&self) -> (r: Option<String>)
        ensures
            self.bound_to(opt_view(r)),
    ;
}

/// Where a thermometer's temperature comes from. The feed's type is a
/// parameter (a thermometer keeps `dyn TemperatureFeed`) so that Verus sees
/// the stored feed as the one handed in.
enum ThermometerBackend<F: ?Sized> {
    Emulated { temperature: Reading },
    Fed { feed: Box<F> },
}

/// A smart thermometer.
pub struct SmartThermometer {
    backend: ThermometerBackend<dyn TemperatureFeed>,
}

/// The report of a thermometer that has a temperature.
pub open spec fn thermometer_status_text(temperature: Seq<char>) -> Seq<char> {
    "Умный термометр. Температура: "@ + temperature + "°C"@
}

/// The report of a thermometer that has no temperature to give.
pub open spec fn thermometer_failure_text(e: DeviceError) -> Seq<char> {
    "Умный термометр. Не удалось получить данные: "@ + e.message_text()
}

impl SmartThermometer {
    /// Whether the thermometer is fed by a device rather than emulated.
    pub closed spec fn is_fed(&self) -> bool {
        self.backend is Fed
    }

    /// Whether the feed of a fed thermometer may give `latest`.
    pub closed spec fn feed_delivers(&self, latest: Option<Reading>) -> bool {
        match self.backend {
            ThermometerBackend::Fed { feed } => feed.delivers(latest),
            ThermometerBackend::Emulated { .. } => false,
        }
    }

    /// Whether the feed of a fed thermometer may give `address` as the
    /// address it receives on.
    pub closed spec fn feed_bound_to(&self, address: Option<Seq<char>>) -> bool {
        match self.backend {
            ThermometerBackend::Fed { feed } => feed.bound_to(address),
            ThermometerBackend::Emulated { .. } => false,
        }
    }

    /// The temperature of an emulated thermometer.
    pub closed spec fn stored(&self) -> Reading {
        match self.backend {
            ThermometerBackend::Emulated { temperature } => temperature,
            ThermometerBackend::Fed { .. } => arbitrary(),
        }
    }

    /// The emulated thermometer that always measures `temperature`.
    pub closed spec fn emulated(temperature: Reading) -> SmartThermometer {
        SmartThermometer { backend: ThermometerBackend::Emulated { temperature } }
    }

    /// The emulated thermometer `emulated(temperature)` has no feed and
    /// measures `temperature`.
    pub proof fn lemma_emulated(temperature: Reading)
        ensures
            !SmartThermometer::emulated(temperature).is_fed(),
            SmartThermometer::emulated(temperature).stored() == temperature,
    {
    }

    /// An emulated thermometer that always measures `temperature`.
    pub fn new(temperature: Reading) -> (r: SmartThermometer)
        ensures
            r == SmartThermometer::emulated(temperature),
            !r.is_fed(),
            r.stored() == temperature,
    {
        SmartThermometer { backend: ThermometerBackend::Emulated { temperature } }
    }

    /// A thermometer that gives what `feed` delivers.
    pub fn fed(feed: Box<dyn TemperatureFeed>) -> (r: SmartThermometer)
        ensures
            r.is_fed(),
            forall|latest: Option<Reading>| #[trigger] r.feed_delivers(latest) == feed.delivers(latest),
            forall|address: Option<Seq<char>>| #[trigger] r.feed_bound_to(address) == feed.bound_to(address),
    {
        let backend = ThermometerBackend::Fed { feed };
        SmartThermometer { backend }
    }

    /// The temperature; for a fed thermometer, the last one that arrived, and
    /// `NoData` before the first.
    pub fn get_temperature(&self) -> (r: Result<Reading, DeviceError>)
        ensures
            !self.is_fed() ==> r == Ok::<Reading, DeviceError>(self.stored()),
            self.is_fed() ==> exists|latest: Option<Reading>|
                #[trigger] self.feed_delivers(latest) && r == match latest {
                    Some(t) => Ok::<Reading, DeviceError>(t),
                    None => Err(DeviceError::NoData),
                },
    {
        match &self.backend {
            ThermometerBackend::Emulated { temperature } => Ok(temperature.duplicate()),
            ThermometerBackend::Fed { feed } => {
                let latest = feed.latest();
                let ghost arrived = latest;
                proof {
                    assert(self.feed_delivers(arrived));
                }
                match latest {
                    Some(t) => Ok(t),
                    None => Err(DeviceError::NoData),
                }
            },
        }
    }

    /// The address a fed thermometer receives on; `None` for an emulated one.
    pub fn local_addr(&self) -> (r: Option<String>)
        ensures
            !self.is_fed() ==> r is None,
            self.is_fed() ==> self.feed_bound_to(opt_view(r)),
    {
        match &self.backend {
            ThermometerBackend::Emulated { .. } => None,
            ThermometerBackend::Fed { feed } => feed.local_addr(),
        }
    }
}

impl Report for SmartThermometer {
    open spec fn is_report(&self, text: Seq<char>) -> bool {
        if !self.is_fed() {
            text == thermometer_status_text(self.stored().shown())
        } else {
            exists|latest: Option<Reading>|
                #[trigger] self.feed_delivers(latest) && text == match latest {
                    Some(t) => thermometer_status_text(t.shown()),
                    None => thermometer_failure_text(DeviceError::NoData),
                }
        }
    }

    fn report(&self) -> (r: String) {
        let mut r = String::new();
        let temperature = self.get_temperature();
        let ghost outcome = temperature;
        match temperature {
            Ok(t) => {
                r.append("Умный термометр. Температура: ");
                r.append(t.text());
                r.append("°C");
                proof {
                    assert(r@ == thermometer_status_text(t.shown()));
                }
            },
            Err(e) => {
                r.append("Умный термометр. Не удалось получить данные: ");
                r.append(e.message().as_str());
                proof {
                    assert(r@ == thermometer_failure_text(e));
                }
            },
        }
        r
    }
}

} // verus!
