//! The smart socket: switched on and off, it reports its power draw, which
//! is zero while it is off. A socket is either emulated in memory or driven
//! over a line protocol through a [`SocketLink`].
use vstd::prelude::*;
use crate::error::DeviceError;
use crate::reading::{Reading, zero_text};
use crate::report::Report;
use crate::text::{str_eq, trim, trimmed, split_words, words, views};

verus! {

/// The command that switches a socket on.
pub open spec fn turn_on_command() -> Seq<char> {
    "TURN_ON"@
}

/// The command that switches a socket off.
pub open spec fn turn_off_command() -> Seq<char> {
    "TURN_OFF"@
}

/// The command that asks a socket for its state.
pub open spec fn get_state_command() -> Seq<char> {
    "GET_STATE"@
}

/// The reply that acknowledges a command.
pub open spec fn ok_reply() -> Seq<char> {
    "OK"@
}

/// The message of the error for a reply outside the protocol.
pub open spec fn unexpected_reply_text(reply: Seq<char>) -> Seq<char> {
    "неожиданный ответ `"@ + reply + "`"@
}

/// The message of the error for a power value that is not a number.
pub open spec fn bad_power_text(token: Seq<char>) -> Seq<char> {
    "некорректное значение мощности `"@ + token + "`"@
}

/// What a state reply says: whether the socket is on and the text of its
/// power draw; `None` for a reply outside the protocol. A state reply is the
/// word `STATE`, then `on` or `off`, then the power; further words are
/// ignored.
pub open spec fn state_reply(reply: Seq<char>) -> Option<(bool, Seq<char>)> {
    let w = words(reply);
    if w.len() >= 3 && w[0] == "STATE"@ && (w[1] == "on"@ || w[1] == "off"@) {
        Some((w[1] == "on"@, w[2]))
    } else {
        None
    }
}

/// `true` or `false`, as Rust writes a `bool`.
pub open spec fn bool_text(b: bool) -> Seq<char> {
    if b {
        "true"@
    } else {
        "false"@
    }
}

/// The report of a socket whose state is known.
pub open spec fn socket_status_text(on: bool, power: Seq<char>) -> Seq<char> {
    "Умная розетка. Включена: "@ + bool_text(on) + ". Текущая мощность: "@ + power + " W"@
}

/// The report of a socket whose state could not be read.
pub open spec fn socket_failure_text(e: DeviceError) -> Seq<char> {
    "Умная розетка. Не удалось получить данные: "@ + e.message_text()
}

/// Accepts the reply `OK` (and nothing else) to a command.
pub fn expect_ok(reply: &str) -> (r: Result<(), DeviceError>)
    ensures
        r is Ok <==> reply@ == ok_reply(),
        r matches Err(e) ==> e matches DeviceError::Protocol(m) && m@ == unexpected_reply_text(reply@),
{
    if str_eq(reply, "OK") {
        Ok(())
    } else {
        Err(DeviceError::Protocol(unexpected_reply(reply)))
    }
}

fn unexpected_reply(reply: &str) -> (r: String)
    ensures
        r@ == unexpected_reply_text(reply@),
{
    let mut m = String::new();
    m.append("неожиданный ответ `");
    m.append(reply);
    m.append("`");
    m
}

/// Reads a state reply: whether the socket is on, and the word that gives
/// its power draw.
pub fn parse_state(reply: &str) -> (r: Result<(bool, String), DeviceError>)
    ensures
        match state_reply(reply@) {
            Some((on, power)) => r matches Ok((o, p)) && o == on && p@ == power,
            None => r matches Err(e) && e matches DeviceError::Protocol(m) && m@
                == unexpected_reply_text(reply@),
        },
{
    let w = split_words(reply);
    if w.len() >= 3 && str_eq(w[0].as_str(), "STATE") {
        let on = str_eq(w[1].as_str(), "on");
        let off = str_eq(w[1].as_str(), "off");
        if on || off {
            proof {
                assert(views(w@)[1] == w@[1]@);
                assert(views(w@)[2] == w@[2]@);
            }
            return Ok((on, w[2].clone()));
        }
    }
    proof {
        if w@.len() >= 3 {
            assert(views(w@)[0] == w@[0]@);
            assert(views(w@)[1] == w@[1]@);
        }
    }
    Err(DeviceError::Protocol(unexpected_reply(reply)))
}

/// The power draw that `token` writes, given what reading it as a number
/// gave (`None`: it is not a number).
pub fn power_from(token: &str, number: Option<Reading>) -> (r: Result<Reading, DeviceError>)
    ensures
        match number {
            Some(p) => r == Ok::<Reading, DeviceError>(p),
            None => r matches Err(e) && e matches DeviceError::Protocol(m) && m@ == bad_power_text(token@),
        },
{
    match number {
        Some(p) => Ok(p),
        None => {
            let mut m = String::new();
            m.append("некорректное значение мощности `");
            m.append(token);
            m.append("`");
            Err(DeviceError::Protocol(m))
        },
    }
}

/// The command that switches a socket on (`on`) or off.
pub open spec fn switch_command_text(on: bool) -> Seq<char> {
    if on {
        turn_on_command()
    } else {
        turn_off_command()
    }
}

/// The command that switches a socket on (`on`) or off.
pub fn switch_command(on: bool) -> (r: &'static str)
    ensures
        r@ == switch_command_text(on),
{
    if on {
        "TURN_ON"
    } else {
        "TURN_OFF"
    }
}

/// What the outcome `reply` of a switching command means: the channel's
/// error, success on the line `OK` (whitespace around it aside), and a
/// protocol error on any other line.
pub open spec fn ack_of(reply: Result<String, DeviceError>, r: Result<(), DeviceError>) -> bool {
    match reply {
        Err(e) => r == Err::<(), DeviceError>(e),
        Ok(line) => {
            let t = trimmed(line@);
            if t == ok_reply() {
                r is Ok
            } else {
                r matches Err(DeviceError::Protocol(m)) && m@ == unexpected_reply_text(t)
            }
        },
    }
}

/// Reads the outcome of a switching command.
pub fn read_ack(reply: Result<String, DeviceError>) -> (r: Result<(), DeviceError>)
    ensures
        ack_of(reply, r),
{
    match reply {
        Err(e) => Err(e),
        Ok(line) => expect_ok(trim(line.as_str()).as_str()),
    }
}

/// What the outcome `reply` of `GET_STATE` says before its power word is read
/// as a number: the channel's error, whether the socket is on and the power
/// word, or a protocol error for a line outside the protocol.
pub open spec fn state_words_of(reply: Result<String, DeviceError>, r: Result<(bool, String), DeviceError>) -> bool {
    match reply {
        Err(e) => r == Err::<(bool, String), DeviceError>(e),
        Ok(line) => {
            let t = trimmed(line@);
            match state_reply(t) {
                Some((on, word)) => r matches Ok((o, w)) && o == on && w@ == word,
                None => r matches Err(DeviceError::Protocol(m)) && m@ == unexpected_reply_text(t),
            }
        },
    }
}

/// Reads the outcome of `GET_STATE` up to its power word.
pub fn read_state(reply: Result<String, DeviceError>) -> (r: Result<(bool, String), DeviceError>)
    ensures
        state_words_of(reply, r),
{
    match reply {
        Err(e) => Err(e),
        Ok(line) => parse_state(trim(line.as_str()).as_str()),
    }
}

/// What reading the power word `word` as `number` gives.
pub open spec fn power_of(word: Seq<char>, number: Option<Reading>, r: Result<Reading, DeviceError>) -> bool {
    match number {
        Some(p) => r == Ok::<Reading, DeviceError>(p),
        None => r matches Err(DeviceError::Protocol(m)) && m@ == bad_power_text(word),
    }
}

/// The channel to a socket device that speaks the line protocol. What the
/// device answers is up to the device; the library decides what an answer
/// means.
pub trait SocketLink: Send {
    /// Whether `reply` is an outcome that sending `command` may have: the
    /// record, kept by the implementation, of what the device can answer.
    /// Unless an implementation narrows it, any outcome may come.
    closed spec fn answers(&self, command: Seq<char>, reply: Result<String, DeviceError>) -> bool {
        true
    }

    /// Whether `number` is what reading `word` as a number may give.
    /// Unless an implementation narrows it, any reading may come.
    closed spec fn reads(&self, word: Seq<char>, number: Option<Reading>) -> bool {
        true
    }

    /// Sends one command line and gives back the reply line.
    fn exchange(&self, command: &str) -> (r: Result<String, DeviceError>)
        ensures
            self.answers(command@, r),
    ;

    /// The reading that `word` writes, if it writes a number. The link reads
    /// the device's numbers because the library keeps no floating-point
    /// values of its own.
    fn number(&self, word: &str) -> (r: Option<Reading>)
        ensures
            self.reads(word@, r),
    ;
}

/// How a socket is driven. The link's type is a parameter (a socket keeps
/// `dyn SocketLink`) so that Verus sees the stored link as the one handed in.
enum SocketBackend<L: ?Sized> {
    Emulated { is_on: bool, power: Reading },
    Linked { link: Box<L> },
}

/// A smart socket.
pub struct SmartSocket {
    backend: SocketBackend<dyn SocketLink>,
}

/// The report of a socket given the outcome of asking for its state.
pub open spec fn state_report_text(state: Result<(bool, Reading), DeviceError>) -> Seq<char> {
    match state {
        Ok((on, power)) => socket_status_text(on, power.shown()),
        Err(e) => socket_failure_text(e),
    }
}

impl SmartSocket {
    /// Whether the socket is driven over a link rather than emulated.
    pub closed spec fn is_linked(&self) -> bool {
        self.backend is Linked
    }

    /// Whether an emulated socket is switched on.
    pub closed spec fn switched_on(&self) -> bool {
        match self.backend {
            SocketBackend::Emulated { is_on, .. } => is_on,
            SocketBackend::Linked { .. } => false,
        }
    }

    /// What an emulated socket draws while it is on.
    pub closed spec fn rated_power(&self) -> Reading {
        match self.backend {
            SocketBackend::Emulated { power, .. } => power,
            SocketBackend::Linked { .. } => arbitrary(),
        }
    }

    /// Whether the link of a linked socket may give `reply` to `command`.
    pub closed spec fn link_answers(&self, command: Seq<char>, reply: Result<String, DeviceError>) -> bool {
        match self.backend {
            SocketBackend::Linked { link } => link.answers(command, reply),
            SocketBackend::Emulated { .. } => false,
        }
    }

    /// Whether the link of a linked socket may read `word` as `number`.
    pub closed spec fn link_reads(&self, word: Seq<char>, number: Option<Reading>) -> bool {
        match self.backend {
            SocketBackend::Linked { link } => link.reads(word, number),
            SocketBackend::Emulated { .. } => false,
        }
    }

    /// Whether `r` is what switching a linked socket on (`on`) or off may
    /// give: the command is sent over the link and its outcome read by
    /// `read_ack`.
    pub open spec fn linked_switch(&self, on: bool, r: Result<(), DeviceError>) -> bool {
        exists|reply: Result<String, DeviceError>|
            #[trigger] self.link_answers(switch_command_text(on), reply) && ack_of(reply, r)
    }

    /// Whether `r` is what asking a linked socket for its state may give:
    /// `GET_STATE` is sent over the link, its outcome read by `read_state`,
    /// and the power word read by the link and `power_from`.
    pub open spec fn linked_state(&self, r: Result<(bool, Reading), DeviceError>) -> bool {
        exists|reply: Result<String, DeviceError>|
            #[trigger] self.link_answers(get_state_command(), reply) && match reply {
                Err(e) => r == Err::<(bool, Reading), DeviceError>(e),
                Ok(line) => {
                    let t = trimmed(line@);
                    match state_reply(t) {
                        None => r matches Err(DeviceError::Protocol(m)) && m@ == unexpected_reply_text(t),
                        Some((on, word)) => exists|number: Option<Reading>|
                            #[trigger] self.link_reads(word, number) && match number {
                                Some(p) => r == Ok::<(bool, Reading), DeviceError>((on, p)),
                                None => r matches Err(DeviceError::Protocol(m)) && m@ == bad_power_text(word),
                            },
                    }
                },
            }
    }

    /// The emulated socket that is on or off as `is_on` says and draws
    /// `power` while on.
    pub closed spec fn emulated(is_on: bool, power: Reading) -> SmartSocket {
        SmartSocket { backend: SocketBackend::Emulated { is_on, power } }
    }

    /// The emulated socket `emulated(is_on, power)` is not linked, is on
    /// exactly when `is_on`, and draws `power` while on.
    pub proof fn lemma_emulated(is_on: bool, power: Reading)
        ensures
            !SmartSocket::emulated(is_on, power).is_linked(),
            SmartSocket::emulated(is_on, power).switched_on() == is_on,
            SmartSocket::emulated(is_on, power).rated_power() == power,
    {
    }

    /// An emulated socket.
    pub fn new(is_on: bool, power: Reading) -> (r: SmartSocket)
        ensures
            r == SmartSocket::emulated(is_on, power),
            !r.is_linked(),
            r.switched_on() == is_on,
            r.rated_power() == power,
    {
        SmartSocket { backend: SocketBackend::Emulated { is_on, power } }
    }

    /// A socket driven through `link`.
    pub fn linked(link: Box<dyn SocketLink>) -> (r: SmartSocket)
        ensures
            r.is_linked(),
            forall|command: Seq<char>, reply: Result<String, DeviceError>|
                #[trigger] r.link_answers(command, reply) == link.answers(command, reply),
            forall|word: Seq<char>, number: Option<Reading>|
                #[trigger] r.link_reads(word, number) == link.reads(word, number),
    {
        let backend = SocketBackend::Linked { link };
        SmartSocket { backend }
    }

    pub fn turn_on(&mut self) -> (r: Result<(), DeviceError>)
        ensures
            old(self).is_linked() ==> *final(self) == *old(self) && old(self).linked_switch(true, r),
            !old(self).is_linked() ==> {
                &&& r is Ok
                &&& !final(self).is_linked()
                &&& final(self).switched_on()
                &&& final(self).rated_power() == old(self).rated_power()
            },
    {
        self.set_state(true)
    }

    pub fn turn_off(&mut self) -> (r: Result<(), DeviceError>)
        ensures
            old(self).is_linked() ==> *final(self) == *old(self) && old(self).linked_switch(false, r),
            !old(self).is_linked() ==> {
                &&& r is Ok
                &&& !final(self).is_linked()
                &&& !final(self).switched_on()
                &&& final(self).rated_power() == old(self).rated_power()
            },
    {
        self.set_state(false)
    }

    fn set_state(&mut self, on: bool) -> (r: Result<(), DeviceError>)
        ensures
            old(self).is_linked() ==> *final(self) == *old(self) && old(self).linked_switch(on, r),
            !old(self).is_linked() ==> {
                &&& r is Ok
                &&& !final(self).is_linked()
                &&& final(self).switched_on() == on
                &&& final(self).rated_power() == old(self).rated_power()
            },
    {
        if let SocketBackend::Linked { link } = &self.backend {
            let reply = link.exchange(switch_command(on));
            let ghost outcome = reply;
            let r = read_ack(reply);
            proof {
                assert(self.link_answers(switch_command_text(on), outcome));
            }
            return r;
        }
        match &mut self.backend {
            SocketBackend::Emulated { is_on, .. } => {
                *is_on = on;
            },
            SocketBackend::Linked { .. } => {},
        }
        Ok(())
    }

    /// Whether the socket is on, and what it draws (zero while off).
    fn state(&self) -> (r: Result<(bool, Reading), DeviceError>)
        ensures
            !self.is_linked() ==> (r matches Ok((on, p)) && on == self.switched_on() && (on ==> p
                == self.rated_power()) && (!on ==> p.bit_pattern() == 0 && p.shown() == zero_text())),
            self.is_linked() ==> self.linked_state(r),
    {
        match &self.backend {
            SocketBackend::Emulated { is_on, power } => {
                if *is_on {
                    Ok((true, power.duplicate()))
                } else {
                    Ok((false, Reading::zero()))
                }
            },
            SocketBackend::Linked { link } => {
                let reply = link.exchange("GET_STATE");
                let ghost outcome = reply;
                proof {
                    assert(self.link_answers(get_state_command(), outcome));
                }
                match read_state(reply) {
                    Err(e) => Err(e),
                    Ok((on, word)) => {
                        let number = link.number(word.as_str());
                        proof {
                            assert(self.link_reads(word@, number));
                        }
                        match power_from(word.as_str(), number) {
                            Ok(p) => Ok((on, p)),
                            Err(e) => Err(e),
                        }
                    },
                }
            },
        }
    }

    /// Whether the socket is on; for a linked socket, as its state reply says.
    pub fn is_on(&self) -> (r: Result<bool, DeviceError>)
        ensures
            !self.is_linked() ==> r == Ok::<bool, DeviceError>(self.switched_on()),
            self.is_linked() ==> exists|state: Result<(bool, Reading), DeviceError>|
                #[trigger] self.linked_state(state) && match state {
                    Ok((on, _)) => r == Ok::<bool, DeviceError>(on),
                    Err(e) => r == Err::<bool, DeviceError>(e),
                },
    {
        let state = self.state();
        match state {
            Ok((on, _)) => Ok(on),
            Err(e) => Err(e),
        }
    }

    /// What the socket draws now: zero while it is off; for a linked socket,
    /// as its state reply says.
    pub fn get_power(&self) -> (r: Result<Reading, DeviceError>)
        ensures
            !self.is_linked() ==> (r matches Ok(p) && (self.switched_on() ==> p == self.rated_power())
                && (!self.switched_on() ==> p.bit_pattern() == 0 && p.shown() == zero_text())),
            self.is_linked() ==> exists|state: Result<(bool, Reading), DeviceError>|
                #[trigger] self.linked_state(state) && match state {
                    Ok((_, p)) => r == Ok::<Reading, DeviceError>(p),
                    Err(e) => r == Err::<Reading, DeviceError>(e),
                },
    {
        let state = self.state();
        match state {
            Ok((_, p)) => Ok(p),
            Err(e) => Err(e),
        }
    }
}

/// The report text of a socket whose state is known to the library.
pub open spec fn emulated_socket_report(on: bool, power: Reading) -> Seq<char> {
    socket_status_text(on, if on { power.shown() } else { zero_text() })
}

impl Report for SmartSocket {
    open spec fn is_report(&self, text: Seq<char>) -> bool {
        if !self.is_linked() {
            text == emulated_socket_report(self.switched_on(), self.rated_power())
        } else {
            exists|state: Result<(bool, Reading), DeviceError>|
                #[trigger] self.linked_state(state) && text == state_report_text(state)
        }
    }

    fn report(&self) -> (r: String) {
        let mut r = String::new();
        let state = self.state();
        let ghost outcome = state;
        match state {
            Ok((on, power)) => {
                r.append("Умная розетка. Включена: ");
                if on {
                    r.append("true");
                } else {
                    r.append("false");
                }
                r.append(". Текущая мощность: ");
                r.append(power.text());
                r.append(" W");
                proof {
                    assert(r@ == state_report_text(outcome));
                }
            },
            Err(e) => {
                r.append("Умная розетка. Не удалось получить данные: ");
                r.append(e.message().as_str());
                proof {
                    assert(r@ == state_report_text(outcome));
                }
            },
        }
        r
    }
}

} // verus!
