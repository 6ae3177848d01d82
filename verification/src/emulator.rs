//! The device side of the socket protocol: the state of an emulated socket
//! device, how it answers commands, and how command lines are cut from the
//! bytes a client sends.
use vstd::prelude::*;
use crate::reading::{Reading, zero_text};
use crate::laws::law_state_reply_reads_back;
use crate::socket::{state_reply, ok_reply, turn_on_command, turn_off_command, get_state_command};
use crate::text::{is_word, str_eq, trim, trimmed};

verus! {

/// The reply to a command the device does not know.
pub open spec fn unknown_command_reply() -> Seq<char> {
    "ERR unknown command"@
}

/// The reply to `GET_STATE`.
pub open spec fn state_line(on: bool, power: Seq<char>) -> Seq<char> {
    "STATE "@ + (if on { "on"@ } else { "off"@ }) + " "@ + power
}

/// The state of an emulated socket device.
#[derive(Debug)]
pub struct SocketState {
    pub is_on: bool,
    pub power: Reading,
}

/// What the device answers to `command` in the state `(is_on, power)`.
pub open spec fn reply_to(is_on: bool, power: Reading, command: Seq<char>) -> Seq<char> {
    if command == turn_on_command() || command == turn_off_command() {
        ok_reply()
    } else if command == get_state_command() {
        state_line(is_on, if is_on { power.shown() } else { zero_text() })
    } else {
        unknown_command_reply()
    }
}

/// Whether the device is on after `command` in the state `is_on`.
pub open spec fn on_after(is_on: bool, command: Seq<char>) -> bool {
    if command == turn_on_command() {
        true
    } else if command == turn_off_command() {
        false
    } else {
        is_on
    }
}

impl SocketState {
    /// A device that is on or off as `is_on` says and draws `power` while on.
    pub fn new(is_on: bool, power: Reading) -> (r: SocketState)
        ensures
            r.is_on == is_on,
            r.power == power,
    {
        SocketState { is_on, power }
    }

    /// Carries out `command` and gives the reply.
    pub fn handle_command(&mut self, command: &str) -> (r: String)
        ensures
            r@ == reply_to(old(self).is_on, old(self).power, command@),
            command@ == get_state_command() ==> state_reply(r@) == Some(
                (old(self).is_on, if old(self).is_on { old(self).power.shown() } else { zero_text() }),
            ),
            final(self).is_on == on_after(old(self).is_on, command@),
            final(self).power == old(self).power,
    {
        proof {
            use_type_invariant(&self.power);
            reveal_strlit("0");
            reveal_strlit("TURN_ON");
            reveal_strlit("TURN_OFF");
            reveal_strlit("GET_STATE");
            assert(get_state_command() != turn_on_command()) by {
                assert(get_state_command().len() != turn_on_command().len());
            }
            assert(get_state_command() != turn_off_command()) by {
                assert(get_state_command()[0] != turn_off_command()[0]);
            }
            assert(is_word(zero_text()));
            law_state_reply_reads_back(self.is_on, if self.is_on { self.power.shown() } else { zero_text() });
        }
        if str_eq(command, "TURN_ON") {
            self.is_on = true;
            "OK".to_owned()
        } else if str_eq(command, "TURN_OFF") {
            self.is_on = false;
            "OK".to_owned()
        } else if str_eq(command, "GET_STATE") {
            let mut r = String::new();
            r.append("STATE ");
            if self.is_on {
                r.append("on");
            } else {
                r.append("off");
            }
            r.append(" ");
            if self.is_on {
                r.append(self.power.text());
            } else {
                r.append("0");
            }
            r
        } else {
            "ERR unknown command".to_owned()
        }
    }

    /// Answers one line a client sent: the command is the line without
    /// whitespace at either end.
    pub fn answer_line(&mut self, line: &str) -> (r: String)
        ensures
            r@ == reply_to(old(self).is_on, old(self).power, trimmed(line@)),
            trimmed(line@) == get_state_command() ==> state_reply(r@) == Some(
                (old(self).is_on, if old(self).is_on { old(self).power.shown() } else { zero_text() }),
            ),
            final(self).is_on == on_after(old(self).is_on, trimmed(line@)),
            final(self).power == old(self).power,
    {
        let command = trim(line);
        self.handle_command(command.as_str())
    }
}

/// Cuts the first complete line (up to and including its line feed) from the
/// front of `buffer`; `None`, and `buffer` unchanged, while no line is
/// complete.
pub fn take_line(buffer: &mut Vec<u8>) -> (r: Option<Vec<u8>>)
    ensures
        match r {
            Some(line) => {
                &&& line@.len() >= 1
                &&& line@.last() == 10u8
                &&& forall|j: int| 0 <= j < line@.len() - 1 ==> line@[j] != 10u8
                &&& old(buffer)@ == line@ + final(buffer)@
            },
            None => {
                &&& forall|j: int| 0 <= j < old(buffer)@.len() ==> old(buffer)@[j] != 10u8
                &&& final(buffer)@ == old(buffer)@
            },
        },
{
    let mut i: usize = 0;
    while i < buffer.len()
        invariant
            i <= buffer@.len(),
            buffer@ == old(buffer)@,
            forall|j: int| 0 <= j < i ==> buffer@[j] != 10u8,
        decreases buffer.len() - i,
    {
        if buffer[i] == 10u8 {
            let mut line: Vec<u8> = Vec::new();
            let mut rest: Vec<u8> = Vec::new();
            let mut k: usize = 0;
            while k < buffer.len()
                invariant
                    k <= buffer@.len(),
                    i < buffer@.len(),
                    buffer@ == old(buffer)@,
                    k <= i + 1 ==> line@ == buffer@.subrange(0, k as int) && rest@.len() == 0,
                    k > i + 1 ==> line@ == buffer@.subrange(0, i + 1) && rest@ == buffer@.subrange(i + 1, k as int),
                decreases buffer.len() - k,
            {
                if k <= i {
                    line.push(buffer[k]);
                } else {
                    rest.push(buffer[k]);
                }
                proof {
                    if k <= i {
                        assert(line@ =~= buffer@.subrange(0, k + 1));
                    } else {
                        assert(rest@ =~= buffer@.subrange(i + 1, k + 1));
                    }
                }
                k = k + 1;
            }
            proof {
                if buffer@.len() == i + 1 {
                    assert(rest@ =~= buffer@.subrange(i + 1, buffer@.len() as int));
                }
                assert(old(buffer)@ =~= line@ + rest@);
            }
            *buffer = rest;
            return Some(line);
        }
        i = i + 1;
    }
    None
}

} // verus!
