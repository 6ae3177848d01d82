//! Properties of the library as a whole: what holds across its operations.
use vstd::prelude::*;
use crate::device::SmartDevice;
use crate::emulator::{reply_to, on_after, state_line};
use crate::home::SmartHome;
use crate::reading::{Reading, zero_text};
use crate::room::{Room, hear, round, lists_keys_in_order};
use crate::socket::{state_reply, ok_reply, turn_on_command, turn_off_command, get_state_command};
use crate::text::{seq_lt, strictly_sorted, words, is_space, is_word, lemma_seq_lt_asymmetric, join, trimmed, lead, trail, lemma_lead, lemma_trail};
use crate::reporter::ReportSources;
use crate::builder::HomeBuilderWithRooms;
use crate::config::{read_line, Partial, config_of, read_lines, pieces, line_len, eq_split, u64_of, read_digits, is_digit, lemma_line_len};
use crate::smart_socket::SmartSocket as PlainSocket;
use crate::api::DeviceSpec;
use crate::socket::{SmartSocket, state_report_text, emulated_socket_report};
use crate::thermometer::SmartThermometer;
use crate::report::Report;
use vstd::std_specs::convert::FromSpec;

verus! {

proof fn lemma_sorted_first_is_least(s: Seq<Seq<char>>, x: Seq<char>)
    requires
        strictly_sorted(s),
        s.len() > 0,
        s.contains(x),
        x != s[0],
    ensures
        seq_lt(s[0], x),
{
    let i = choose|i: int| 0 <= i < s.len() && s[i] == x;
    assert(i != 0);
    assert(seq_lt(s[0], s[i]));
}

/// Names come in one order only: two strictly increasing listings of the
/// same names are the same listing. So `device_names`, `room_names` and the
/// web service's lists are determined by the names present.
pub proof fn law_sorted_listing_is_unique(a: Seq<Seq<char>>, b: Seq<Seq<char>>)
    requires
        strictly_sorted(a),
        strictly_sorted(b),
        a.to_set() == b.to_set(),
    ensures
        a == b,
    decreases a.len(),
{
    if a.len() == 0 {
        if b.len() > 0 {
            assert(b.to_set().contains(b[0]));
            assert(!a.to_set().contains(b[0]));
        }
        assert(a =~= b);
    } else if b.len() == 0 {
        assert(a.to_set().contains(a[0]));
    } else {
        assert(a.to_set().contains(a[0]));
        assert(b.to_set().contains(b[0]));
        assert(b.contains(a[0]));
        assert(a.contains(b[0]));
        if a[0] != b[0] {
            lemma_sorted_first_is_least(b, a[0]);
            lemma_sorted_first_is_least(a, b[0]);
            lemma_seq_lt_asymmetric(a[0], b[0]);
        }
        let a2 = a.drop_first();
        let b2 = b.drop_first();
        assert(strictly_sorted(a2)) by {
            assert forall|i: int, j: int| 0 <= i < j < a2.len() implies seq_lt(#[trigger] a2[i], #[trigger] a2[j]) by {
                assert(a2[i] == a[i + 1] && a2[j] == a[j + 1]);
            }
        }
        assert(strictly_sorted(b2)) by {
            assert forall|i: int, j: int| 0 <= i < j < b2.len() implies seq_lt(#[trigger] b2[i], #[trigger] b2[j]) by {
                assert(b2[i] == b[i + 1] && b2[j] == b[j + 1]);
            }
        }
        assert(a2.to_set() =~= b2.to_set()) by {
            assert forall|x: Seq<char>| a2.to_set().contains(x) implies b2.to_set().contains(x) by {
                let i = choose|i: int| 0 <= i < a2.len() && a2[i] == x;
                assert(a[i + 1] == x);
                assert(seq_lt(a[0], a[i + 1]));
                crate::text::lemma_seq_lt_irreflexive(x);
                assert(b.to_set().contains(x));
                let k = choose|k: int| 0 <= k < b.len() && b[k] == x;
                assert(k != 0);
                assert(b2[k - 1] == x);
            }
            assert forall|x: Seq<char>| b2.to_set().contains(x) implies a2.to_set().contains(x) by {
                let i = choose|i: int| 0 <= i < b2.len() && b2[i] == x;
                assert(b[i + 1] == x);
                assert(seq_lt(b[0], b[i + 1]));
                crate::text::lemma_seq_lt_irreflexive(x);
                assert(a.to_set().contains(x));
                let k = choose|k: int| 0 <= k < a.len() && a[k] == x;
                assert(k != 0);
                assert(a2[k - 1] == x);
            }
        }
        law_sorted_listing_is_unique(a2, b2);
        assert(a =~= seq![a[0]] + a2);
        assert(b =~= seq![b[0]] + b2);
    }
}

/// A room added under a name is found under that name, and every other room
/// stays as it was (what `add_room` gives and `get_room` reads).
pub proof fn law_added_room_is_found(before: SmartHome, after: SmartHome, name: Seq<char>, room: Room)
    requires
        after.view() == before.view().insert(name, room),
    ensures
        after.view().contains_key(name),
        after.view()[name] == room,
        forall|other: Seq<char>| other != name ==> #[trigger] after.view().contains_key(other)
            == before.view().contains_key(other) && (before.view().contains_key(other) ==> after.view()[other]
            == before.view()[other]),
{
}

/// A removed room is no longer found, and every other room stays as it was.
pub proof fn law_removed_room_is_gone(before: SmartHome, after: SmartHome, name: Seq<char>)
    requires
        after.view() == before.view().remove(name),
    ensures
        !after.view().contains_key(name),
        forall|other: Seq<char>| other != name ==> #[trigger] after.view().contains_key(other)
            == before.view().contains_key(other) && (before.view().contains_key(other) ==> after.view()[other]
            == before.view()[other]),
{
}

/// A device added to a room is found in it, and a removed one is not.
pub proof fn law_device_add_then_remove(r0: Room, r1: Room, r2: Room, name: Seq<char>, device: SmartDevice)
    requires
        r1.view() == r0.view().insert(name, device),
        r2.view() == r1.view().remove(name),
    ensures
        r1.view().contains_key(name) && r1.view()[name] == device,
        !r2.view().contains_key(name),
        !r0.view().contains_key(name) ==> r2.view() == r0.view(),
{
    if !r0.view().contains_key(name) {
        assert(r2.view() =~= r0.view());
    }
}

/// Each subscriber of a room that keeps a record hears every addition once,
/// in the order of the additions; each addition calls the subscribers one
/// after the other in the order they subscribed; and a removal in between
/// calls nobody (what two `add_device` calls around a `remove_device` give).
pub proof fn law_subscribers_hear_additions_in_order(
    r0: Room,
    r1: Room,
    r2: Room,
    r3: Room,
    first: (Seq<char>, SmartDevice),
    second: (Seq<char>, SmartDevice),
)
    requires
        r1.heard() == r0.heard().map_values(
            |record: Option<Seq<(Seq<char>, SmartDevice)>>| hear(record, first),
        ),
        r2.heard() == r1.heard(),
        r3.heard() == r2.heard().map_values(
            |record: Option<Seq<(Seq<char>, SmartDevice)>>| hear(record, second),
        ),
        r1.calls() == r0.calls() + round(r0.heard().len(), first.0),
        r2.calls() == r1.calls(),
        r3.calls() == r2.calls() + round(r2.heard().len(), second.0),
    ensures
        r3.heard().len() == r0.heard().len(),
        r3.calls() == r0.calls() + round(r0.heard().len(), first.0) + round(r0.heard().len(), second.0),
        forall|i: int|
            0 <= i < r0.heard().len() ==> #[trigger] r3.heard()[i] == match r0.heard()[i] {
                Some(log) => Some(log + seq![first, second]),
                None => None::<Seq<(Seq<char>, SmartDevice)>>,
            },
{
    assert forall|i: int| 0 <= i < r0.heard().len() implies #[trigger] r3.heard()[i] == match r0.heard()[i] {
        Some(log) => Some(log + seq![first, second]),
        None => None::<Seq<(Seq<char>, SmartDevice)>>,
    } by {
        if let Some(log) = r0.heard()[i] {
            assert(log.push(first).push(second) =~= log + seq![first, second]);
        }
    }
}

/// A room just added appears in every listing of the room names, in its
/// place in the order.
pub proof fn law_added_room_is_listed(before: SmartHome, after: SmartHome, name: Seq<char>, room: Room, names: Seq<Seq<char>>)
    requires
        after.view() == before.view().insert(name, room),
        lists_keys_in_order(names, after.view()),
    ensures
        names.contains(name),
{
    assert(names.to_set().contains(name));
}

proof fn lemma_words_skip_space(s: Seq<char>)
    requires
        s.len() > 0,
        is_space(s[0]),
    ensures
        words(s) == words(s.drop_first()),
{
}

proof fn lemma_words_word_first(w: Seq<char>, rest: Seq<char>)
    requires
        w.len() > 0,
        forall|i: int| 0 <= i < w.len() ==> !is_space(#[trigger] w[i]),
        rest.len() == 0 || is_space(rest[0]),
    ensures
        words(w + rest) == seq![w] + words(rest),
{
    let s = w + rest;
    crate::text::lemma_word_len(s, w.len() as int);
    assert(s.take(w.len() as int) =~= w);
    assert(s.skip(w.len() as int) =~= rest);
}

/// The state reply of the device reads back, by the socket's parser, as the
/// state it describes, whenever the power is written as one word.
pub proof fn law_state_reply_reads_back(on: bool, power: Seq<char>)
    requires
        is_word(power),
    ensures
        state_reply(state_line(on, power)) == Some((on, power)),
{
    reveal_strlit("STATE ");
    reveal_strlit("STATE");
    reveal_strlit("on");
    reveal_strlit("off");
    reveal_strlit(" ");
    let flag: Seq<char> = if on { "on"@ } else { "off"@ };
    let line = state_line(on, power);
    let state_word: Seq<char> = "STATE"@;
    let space: Seq<char> = " "@;
    assert(line =~= state_word + (space + (flag + (space + power))));
    lemma_words_word_first(state_word, space + (flag + (space + power)));
    lemma_words_skip_space(space + (flag + (space + power)));
    assert((space + (flag + (space + power))).drop_first() =~= flag + (space + power));
    lemma_words_word_first(flag, space + power);
    lemma_words_skip_space(space + power);
    assert((space + power).drop_first() =~= power);
    assert(power =~= power + Seq::<char>::empty());
    lemma_words_word_first(power, Seq::<char>::empty());
    let w = words(line);
    assert(w =~= seq![state_word, flag, power]);
    if !on {
        assert(flag != "on"@);
    }
}

/// The emulated device acknowledges both switching commands with the reply
/// that the socket accepts, and after a switch its state reply reads back as
/// the new state: on with its rated power, or off with zero power.
pub proof fn law_device_follows_switching(is_on: bool, power: Reading, on: bool)
    requires
        is_word(power.shown()),
    ensures
        reply_to(is_on, power, if on { turn_on_command() } else { turn_off_command() }) == ok_reply(),
        ({
            let now = on_after(is_on, if on { turn_on_command() } else { turn_off_command() });
            &&& now == on
            &&& state_reply(reply_to(now, power, get_state_command())) == Some(
                (on, if on { power.shown() } else { zero_text() }),
            )
        }),
{
    reveal_strlit("TURN_ON");
    reveal_strlit("TURN_OFF");
    reveal_strlit("GET_STATE");
    reveal_strlit("0");
    assert(turn_on_command() != turn_off_command()) by {
        assert(turn_on_command().len() != turn_off_command().len());
    }
    assert(get_state_command() != turn_on_command()) by {
        assert(get_state_command().len() != turn_on_command().len());
    }
    assert(get_state_command() != turn_off_command()) by {
        assert(get_state_command()[0] != turn_off_command()[0]);
    }
    if on {
        law_state_reply_reads_back(true, power.shown());
    } else {
        assert(is_word(zero_text()));
        law_state_reply_reads_back(false, zero_text());
    }
}

/// A reporter without sources reports the empty text.
pub proof fn law_empty_reporter_reports_nothing(reports: Seq<Seq<char>>)
    requires
        ().are_reports(reports),
    ensures
        join(reports, "\n"@) == Seq::<char>::empty(),
{
}

/// Building a home keeps every finished room and adds the room started last
/// with the devices added to it.
pub proof fn law_built_home_has_every_room(builder: HomeBuilderWithRooms, home: SmartHome, name: Seq<char>)
    requires
        home.view() == builder.planned(),
    ensures
        home.view().contains_key(builder.current_name()),
        home.view()[builder.current_name()] == builder.current_room(),
        builder.finished_rooms().contains_key(name) && name != builder.current_name() ==> home.view().contains_key(name)
            && home.view()[name] == builder.finished_rooms()[name],
{
}

/// Blank lines and lines that start with `#` leave the configuration as it
/// was.
pub proof fn law_config_skips_blank_and_comment_lines(state: Partial, line: Seq<char>)
    requires
        trimmed(line).len() == 0 || trimmed(line)[0] == '#',
    ensures
        read_line(state, line) == Ok::<Partial, Seq<char>>(state),
{
}

/// A plain socket, created with a rated power and then switched on and off
/// in any order, keeps its rated power throughout and is on exactly when
/// the last switch turned it on (off before the first). With `power`, it
/// draws its rated power while on and zero while off. `states` are the
/// socket after `new` and after each switch, and `switches` says which
/// switch came (`true`: `turn_on`).
pub proof fn law_plain_socket_follows_its_switches(
    states: Seq<PlainSocket>,
    switches: Seq<bool>,
    rated: Reading,
)
    requires
        states.len() == switches.len() + 1,
        !states[0].switched_on(),
        states[0].rated_power() == rated,
        forall|i: int|
            0 <= i < switches.len() ==> {
                &&& #[trigger] states[i + 1].switched_on() == switches[i]
                &&& states[i + 1].rated_power() == states[i].rated_power()
            },
    ensures
        forall|k: int| 0 <= k < states.len() ==> #[trigger] states[k].rated_power() == rated,
        forall|k: int|
            0 < k < states.len() ==> #[trigger] states[k].switched_on() == switches[k - 1],
    decreases switches.len(),
{
    if switches.len() > 0 {
        let n = switches.len() - 1;
        law_plain_socket_follows_its_switches(states.take(n + 1), switches.take(n), rated);
        assert(states.take(n + 1)[n] == states[n]);
        assert(states[n + 1].switched_on() == switches[n]);
        assert forall|k: int| 0 <= k < states.len() implies #[trigger] states[k].rated_power() == rated by {
            if k <= n {
                assert(states.take(n + 1)[k] == states[k]);
            } else {
                assert(states[n + 1].rated_power() == states[n].rated_power());
            }
        }
        assert forall|k: int| 0 < k < states.len() implies #[trigger] states[k].switched_on() == switches[k - 1] by {
            if k <= n {
                assert(states.take(n + 1)[k] == states[k]);
                assert(switches.take(n)[k - 1] == switches[k - 1]);
            } else {
                assert(states[(k - 1) + 1].switched_on() == switches[k - 1]);
            }
        }
    }
}

/// A device described in a request to the web service is exactly what the
/// request asks for: a socket is an emulated socket that is on exactly when
/// the request says so and draws the requested power while on; a
/// thermometer is an emulated one that measures the requested temperature.
pub proof fn law_requested_device_is_as_described(spec: DeviceSpec)
    ensures
        match spec {
            DeviceSpec::Socket { is_on, power } => match <SmartDevice as FromSpec<DeviceSpec>>::from_spec(spec) {
                SmartDevice::Socket(s) => !s.is_linked() && s.switched_on() == is_on && s.rated_power() == power,
                SmartDevice::Thermometer(_) => false,
            },
            DeviceSpec::Thermometer { temperature } => match <SmartDevice as FromSpec<DeviceSpec>>::from_spec(
                spec,
            ) {
                SmartDevice::Thermometer(t) => !t.is_fed() && t.stored() == temperature,
                SmartDevice::Socket(_) => false,
            },
        },
{
    match spec {
        DeviceSpec::Socket { is_on, power } => SmartSocket::lemma_emulated(is_on, power),
        DeviceSpec::Thermometer { temperature } => SmartThermometer::lemma_emulated(temperature),
    }
}

/// The report of a socket whose state was read says that state: `true` or
/// `false` as the socket is on or off, and the power read. For the same
/// state it is the report an emulated socket gives.
pub proof fn law_socket_report_says_its_state(on: bool, power: Reading, rated: Reading)
    ensures
        state_report_text(Ok((on, power))) == "Умная розетка. Включена: "@ + (if on {
            "true"@
        } else {
            "false"@
        }) + ". Текущая мощность: "@ + power.shown() + " W"@,
        on ==> state_report_text(Ok((true, power))) == emulated_socket_report(true, power),
        power.shown() == zero_text() ==> state_report_text(Ok((false, power)))
            == emulated_socket_report(false, rated),
{
}

/// Names compare by their first differing character, by code point, as
/// Rust's strings do; a proper prefix comes first. `i` is the length of the
/// part that `a` and `b` share at their start.
pub proof fn law_names_compare_by_first_difference(a: Seq<char>, b: Seq<char>, i: int)
    requires
        0 <= i <= a.len(),
        i <= b.len(),
        a.take(i) == b.take(i),
    ensures
        i < a.len() && i < b.len() && a[i] != b[i] ==> (seq_lt(a, b) <==> (a[i] as u32) < (b[i] as u32)),
        i == a.len() && i < b.len() ==> seq_lt(a, b),
        i == a.len() && i == b.len() ==> !seq_lt(a, b),
    decreases i,
{
    if i > 0 {
        assert(a[0] == a.take(i)[0] && b[0] == b.take(i)[0]);
        assert(a.drop_first().take(i - 1) =~= a.take(i).drop_first());
        assert(b.drop_first().take(i - 1) =~= b.take(i).drop_first());
        law_names_compare_by_first_difference(a.drop_first(), b.drop_first(), i - 1);
        if i < a.len() {
            assert(a.drop_first()[i - 1] == a[i]);
        }
        if i < b.len() {
            assert(b.drop_first()[i - 1] == b[i]);
        }
    }
}

/// A chain of report sources reports its last source last, after the
/// reports of the sources before it; so the reporter of any number of
/// sources writes their reports in the order they were added.
pub proof fn law_last_source_reports_last<C: ReportSources, X: Report>(chain: C, item: X, reports: Seq<Seq<char>>)
    ensures
        (chain, item).are_reports(reports) <==> {
            &&& reports.len() >= 1
            &&& item.is_report(reports.last())
            &&& chain.are_reports(reports.drop_last())
        },
{
}

/// The reporter of three sources gives exactly three reports, the first
/// source's first.
pub proof fn law_three_sources_report_in_order<A: Report, B: Report, C: Report>(
    a: A,
    b: B,
    c: C,
    reports: Seq<Seq<char>>,
)
    requires
        ((((), a), b), c).are_reports(reports),
    ensures
        reports.len() == 3,
        a.is_report(reports[0]),
        b.is_report(reports[1]),
        c.is_report(reports[2]),
{
    law_last_source_reports_last((((), a), b), c, reports);
    law_last_source_reports_last(((), a), b, reports.drop_last());
    law_last_source_reports_last((), a, reports.drop_last().drop_last());
}

/// The decimal digit `d` (below ten).
pub open spec fn digit_char(d: nat) -> char {
    if d == 0 {
        '0'
    } else if d == 1 {
        '1'
    } else if d == 2 {
        '2'
    } else if d == 3 {
        '3'
    } else if d == 4 {
        '4'
    } else if d == 5 {
        '5'
    } else if d == 6 {
        '6'
    } else if d == 7 {
        '7'
    } else if d == 8 {
        '8'
    } else {
        '9'
    }
}

/// `n` written in decimal, without leading zeros.
pub open spec fn decimal(n: nat) -> Seq<char>
    decreases n,
{
    if n < 10 {
        seq![digit_char(n)]
    } else {
        decimal(n / 10).push(digit_char(n % 10))
    }
}

proof fn lemma_digit_char(d: nat)
    requires
        d < 10,
    ensures
        is_digit(digit_char(d)),
        !is_space(digit_char(d)),
        digit_char(d) != '=',
        digit_char(d) != '+',
        digit_char(d) != '\n',
        digit_char(d) as u32 - '0' as u32 == d,
{
}

proof fn lemma_decimal_is_digits(n: nat)
    ensures
        decimal(n).len() >= 1,
        forall|i: int| 0 <= i < decimal(n).len() ==> is_digit(#[trigger] decimal(n)[i]) && !is_space(
            decimal(n)[i],
        ) && decimal(n)[i] != '=' && decimal(n)[i] != '\n',
    decreases n,
{
    if n < 10 {
        lemma_digit_char(n);
    } else {
        lemma_decimal_is_digits(n / 10);
        lemma_digit_char(n % 10);
        assert forall|i: int| 0 <= i < decimal(n).len() implies is_digit(#[trigger] decimal(n)[i]) && !is_space(
            decimal(n)[i],
        ) && decimal(n)[i] != '=' && decimal(n)[i] != '\n' by {
            if i < decimal(n / 10).len() {
                assert(decimal(n)[i] == decimal(n / 10)[i]);
            }
        }
    }
}

proof fn lemma_read_digits_push(acc: int, s: Seq<char>, c: char, m: int)
    requires
        read_digits(acc, s) == Ok::<int, Seq<char>>(m),
        is_digit(c),
        m * 10 + (c as u32 - '0' as u32) <= u64::MAX,
    ensures
        read_digits(acc, s.push(c)) == Ok::<int, Seq<char>>(m * 10 + (c as u32 - '0' as u32)),
    decreases s.len(),
{
    let sp = s.push(c);
    assert(sp[0] == if s.len() == 0 { c } else { s[0] });
    if s.len() == 0 {
        assert(m == acc);
        assert(sp.drop_first() =~= Seq::<char>::empty());
        let next = acc * 10 + (c as u32 - '0' as u32);
        assert(read_digits(next, sp.drop_first()) == Ok::<int, Seq<char>>(next));
    } else {
        assert(is_digit(s[0]));
        let next = acc * 10 + (s[0] as u32 - '0' as u32);
        assert(next <= u64::MAX);
        assert(read_digits(next, s.drop_first()) == Ok::<int, Seq<char>>(m));
        assert(sp.drop_first() =~= s.drop_first().push(c));
        lemma_read_digits_push(next, s.drop_first(), c, m);
    }
}

proof fn lemma_read_decimal(n: nat)
    requires
        n <= u64::MAX,
    ensures
        read_digits(0, decimal(n)) == Ok::<int, Seq<char>>(n as int),
    decreases n,
{
    if n < 10 {
        lemma_digit_char(n);
        let d = decimal(n);
        assert(d == seq![digit_char(n)]);
        assert(d[0] == digit_char(n));
        assert(d.drop_first() =~= Seq::<char>::empty());
        assert(read_digits(n as int, d.drop_first()) == Ok::<int, Seq<char>>(n as int));
    } else {
        lemma_read_decimal(n / 10);
        lemma_digit_char(n % 10);
        assert(n == (n / 10) * 10 + n % 10);
        assert(decimal(n) == decimal(n / 10).push(digit_char(n % 10)));
        lemma_read_digits_push(0, decimal(n / 10), digit_char(n % 10), (n / 10) as int);
    }
}

/// Reading the decimal text of a `u64` as a number gives that number back.
pub proof fn law_decimal_reads_back(n: u64)
    ensures
        u64_of(decimal(n as nat)) == Ok::<u64, Seq<char>>(n),
{
    lemma_read_decimal(n as nat);
    lemma_decimal_is_digits(n as nat);
    assert(decimal(n as nat)[0] != '+') by {
        lemma_decimal_is_digits(n as nat);
        assert(is_digit(decimal(n as nat)[0]));
    }
}

/// A line that starts and ends with a character that is not whitespace is
/// its own trimmed form.
proof fn lemma_trimmed_whole(line: Seq<char>)
    requires
        line.len() > 0,
        !is_space(line[0]),
        !is_space(line.last()),
    ensures
        trimmed(line) == line,
{
    lemma_lead(line, 0);
    lemma_trail(line, line.len() as int);
    assert(line.skip(0) =~= line);
    assert(line.skip(0).take(line.len() as int) =~= line);
}

/// A word with one space after it trims to the word.
proof fn lemma_trimmed_space_after(key: Seq<char>)
    requires
        is_word(key),
    ensures
        trimmed(key + " "@) == key,
{
    reveal_strlit(" ");
    let n: int = key.len() as int;
    let k = key + " "@;
    assert(k[0] == key[0]);
    lemma_lead(k, 0);
    assert(k[n - 1] == key[n - 1]);
    assert(k[n] == ' ');
    lemma_trail(k, n);
    assert(k.skip(0) =~= k);
    assert(k.skip(0).take(n) =~= key);
}

/// A word with one space before it trims to the word.
proof fn lemma_trimmed_space_before(value: Seq<char>)
    requires
        is_word(value),
    ensures
        trimmed(" "@ + value) == value,
{
    reveal_strlit(" ");
    let v = " "@ + value;
    assert(v[0] == ' ');
    assert(v[1] == value[0]);
    lemma_lead(v, 1);
    let t = v.skip(1);
    assert(t =~= value);
    lemma_trail(t, t.len() as int);
    assert(t.take(t.len() as int) =~= value);
}

/// The first `=` of `key = value`, for a key without `=`, is the one after
/// the key.
proof fn lemma_split_at_spaced_eq(key: Seq<char>, value: Seq<char>)
    requires
        forall|i: int| 0 <= i < key.len() ==> #[trigger] key[i] != '=',
    ensures
        eq_split(key + " = "@ + value) == Some((key + " "@, " "@ + value)),
{
    reveal_strlit(" = ");
    reveal_strlit(" ");
    let line = key + " = "@ + value;
    let n: int = key.len() as int;
    let i0: int = n + 1;
    assert(line[i0] == '=');
    assert(exists|i: int| 0 <= i < line.len() && line[i] == '=');
    let i = choose|i: int| 0 <= i < line.len() && line[i] == '=' && forall|j: int| 0 <= j < i ==> line[j] != '=';
    assert(exists|i: int| 0 <= i < line.len() && line[i] == '=' && forall|j: int| 0 <= j < i ==> line[j] != '=') by {
        assert forall|j: int| 0 <= j < i0 implies line[j] != '=' by {
            if j < n {
                assert(line[j] == key[j]);
            } else {
                assert(line[j] == ' ');
            }
        }
    }
    if i < i0 {
        if i < n {
            assert(line[i] == key[i]);
        } else {
            assert(line[i] == ' ');
        }
    }
    assert(i == i0);
    assert(line.take(i0) =~= key + " "@);
    assert(line.skip(i0 + 1) =~= " "@ + value);
}

/// A word without `=`, a spaced `=`, and a word: the line is kept whole,
/// split at that `=`, and key and value come out without the spaces around
/// them.
proof fn lemma_key_value_line(key: Seq<char>, value: Seq<char>)
    requires
        is_word(key),
        is_word(value),
        forall|i: int| 0 <= i < key.len() ==> #[trigger] key[i] != '=',
    ensures
        trimmed(key + " = "@ + value) == key + " = "@ + value,
        eq_split(key + " = "@ + value) == Some((key + " "@, " "@ + value)),
        trimmed(key + " "@) == key,
        trimmed(" "@ + value) == value,
{
    let line = key + " = "@ + value;
    assert(line[0] == key[0]);
    assert(line.last() == value.last());
    assert(!is_space(value[value.len() - 1]));
    lemma_trimmed_whole(line);
    lemma_split_at_spaced_eq(key, value);
    lemma_trimmed_space_after(key);
    lemma_trimmed_space_before(value);
}

proof fn lemma_keys_are_words()
    ensures
        is_word("address"@),
        is_word("period_ms"@),
        forall|i: int| 0 <= i < "address"@.len() ==> #[trigger] "address"@[i] != '=',
        forall|i: int| 0 <= i < "period_ms"@.len() ==> #[trigger] "period_ms"@[i] != '=',
        "address"@ != "period_ms"@,
        "address"@[0] != '#',
        "period_ms"@[0] != '#',
        "address = "@ == "address"@ + " = "@,
        "period_ms = "@ == "period_ms"@ + " = "@,
{
    reveal_strlit("address");
    reveal_strlit("period_ms");
    reveal_strlit("address = ");
    reveal_strlit("period_ms = ");
    reveal_strlit(" = ");
    assert("address"@.len() != "period_ms"@.len());
    assert("address = "@ =~= "address"@ + " = "@);
    assert("period_ms = "@ =~= "period_ms"@ + " = "@);
}

/// A `key = value` line of two words, the key without `=`: an `address`
/// key gives the value as the address, a `period_ms` key the number the
/// value writes as the period.
proof fn lemma_read_key_value_line(state: Partial, key: Seq<char>, value: Seq<char>)
    requires
        is_word(key),
        is_word(value),
        forall|i: int| 0 <= i < key.len() ==> #[trigger] key[i] != '=',
        key[0] != '#',
    ensures
        key == "address"@ ==> read_line(state, key + " = "@ + value) == Ok::<Partial, Seq<char>>(
            (Some(value), state.1),
        ),
        key == "period_ms"@ && u64_of(value) is Ok ==> read_line(state, key + " = "@ + value) == Ok::<
            Partial,
            Seq<char>,
        >((state.0, Some(u64_of(value)->Ok_0))),
{
    lemma_key_value_line(key, value);
    let line = key + " = "@ + value;
    assert(line[0] == key[0]);
    if key == "period_ms"@ {
        lemma_keys_are_words();
    }
}

/// An `address` line gives as the address the word after `=`, without the
/// spaces around it.
pub proof fn law_address_line_gives_the_word(state: Partial, a: Seq<char>)
    requires
        is_word(a),
    ensures
        read_line(state, "address = "@ + a) == Ok::<Partial, Seq<char>>((Some(a), state.1)),
{
    lemma_keys_are_words();
    assert("address"@ + " = "@ + a =~= "address = "@ + a);
    lemma_read_key_value_line(state, "address"@, a);
}

/// A `period_ms` line with the decimal text of a number gives that number
/// as the period.
pub proof fn law_period_line_gives_the_number(state: Partial, n: u64)
    ensures
        read_line(state, "period_ms = "@ + decimal(n as nat)) == Ok::<Partial, Seq<char>>((state.0, Some(n))),
{
    lemma_keys_are_words();
    let d = decimal(n as nat);
    assert("period_ms"@ + " = "@ + d =~= "period_ms = "@ + d);
    lemma_decimal_is_digits(n as nat);
    assert(is_word(d));
    law_decimal_reads_back(n);
    lemma_read_key_value_line(state, "period_ms"@, d);
}

/// A configuration of an `address` line with a word and a `period_ms` line
/// with the decimal text of a number gives exactly that address and that
/// period.
#[verifier::rlimit(50)]
pub proof fn law_config_gives_address_and_period(a: Seq<char>, n: u64)
    requires
        is_word(a),
    ensures
        config_of("address = "@ + a + "\n"@ + "period_ms = "@ + decimal(n as nat)) == Ok::<
            (Seq<char>, u64),
            Seq<char>,
        >((a, n)),
{
    let l1 = "address = "@ + a;
    let l2 = "period_ms = "@ + decimal(n as nat);
    lemma_config_lines_have_no_line_feed(a, n);
    lemma_two_lines(l1, l2);
    assert(l1 + "\n"@ + l2 =~= "address = "@ + a + "\n"@ + "period_ms = "@ + decimal(n as nat));
    law_address_line_gives_the_word((None, None), a);
    law_period_line_gives_the_number((Some(a), None), n);
    let lines = seq![l1, l2];
    assert(lines.drop_last() =~= seq![l1]);
    assert(seq![l1].drop_last() =~= Seq::<Seq<char>>::empty());
    assert(read_lines(Seq::<Seq<char>>::empty()) == Ok::<Partial, Seq<char>>((None, None)));
    assert(seq![l1].last() == l1);
    assert(lines.last() == l2);
    assert(read_lines(seq![l1]) == read_line((None, None), l1));
    assert(read_lines(lines) == read_line((Some(a), None), l2));
}

proof fn lemma_config_lines_have_no_line_feed(a: Seq<char>, n: u64)
    requires
        is_word(a),
    ensures
        forall|t: int| 0 <= t < ("address = "@ + a).len() ==> #[trigger] ("address = "@ + a)[t] != '\n',
        forall|t: int| 0 <= t < ("period_ms = "@ + decimal(n as nat)).len() ==> #[trigger] ("period_ms = "@
            + decimal(n as nat))[t] != '\n',
{
    reveal_strlit("address = ");
    reveal_strlit("period_ms = ");
    lemma_decimal_is_digits(n as nat);
    let l1 = "address = "@ + a;
    let l2 = "period_ms = "@ + decimal(n as nat);
    assert forall|t: int| 0 <= t < l1.len() implies #[trigger] l1[t] != '\n' by {
        if t >= 10 {
            assert(l1[t] == a[t - 10]);
        }
    }
    assert forall|t: int| 0 <= t < l2.len() implies #[trigger] l2[t] != '\n' by {
        if t >= 12 {
            assert(l2[t] == decimal(n as nat)[t - 12]);
        }
    }
}

/// Two lines without line feeds, joined by one, are cut back into the two.
proof fn lemma_two_lines(l1: Seq<char>, l2: Seq<char>)
    requires
        forall|t: int| 0 <= t < l1.len() ==> #[trigger] l1[t] != '\n',
        forall|t: int| 0 <= t < l2.len() ==> #[trigger] l2[t] != '\n',
    ensures
        pieces(l1 + "\n"@ + l2) == seq![l1, l2],
{
    reveal_strlit("\n");
    let content = l1 + "\n"@ + l2;
    let j = l1.len() as int;
    assert forall|t: int| 0 <= t < j implies #[trigger] content[t] != '\n' by {
        assert(content[t] == l1[t]);
    }
    assert(content[j] == '\n');
    lemma_line_len(content, j);
    assert(content.take(j) =~= l1);
    assert(content.skip(j + 1) =~= l2);
    lemma_line_len(l2, l2.len() as int);
    assert(pieces(l2) == seq![l2]);
    assert(pieces(content) =~= seq![l1, l2]);
}

} // verus!
