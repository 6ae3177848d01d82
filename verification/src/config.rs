//! The configuration of the thermometer emulator: `key=value` lines giving
//! the `address` to send to and the `period_ms` between sends.
use vstd::prelude::*;
use crate::text::{trimmed, trim, str_eq, chars_of, views, opt_view};

verus! {

/// How long the first line of `s` is: the characters before the first line
/// feed.
pub open spec fn line_len(s: Seq<char>) -> nat
    decreases s.len(),
{
    if s.len() == 0 || s[0] == '\n' {
        0
    } else {
        1 + line_len(s.drop_first())
    }
}

/// The pieces of `s` between line feeds, the last piece included even when
/// it is empty.
pub open spec fn pieces(s: Seq<char>) -> Seq<Seq<char>>
    decreases s.len(),
{
    let n = line_len(s);
    if n >= s.len() {
        seq![s]
    } else {
        seq![s.take(n as int)] + pieces(s.skip(n as int + 1))
    }
}

pub proof fn lemma_line_len(s: Seq<char>, j: int)
    requires
        0 <= j <= s.len(),
        forall|t: int| 0 <= t < j ==> #[trigger] s[t] != '\n',
        j == s.len() || s[j] == '\n',
    ensures
        line_len(s) == j,
    decreases j,
{
    if j > 0 {
        lemma_line_len(s.drop_first(), j - 1);
    }
}

/// The pieces of `s` between line feeds.
pub fn split_lines(s: &str) -> (r: Vec<String>)
    ensures
        views(r@) == pieces(s@),
{
    let v = chars_of(s);
    let n = v.len();
    let mut out: Vec<String> = Vec::new();
    let mut start: usize = 0;
    let mut i: usize = 0;
    proof {
        assert(s@.skip(0) =~= s@);
        assert(views(out@) + pieces(s@.skip(0)) =~= pieces(s@));
    }
    while i < n
        invariant
            v@ == s@,
            n == v@.len(),
            start <= i <= n,
            forall|t: int| start <= t < i ==> #[trigger] v@[t] != '\n',
            views(out@) + pieces(s@.skip(start as int)) == pieces(s@),
        decreases n - i,
    {
        if v[i] == '\n' {
            let piece = s.substring_char(start, i).to_owned();
            proof {
                let rest = s@.skip(start as int);
                assert forall|t: int| 0 <= t < i - start implies #[trigger] rest[t] != '\n' by {
                    assert(rest[t] == s@[start + t]);
                }
                assert(rest[i - start] == s@[i as int]);
                lemma_line_len(rest, (i - start) as int);
                assert(rest.take((i - start) as int) =~= s@.subrange(start as int, i as int));
                assert(rest.skip(i - start + 1) =~= s@.skip(i + 1));
                assert(views(out@.push(piece)) =~= views(out@).push(piece@));
                assert(views(out@).push(piece@) + pieces(s@.skip(i + 1)) =~= views(out@) + pieces(rest));
            }
            out.push(piece);
            start = i + 1;
        }
        i = i + 1;
    }
    let last = s.substring_char(start, n).to_owned();
    proof {
        let rest = s@.skip(start as int);
        assert forall|t: int| 0 <= t < n - start implies #[trigger] rest[t] != '\n' by {
            assert(rest[t] == s@[start + t]);
        }
        lemma_line_len(rest, (n - start) as int);
        assert(rest =~= s@.subrange(start as int, n as int));
        assert(views(out@.push(last)) =~= views(out@).push(last@));
        assert(pieces(rest) == seq![rest]);
        assert(views(out@).push(last@) =~= views(out@) + pieces(rest));
    }
    out.push(last);
    out
}

/// The message of `ParseIntError` for an empty string.
pub open spec fn empty_number_text() -> Seq<char> {
    "cannot parse integer from empty string"@
}

/// The message of `ParseIntError` for a character that is not a digit.
pub open spec fn invalid_digit_text() -> Seq<char> {
    "invalid digit found in string"@
}

/// The message of `ParseIntError` for a number above the type's maximum.
pub open spec fn too_large_text() -> Seq<char> {
    "number too large to fit in target type"@
}

pub open spec fn is_digit(c: char) -> bool {
    '0' <= c && c <= '9'
}

/// Reads `digits` left to right onto `acc`, stopping at the first character
/// that is not a digit or the first step above `u64::MAX`.
pub open spec fn read_digits(acc: int, digits: Seq<char>) -> Result<int, Seq<char>>
    decreases digits.len(),
{
    if digits.len() == 0 {
        Ok(acc)
    } else if !is_digit(digits[0]) {
        Err(invalid_digit_text())
    } else {
        let next = acc * 10 + (digits[0] as u32 - '0' as u32);
        if next > u64::MAX {
            Err(too_large_text())
        } else {
            read_digits(next, digits.drop_first())
        }
    }
}

/// What `str::parse::<u64>` gives for `s`: an optional `+` and then decimal
/// digits, within `u64`.
pub open spec fn u64_of(s: Seq<char>) -> Result<u64, Seq<char>> {
    if s.len() == 0 {
        Err(empty_number_text())
    } else {
        let digits = if s[0] == '+' { s.drop_first() } else { s };
        if s[0] == '+' && digits.len() == 0 {
            Err(invalid_digit_text())
        } else {
            match read_digits(0, digits) {
                Ok(n) => Ok(n as u64),
                Err(e) => Err(e),
            }
        }
    }
}

/// Reads a decimal `u64` as `str::parse::<u64>` does; the error is the text
/// of the `ParseIntError`.
pub fn parse_u64(s: &str) -> (r: Result<u64, String>)
    ensures
        match u64_of(s@) {
            Ok(n) => r == Ok::<u64, String>(n),
            Err(e) => r matches Err(m) && m@ == e,
        },
{
    let v = chars_of(s);
    if v.len() == 0 {
        return Err("cannot parse integer from empty string".to_owned());
    }
    let start: usize = if v[0] == '+' { 1 } else { 0 };
    if start == 1 && v.len() == 1 {
        return Err("invalid digit found in string".to_owned());
    }
    let ghost digits = if s@[0] == '+' { s@.drop_first() } else { s@ };
    proof {
        assert(digits =~= s@.skip(start as int));
        assert(u64_of(s@) == match read_digits(0, digits) {
            Ok(n) => Ok::<u64, Seq<char>>(n as u64),
            Err(e) => Err(e),
        });
    }
    let mut acc: u64 = 0;
    let mut i: usize = start;
    while i < v.len()
        invariant
            v@ == s@,
            start <= i <= v@.len(),
            digits == s@.skip(start as int),
            u64_of(s@) == match read_digits(0, digits) {
                Ok(n) => Ok::<u64, Seq<char>>(n as u64),
                Err(e) => Err(e),
            },
            read_digits(0, digits) == read_digits(acc as int, s@.skip(i as int)),
        decreases v.len() - i,
    {
        let c = v[i];
        let rest = Ghost(s@.skip(i as int));
        proof {
            assert(rest@[0] == c);
            assert(rest@.drop_first() =~= s@.skip(i + 1));
        }
        if !('0' <= c && c <= '9') {
            proof {
                assert(!is_digit(rest@[0]));
                assert(read_digits(acc as int, rest@) == Err::<int, Seq<char>>(invalid_digit_text()));
            }
            return Err("invalid digit found in string".to_owned());
        }
        let d: u64 = (c as u32 - '0' as u32) as u64;
        if acc > (u64::MAX - d) / 10 {
            proof {
                assert(acc * 10 + d > u64::MAX) by (nonlinear_arith)
                    requires acc > (u64::MAX - d) / 10, d <= 9;
            }
            return Err("number too large to fit in target type".to_owned());
        }
        proof {
            assert(acc * 10 + d <= u64::MAX) by (nonlinear_arith)
                requires acc <= (u64::MAX - d) / 10, d <= 9;
        }
        acc = acc * 10 + d;
        i = i + 1;
    }
    proof {
        assert(s@.skip(i as int) =~= Seq::<char>::empty());
    }
    Ok(acc)
}

/// The settings of the thermometer emulator.
#[derive(Debug)]
pub struct Config {
    pub address: String,
    pub period_ms: u64,
}

/// The settings read so far: the address and the period, where given.
pub type Partial = (Option<Seq<char>>, Option<u64>);

/// The first `=` of `s` splits it into key and value.
pub open spec fn eq_split(s: Seq<char>) -> Option<(Seq<char>, Seq<char>)> {
    if exists|i: int| 0 <= i < s.len() && s[i] == '=' {
        let i = choose|i: int| 0 <= i < s.len() && s[i] == '=' && forall|j: int| 0 <= j < i ==> s[j] != '=';
        Some((s.take(i), s.skip(i + 1)))
    } else {
        None
    }
}

/// Reads one line of the configuration onto `state`; the error is the message
/// that the emulator stops with.
pub open spec fn read_line(state: Partial, line: Seq<char>) -> Result<Partial, Seq<char>> {
    let l = trimmed(line);
    if l.len() == 0 || l[0] == '#' {
        Ok(state)
    } else {
        match eq_split(l) {
            None => Err("некорректная строка конфига: `"@ + l + "`"@),
            Some((key, value)) => {
                let k = trimmed(key);
                let v = trimmed(value);
                if k == "address"@ {
                    Ok((Some(v), state.1))
                } else if k == "period_ms"@ {
                    match u64_of(v) {
                        Ok(n) => Ok((state.0, Some(n))),
                        Err(e) => Err("некорректное значение `period_ms="@ + v + "`: "@ + e),
                    }
                } else {
                    Err("неизвестный ключ конфига `"@ + k + "`"@)
                }
            },
        }
    }
}

/// Reads `lines` in order; the first error stops the reading.
pub open spec fn read_lines(lines: Seq<Seq<char>>) -> Result<Partial, Seq<char>>
    decreases lines.len(),
{
    if lines.len() == 0 {
        Ok((None, None))
    } else {
        match read_lines(lines.drop_last()) {
            Ok(state) => read_line(state, lines.last()),
            Err(e) => Err(e),
        }
    }
}

/// The configuration that `content` gives: its address and period, or the
/// message of the first problem.
pub open spec fn config_of(content: Seq<char>) -> Result<(Seq<char>, u64), Seq<char>> {
    match read_lines(pieces(content)) {
        Err(e) => Err(e),
        Ok((address, period)) => match address {
            None => Err("в конфиге отсутствует ключ `address`"@),
            Some(a) => match period {
                None => Err("в конфиге отсутствует ключ `period_ms`"@),
                Some(p) => Ok((a, p)),
            },
        },
    }
}

proof fn lemma_read_lines_err(lines: Seq<Seq<char>>, k: int, e: Seq<char>)
    requires
        0 <= k <= lines.len(),
        read_lines(lines.take(k)) == Err::<Partial, Seq<char>>(e),
    ensures
        read_lines(lines) == Err::<Partial, Seq<char>>(e),
    decreases lines.len() - k,
{
    if k < lines.len() {
        assert(lines.take(k + 1).drop_last() =~= lines.take(k));
        lemma_read_lines_err(lines, k + 1, e);
    } else {
        assert(lines.take(k) =~= lines);
    }
}

/// Splits `s` at its first `=`.
fn split_eq(s: &str) -> (r: Option<(String, String)>)
    ensures
        match eq_split(s@) {
            Some((k, v)) => r matches Some((a, b)) && a@ == k && b@ == v,
            None => r is None,
        },
{
    let v = chars_of(s);
    let mut i: usize = 0;
    while i < v.len()
        invariant
            v@ == s@,
            i <= v@.len(),
            forall|j: int| 0 <= j < i ==> s@[j] != '=',
        decreases v.len() - i,
    {
        if v[i] == '=' {
            let key = s.substring_char(0, i).to_owned();
            let value = s.substring_char(i + 1, v.len()).to_owned();
            proof {
                let c = choose|c: int| 0 <= c < s@.len() && s@[c] == '=' && forall|j: int| 0 <= j < c ==> s@[j] != '=';
                assert(c == i) by {
                    if c < i {
                        assert(s@[c] != '=');
                    } else if c > i {
                        assert(s@[i as int] != '=');
                    }
                }
                assert(key@ =~= s@.take(i as int));
                assert(value@ =~= s@.skip(i + 1));
            }
            return Some((key, value));
        }
        i = i + 1;
    }
    None
}

fn read_config_line(address: &mut Option<String>, period: &mut Option<u64>, line: &str) -> (r: Result<(), String>)
    ensures
        match read_line((opt_view(*old(address)), *old(period)), line@) {
            Ok((a, p)) => r is Ok && opt_view(*final(address)) == a && *final(period) == p,
            Err(e) => r matches Err(m) && m@ == e,
        },
{
    let l = trim(line);
    let ghost lv = l@;
    if l.unicode_len() == 0 || l.as_str().get_char(0) == '#' {
        proof {
            if lv.len() > 0 {
                assert(lv[0] == '#');
            }
        }
        return Ok(());
    }
    match split_eq(l.as_str()) {
        None => {
            let mut m = String::new();
            m.append("некорректная строка конфига: `");
            m.append(l.as_str());
            m.append("`");
            Err(m)
        },
        Some((key, value)) => {
            let k = trim(key.as_str());
            let v = trim(value.as_str());
            if str_eq(k.as_str(), "address") {
                *address = Some(v);
                Ok(())
            } else if str_eq(k.as_str(), "period_ms") {
                match parse_u64(v.as_str()) {
                    Ok(n) => {
                        *period = Some(n);
                        Ok(())
                    },
                    Err(e) => {
                        let mut m = String::new();
                        m.append("некорректное значение `period_ms=");
                        m.append(v.as_str());
                        m.append("`: ");
                        m.append(e.as_str());
                        Err(m)
                    },
                }
            } else {
                let mut m = String::new();
                m.append("неизвестный ключ конфига `");
                m.append(k.as_str());
                m.append("`");
                Err(m)
            }
        },
    }
}

/// Reads the emulator configuration from the text of the file.
pub fn parse_config(content: &str) -> (r: Result<Config, String>)
    ensures
        match config_of(content@) {
            Ok((a, p)) => r matches Ok(c) && c.address@ == a && c.period_ms == p,
            Err(e) => r matches Err(m) && m@ == e,
        },
{
    let lines = split_lines(content);
    let ghost all = views(lines@);
    let mut address: Option<String> = None;
    let mut period: Option<u64> = None;
    let mut i: usize = 0;
    proof {
        assert(all.take(0) =~= Seq::<Seq<char>>::empty());
    }
    while i < lines.len()
        invariant
            all == views(lines@),
            all == pieces(content@),
            i <= lines@.len(),
            read_lines(all.take(i as int)) == Ok::<Partial, Seq<char>>((opt_view(address), period)),
        decreases lines.len() - i,
    {
        proof {
            assert(all.take(i + 1).drop_last() =~= all.take(i as int));
            assert(all.take(i + 1).last() == lines@[i as int]@);
        }
        match read_config_line(&mut address, &mut period, lines[i].as_str()) {
            Ok(()) => {},
            Err(m) => {
                proof {
                    lemma_read_lines_err(all, i + 1, m@);
                }
                return Err(m);
            },
        }
        i = i + 1;
    }
    proof {
        assert(all.take(i as int) =~= all);
    }
    match address {
        None => Err("в конфиге отсутствует ключ `address`".to_owned()),
        Some(a) => match period {
            None => Err("в конфиге отсутствует ключ `period_ms`".to_owned()),
            Some(p) => Ok(Config { address: a, period_ms: p }),
        },
    }
}

} // verus!
