//! Character-level helpers on names and messages: lexicographic order,
//! equality, sorting, joining and whitespace handling.
use vstd::prelude::*;

verus! {

/// Lexicographic order on character sequences, comparing code points; a proper
/// prefix comes first. This is the order of `str` in Rust (UTF-8 keeps the
/// order of code points).
pub open spec fn seq_lt(a: Seq<char>, b: Seq<char>) -> bool
    decreases a.len(),
{
    if a.len() == 0 {
        b.len() > 0
    } else if b.len() == 0 {
        false
    } else if a[0] != b[0] {
        (a[0] as u32) < (b[0] as u32)
    } else {
        seq_lt(a.drop_first(), b.drop_first())
    }
}

pub proof fn lemma_seq_lt_irreflexive(a: Seq<char>)
    ensures
        !seq_lt(a, a),
    decreases a.len(),
{
    if a.len() > 0 {
        lemma_seq_lt_irreflexive(a.drop_first());
    }
}

pub proof fn lemma_seq_lt_total(a: Seq<char>, b: Seq<char>)
    ensures
        a != b ==> (seq_lt(a, b) || seq_lt(b, a)),
    decreases a.len(),
{
    if a.len() > 0 && b.len() > 0 && a[0] == b[0] {
        lemma_seq_lt_total(a.drop_first(), b.drop_first());
        if a.drop_first() == b.drop_first() {
            assert(a =~= seq![a[0]] + a.drop_first());
            assert(b =~= seq![b[0]] + b.drop_first());
        }
    } else if a.len() > 0 && b.len() > 0 {
        vstd::utf8::char_u32_cast(a[0], a[0] as u32);
        vstd::utf8::char_u32_cast(b[0], b[0] as u32);
    } else if a.len() == 0 && b.len() == 0 {
        assert(a =~= b);
    }
}

pub proof fn lemma_seq_lt_asymmetric(a: Seq<char>, b: Seq<char>)
    ensures
        seq_lt(a, b) ==> !seq_lt(b, a),
    decreases a.len(),
{
    if a.len() > 0 && b.len() > 0 && a[0] == b[0] {
        lemma_seq_lt_asymmetric(a.drop_first(), b.drop_first());
    }
}

pub proof fn lemma_seq_lt_transitive(a: Seq<char>, b: Seq<char>, c: Seq<char>)
    requires
        seq_lt(a, b),
        seq_lt(b, c),
    ensures
        seq_lt(a, c),
    decreases a.len(),
{
    if a.len() > 0 && b.len() > 0 && c.len() > 0 && a[0] == b[0] && b[0] == c[0] {
        lemma_seq_lt_transitive(a.drop_first(), b.drop_first(), c.drop_first());
    }
}

/// A sequence of names in strictly increasing lexicographic order.
pub open spec fn strictly_sorted(s: Seq<Seq<char>>) -> bool {
    forall|i: int, j: int| 0 <= i < j < s.len() ==> seq_lt(#[trigger] s[i], #[trigger] s[j])
}

/// The characters of an optional string.
pub open spec fn opt_view(o: Option<String>) -> Option<Seq<char>> {
    match o {
        Some(s) => Some(s@),
        None => None,
    }
}

/// The character views of a vector of strings.
pub open spec fn views(v: Seq<String>) -> Seq<Seq<char>> {
    v.map_values(|s: String| s@)
}

/// Joins `parts` with `sep` between neighbours.
pub open spec fn join(parts: Seq<Seq<char>>, sep: Seq<char>) -> Seq<char>
    decreases parts.len(),
{
    if parts.len() == 0 {
        Seq::empty()
    } else if parts.len() == 1 {
        parts[0]
    } else {
        join(parts.drop_last(), sep) + sep + parts.last()
    }
}

/// The characters of `s`, one by one.
pub fn chars_of(s: &str) -> (v: Vec<char>)
    ensures
        v@ == s@,
{
    let n = s.unicode_len();
    let mut v: Vec<char> = Vec::new();
    let mut i: usize = 0;
    while i < n
        invariant
            n == s@.len(),
            i <= n,
            v@ == s@.subrange(0, i as int),
        decreases n - i,
    {
        v.push(s.get_char(i));
        i = i + 1;
    }
    v
}

/// Whether `a` comes strictly before `b` in lexicographic order.
pub fn chars_less(a: &Vec<char>, b: &Vec<char>) -> (r: bool)
    ensures
        r == seq_lt(a@, b@),
{
    let mut i: usize = 0;
    assert(a@.subrange(0, a@.len() as int) =~= a@);
    assert(b@.subrange(0, b@.len() as int) =~= b@);
    while i < a.len() && i < b.len()
        invariant
            i <= a@.len(),
            i <= b@.len(),
            a@.subrange(0, i as int) == b@.subrange(0, i as int),
            seq_lt(a@, b@) == seq_lt(a@.subrange(i as int, a@.len() as int), b@.subrange(i as int, b@.len() as int)),
        decreases a.len() - i,
    {
        proof {
            let sa = a@.subrange(i as int, a@.len() as int);
            let sb = b@.subrange(i as int, b@.len() as int);
            assert(sa[0] == a@[i as int]);
            assert(sb[0] == b@[i as int]);
        }
        let x: u32 = a[i] as u32;
        let y: u32 = b[i] as u32;
        if x != y {
            return x < y;
        }
        proof {
            vstd::utf8::char_u32_cast(a@[i as int], x);
            vstd::utf8::char_u32_cast(b@[i as int], y);
        }
        proof {
            let sa = a@.subrange(i as int, a@.len() as int);
            let sb = b@.subrange(i as int, b@.len() as int);
            assert(sa.drop_first() =~= a@.subrange(i + 1, a@.len() as int));
            assert(sb.drop_first() =~= b@.subrange(i + 1, b@.len() as int));
            assert(a@.subrange(0, i + 1) =~= a@.subrange(0, i as int).push(a@[i as int]));
            assert(b@.subrange(0, i + 1) =~= b@.subrange(0, i as int).push(b@[i as int]));
        }
        i = i + 1;
    }
    i < b.len()
}

/// Whether two strings hold the same characters.
pub fn str_eq(a: &str, b: &str) -> (r: bool)
    ensures
        r == (a@ == b@),
{
    let ca = chars_of(a);
    let cb = chars_of(b);
    if ca.len() != cb.len() {
        return false;
    }
    let mut i: usize = 0;
    while i < ca.len()
        invariant
            ca@ == a@,
            cb@ == b@,
            ca@.len() == cb@.len(),
            i <= ca@.len(),
            forall|k: int| 0 <= k < i ==> ca@[k] == cb@[k],
        decreases ca.len() - i,
    {
        let x: u32 = ca[i] as u32;
        let y: u32 = cb[i] as u32;
        if x != y {
            assert(a@[i as int] != b@[i as int]);
            return false;
        }
        proof {
            vstd::utf8::char_u32_cast(ca@[i as int], x);
            vstd::utf8::char_u32_cast(cb@[i as int], y);
        }
        i = i + 1;
    }
    assert(ca@ =~= cb@);
    true
}

/// Whether `a` comes strictly before `b` in lexicographic order.
pub fn str_less(a: &str, b: &str) -> (r: bool)
    ensures
        r == seq_lt(a@, b@),
{
    let ca = chars_of(a);
    let cb = chars_of(b);
    chars_less(&ca, &cb)
}

/// The names of `names`, sorted into increasing lexicographic order.
pub fn sorted_names(names: &Vec<String>) -> (r: Vec<String>)
    requires
        views(names@).no_duplicates(),
    ensures
        strictly_sorted(views(r@)),
        views(r@).to_set() == views(names@).to_set(),
        r@.len() == names@.len(),
{
    let mut out: Vec<String> = Vec::new();
    let mut k: usize = 0;
    while k < names.len()
        invariant
            k <= names@.len(),
            views(names@).no_duplicates(),
            strictly_sorted(views(out@)),
            views(out@).to_set() == views(names@.subrange(0, k as int)).to_set(),
            out@.len() == k,
        decreases names.len() - k,
    {
        let x = names[k].clone();
        let mut j: usize = 0;
        while j < out.len() && str_less(out[j].as_str(), x.as_str())
            invariant
                j <= out@.len(),
                x@ == names@[k as int]@,
                forall|t: int| 0 <= t < j ==> seq_lt(#[trigger] out@[t]@, x@),
            decreases out.len() - j,
        {
            j = j + 1;
        }
        proof {
            let vo = views(out@);
            let prefix = views(names@.subrange(0, k as int));
            assert(!prefix.contains(x@)) by {
                if prefix.contains(x@) {
                    let t = choose|t: int| 0 <= t < prefix.len() && prefix[t] == x@;
                    assert(views(names@)[t] == views(names@)[k as int]);
                }
            }
            assert(!vo.contains(x@)) by {
                if vo.contains(x@) {
                    let t = choose|t: int| 0 <= t < vo.len() && vo[t] == x@;
                    assert(vo.to_set().contains(x@));
                    assert(prefix.to_set().contains(x@));
                }
            }
            if j < out@.len() {
                assert(vo[j as int] != x@);
                lemma_seq_lt_total(out@[j as int]@, x@);
            }
        }
        let ghost old_out = out@;
        out.insert(j, x);
        proof {
            let vo = views(old_out);
            let vn = views(out@);
            assert(vn =~= vo.insert(j as int, names@[k as int]@));
            assert forall|a: int, b: int| 0 <= a < b < vn.len() implies seq_lt(#[trigger] vn[a], #[trigger] vn[b]) by {
                if b < j {
                } else if a < j && b == j {
                } else if a < j && b > j {
                    if j < vo.len() {
                        assert(seq_lt(vo[a], names@[k as int]@));
                        assert(seq_lt(names@[k as int]@, vo[j as int]));
                        if b - 1 > j {
                            lemma_seq_lt_transitive(names@[k as int]@, vo[j as int], vo[b - 1]);
                        }
                        lemma_seq_lt_transitive(vo[a], names@[k as int]@, vo[b - 1]);
                    }
                } else if a == j {
                    assert(seq_lt(names@[k as int]@, vo[j as int]));
                    if b - 1 > j {
                        lemma_seq_lt_transitive(names@[k as int]@, vo[j as int], vo[b - 1]);
                    }
                } else {
                }
            }
            assert(views(names@.subrange(0, k + 1)) =~= views(names@.subrange(0, k as int)).push(names@[k as int]@));
            assert(vn.to_set() =~= vo.to_set().insert(names@[k as int]@)) by {
                assert forall|e: Seq<char>| vn.to_set().contains(e) implies vo.to_set().insert(names@[k as int]@).contains(e) by {
                    let t = choose|t: int| 0 <= t < vn.len() && vn[t] == e;
                    if t < j {
                        assert(vo[t] == e);
                    } else if t > j {
                        assert(vo[t - 1] == e);
                    }
                }
                assert forall|e: Seq<char>| vo.to_set().insert(names@[k as int]@).contains(e) implies vn.to_set().contains(e) by {
                    if e == names@[k as int]@ {
                        assert(vn[j as int] == e);
                    } else {
                        let t = choose|t: int| 0 <= t < vo.len() && vo[t] == e;
                        if t < j {
                            assert(vn[t] == e);
                        } else {
                            assert(vn[t + 1] == e);
                        }
                    }
                }
            }
            views(names@.subrange(0, k as int)).lemma_push_to_set_commute(names@[k as int]@);
            assert(views(names@.subrange(0, k + 1)).to_set() =~= views(names@.subrange(0, k as int)).to_set().insert(names@[k as int]@));
        }
        k = k + 1;
    }
    assert(names@.subrange(0, k as int) =~= names@);
    out
}

/// Appends each of `parts` to `out` with `sep` between neighbours.
pub fn join_strings(parts: &Vec<String>, sep: &str) -> (r: String)
    ensures
        r@ == join(views(parts@), sep@),
{
    let mut out = String::new();
    let mut i: usize = 0;
    while i < parts.len()
        invariant
            i <= parts@.len(),
            out@ == join(views(parts@.subrange(0, i as int)), sep@),
        decreases parts.len() - i,
    {
        proof {
            let pre = views(parts@.subrange(0, i as int));
            let nxt = views(parts@.subrange(0, i + 1));
            assert(nxt =~= pre.push(parts@[i as int]@));
            assert(nxt.drop_last() =~= pre);
        }
        if i > 0 {
            out.append(sep);
        }
        out.append(parts[i].as_str());
        i = i + 1;
    }
    assert(parts@.subrange(0, i as int) =~= parts@);
    out
}

/// The characters that Rust's `char::is_whitespace` accepts (Unicode `White_Space`).
pub open spec fn is_space(c: char) -> bool {
    let u = c as u32;
    (0x09 <= u <= 0x0D) || u == 0x20 || u == 0x85 || u == 0xA0 || u == 0x1680
        || (0x2000 <= u <= 0x200A) || u == 0x2028 || u == 0x2029 || u == 0x202F
        || u == 0x205F || u == 0x3000
}

/// A word: not empty, and without whitespace.
pub open spec fn is_word(w: Seq<char>) -> bool {
    &&& w.len() > 0
    &&& forall|i: int| 0 <= i < w.len() ==> !is_space(#[trigger] w[i])
}

pub fn char_is_space(c: char) -> (r: bool)
    ensures
        r == is_space(c),
{
    let u = c as u32;
    (0x09 <= u && u <= 0x0D) || u == 0x20 || u == 0x85 || u == 0xA0 || u == 0x1680
        || (0x2000 <= u && u <= 0x200A) || u == 0x2028 || u == 0x2029 || u == 0x202F
        || u == 0x205F || u == 0x3000
}

/// How many whitespace characters `s` starts with.
pub open spec fn lead(s: Seq<char>) -> nat
    decreases s.len(),
{
    if s.len() == 0 || !is_space(s[0]) {
        0
    } else {
        1 + lead(s.drop_first())
    }
}

/// How many whitespace characters `s` ends with.
pub open spec fn trail(s: Seq<char>) -> nat
    decreases s.len(),
{
    if s.len() == 0 || !is_space(s.last()) {
        0
    } else {
        1 + trail(s.drop_last())
    }
}

/// `s` without whitespace at either end, as `str::trim` gives it.
pub open spec fn trimmed(s: Seq<char>) -> Seq<char> {
    let t = s.skip(lead(s) as int);
    t.take(t.len() - trail(t))
}

pub proof fn lemma_lead(s: Seq<char>, a: int)
    requires
        0 <= a <= s.len(),
        forall|t: int| 0 <= t < a ==> is_space(#[trigger] s[t]),
        a == s.len() || !is_space(s[a]),
    ensures
        lead(s) == a,
    decreases a,
{
    if a > 0 {
        lemma_lead(s.drop_first(), a - 1);
    }
}

pub proof fn lemma_trail(s: Seq<char>, b: int)
    requires
        0 <= b <= s.len(),
        forall|t: int| b <= t < s.len() ==> is_space(#[trigger] s[t]),
        b == 0 || !is_space(s[b - 1]),
    ensures
        trail(s) == s.len() - b,
    decreases s.len() - b,
{
    if b < s.len() {
        lemma_trail(s.drop_last(), b);
    }
}

/// `s` without whitespace at either end.
pub fn trim(s: &str) -> (r: String)
    ensures
        r@ == trimmed(s@),
{
    let v = chars_of(s);
    let n = v.len();
    let mut a: usize = 0;
    while a < n && char_is_space(v[a])
        invariant
            v@ == s@,
            n == v@.len(),
            a <= n,
            forall|t: int| 0 <= t < a ==> is_space(#[trigger] v@[t]),
        decreases n - a,
    {
        a = a + 1;
    }
    let mut b: usize = n;
    while b > a && char_is_space(v[b - 1])
        invariant
            v@ == s@,
            n == v@.len(),
            a <= b <= n,
            forall|t: int| b <= t < n ==> is_space(#[trigger] v@[t]),
        decreases b - a,
    {
        b = b - 1;
    }
    proof {
        lemma_lead(s@, a as int);
        let t = s@.skip(a as int);
        assert forall|k: int| (b - a) <= k < t.len() implies is_space(#[trigger] t[k]) by {
            assert(t[k] == s@[a + k]);
        }
        if b > a {
            assert(t[b - a - 1] == s@[b - 1]);
        }
        lemma_trail(t, (b - a) as int);
        assert(trimmed(s@) =~= s@.subrange(a as int, b as int));
    }
    s.substring_char(a, b).to_owned()
}

/// How long the word at the start of `s` is: the characters before the first
/// whitespace.
pub open spec fn word_len(s: Seq<char>) -> nat
    decreases s.len(),
{
    if s.len() == 0 || is_space(s[0]) {
        0
    } else {
        1 + word_len(s.drop_first())
    }
}

pub proof fn lemma_word_len(s: Seq<char>, j: int)
    requires
        0 <= j <= s.len(),
        forall|t: int| 0 <= t < j ==> !is_space(#[trigger] s[t]),
        j == s.len() || is_space(s[j]),
    ensures
        word_len(s) == j,
    decreases j,
{
    if j > 0 {
        lemma_word_len(s.drop_first(), j - 1);
    }
}

/// The words of `s`: its maximal runs of non-whitespace characters, in order,
/// as `str::split_whitespace` gives them.
pub open spec fn words(s: Seq<char>) -> Seq<Seq<char>>
    decreases s.len(),
{
    if s.len() == 0 {
        Seq::empty()
    } else if is_space(s[0]) {
        words(s.drop_first())
    } else {
        let n = word_len(s);
        if n <= s.len() {
            seq![s.take(n as int)] + words(s.skip(n as int))
        } else {
            Seq::empty()
        }
    }
}

/// The words of `s`, in order.
pub fn split_words(s: &str) -> (r: Vec<String>)
    ensures
        views(r@) == words(s@),
{
    let v = chars_of(s);
    let n = v.len();
    let mut out: Vec<String> = Vec::new();
    let mut i: usize = 0;
    proof {
        assert(s@.skip(0) =~= s@);
        assert(views(out@) + words(s@.skip(0)) =~= words(s@));
    }
    while i < n
        invariant
            v@ == s@,
            n == v@.len(),
            i <= n,
            views(out@) + words(s@.skip(i as int)) == words(s@),
        decreases n - i,
    {
        if char_is_space(v[i]) {
            proof {
                assert(s@.skip(i as int).drop_first() =~= s@.skip(i + 1));
            }
            i = i + 1;
        } else {
            let mut j: usize = i;
            while j < n && !char_is_space(v[j])
                invariant
                    v@ == s@,
                    n == v@.len(),
                    i <= j <= n,
                    forall|t: int| i <= t < j ==> !is_space(#[trigger] v@[t]),
                decreases n - j,
            {
                j = j + 1;
            }
            let word = s.substring_char(i, j).to_owned();
            proof {
                let rest = s@.skip(i as int);
                assert forall|t: int| 0 <= t < j - i implies !is_space(#[trigger] rest[t]) by {
                    assert(rest[t] == s@[i + t]);
                }
                if j < n {
                    assert(rest[j - i] == s@[j as int]);
                }
                lemma_word_len(rest, (j - i) as int);
                assert(rest.take((j - i) as int) =~= s@.subrange(i as int, j as int));
                assert(rest.skip((j - i) as int) =~= s@.skip(j as int));
                assert(views(out@.push(word)) =~= views(out@).push(word@));
                assert(words(rest) == seq![rest.take((j - i) as int)] + words(rest.skip((j - i) as int)));
                assert(views(out@).push(word@) + words(s@.skip(j as int)) =~= views(out@) + words(rest));
            }
            out.push(word);
            i = j;
        }
    }
    proof {
        assert(s@.skip(i as int) =~= Seq::<char>::empty());
        assert(views(out@) + Seq::<Seq<char>>::empty() =~= views(out@));
    }
    out
}

} // verus!
