//! Character-level helpers shared by the request parser and the store:
//! whitespace splitting, keyword matching, decimal parsing and printing.

use vstd::prelude::*;

verus! {

/// The Unicode `White_Space` property, which `char::is_whitespace`,
/// `str::trim` and `str::split_whitespace` are documented to use.
pub open spec fn is_ws(c: char) -> bool {
    let n = c as u32;
    ||| 9 <= n <= 13
    ||| n == 32
    ||| n == 0x85
    ||| n == 0xA0
    ||| n == 0x1680
    ||| 0x2000 <= n <= 0x200A
    ||| n == 0x2028
    ||| n == 0x2029
    ||| n == 0x202F
    ||| n == 0x205F
    ||| n == 0x3000
}

pub fn is_whitespace(c: char) -> (r: bool)
    ensures
        r == is_ws(c),
{
    let n = c as u32;
    (9 <= n && n <= 13) || n == 32 || n == 0x85 || n == 0xA0 || n == 0x1680 || (0x2000 <= n && n
        <= 0x200A) || n == 0x2028 || n == 0x2029 || n == 0x202F || n == 0x205F || n == 0x3000
}

/// The maximal runs of non-whitespace characters of `s`, left to right.
pub open spec fn words(s: Seq<char>) -> Seq<Seq<char>>
    decreases s.len(),
{
    if s.len() == 0 {
        seq![]
    } else {
        let p = s.drop_last();
        let c = s.last();
        let w = words(p);
        if is_ws(c) {
            w
        } else if p.len() > 0 && !is_ws(p.last()) {
            w.update(w.len() - 1, w.last().push(c))
        } else {
            w.push(seq![c])
        }
    }
}

/// The views of a sequence of string slices.
pub open spec fn views(v: Seq<&str>) -> Seq<Seq<char>> {
    v.map_values(|p: &str| p@)
}

/// The characters of each string of `v`.
pub open spec fn string_views(v: Seq<String>) -> Seq<Seq<char>> {
    v.map_values(|s: String| s@)
}

/// The characters of `s`, collected.
pub fn chars_of(s: &str) -> (v: Vec<char>)
    ensures
        v@ == s@,
{
    let mut v: Vec<char> = Vec::new();
    for c in it: s.chars()
        invariant
            v@ == it.seq().take(it.index() as int),
    {
        v.push(c);
    }
    v
}

/// Splits `s` at whitespace, as `str::split_whitespace` does (after an
/// optional `trim`, which changes nothing here).
pub fn split_words<'a>(s: &'a str) -> (parts: Vec<&'a str>)
    ensures
        views(parts@) == words(s@),
{
    let cs = chars_of(s);
    let n = cs.len();
    let mut parts: Vec<&'a str> = Vec::new();
    let mut start: usize = 0;
    let mut in_word = false;
    let mut i: usize = 0;
    while i < n
        invariant
            n == cs@.len(),
            cs@ == s@,
            i <= n,
            in_word ==> start < i && !is_ws(cs@[i - 1]) && words(cs@.take(i as int)) == views(
                parts@,
            ).push(cs@.subrange(start as int, i as int)),
            !in_word ==> words(cs@.take(i as int)) == views(parts@) && (i == 0 || is_ws(
                cs@[i - 1],
            )),
        decreases n - i,
    {
        let c = cs[i];
        let ghost p = cs@.take(i as int);
        assert(cs@.take(i + 1).drop_last() =~= p);
        assert(cs@.take(i + 1).last() == c);
        if is_whitespace(c) {
            if in_word {
                let ghost before = parts@;
                let w = s.substring_char(start, i);
                parts.push(w);
                assert(views(parts@) =~= views(before).push(w@));
            }
            in_word = false;
        } else {
            if in_word {
                assert(cs@.subrange(start as int, i as int).push(c) =~= cs@.subrange(
                    start as int,
                    i + 1,
                ));
            } else {
                assert(seq![c] =~= cs@.subrange(i as int, i + 1));
                start = i;
                in_word = true;
            }
        }
        i = i + 1;
    }
    if in_word {
        let ghost before = parts@;
        let w = s.substring_char(start, n);
        parts.push(w);
        assert(views(parts@) =~= views(before).push(w@));
    }
    assert(cs@.take(n as int) =~= cs@);
    parts
}

/// The code point of `c` after ASCII lower-casing.
pub open spec fn lower_code(c: char) -> u32 {
    let n = c as u32;
    if 65 <= n <= 90 {
        (n + 32) as u32
    } else {
        n
    }
}

/// The code point of `c` after ASCII upper-casing.
pub open spec fn upper_code(c: char) -> u32 {
    let n = c as u32;
    if 97 <= n <= 122 {
        (n - 32) as u32
    } else {
        n
    }
}

/// `w`, lower-cased, is the (lower-case) keyword `kw`.
///
/// For the keywords of this protocol (none holds a `k`, the one ASCII letter
/// that a non-ASCII character lower-cases to) this is the same as
/// `w.to_lowercase() == kw`.
pub open spec fn lower_is(w: Seq<char>, kw: Seq<char>) -> bool {
    &&& w.len() == kw.len()
    &&& forall|i: int| 0 <= i < w.len() ==> lower_code(#[trigger] w[i]) == kw[i] as u32
}

/// `w`, upper-cased, is the (upper-case) keyword `kw`; for `EXP` this is the
/// same as `w.to_uppercase() == kw`.
pub open spec fn upper_is(w: Seq<char>, kw: Seq<char>) -> bool {
    &&& w.len() == kw.len()
    &&& forall|i: int| 0 <= i < w.len() ==> upper_code(#[trigger] w[i]) == kw[i] as u32
}

/// Compares `w` with `kw` after ASCII case folding of `w` (lower-case when
/// `to_lower`, upper-case otherwise).
pub fn folded_is(w: &str, kw: &str, to_lower: bool) -> (r: bool)
    ensures
        to_lower ==> r == lower_is(w@, kw@),
        !to_lower ==> r == upper_is(w@, kw@),
{
    let a = chars_of(w);
    let b = chars_of(kw);
    if a.len() != b.len() {
        return false;
    }
    let mut i: usize = 0;
    while i < a.len()
        invariant
            a@ == w@,
            b@ == kw@,
            a@.len() == b@.len(),
            i <= a@.len(),
            to_lower ==> forall|j: int| 0 <= j < i ==> lower_code(#[trigger] a@[j]) == b@[j] as u32,
            !to_lower ==> forall|j: int| 0 <= j < i ==> upper_code(#[trigger] a@[j]) == b@[j] as u32,
        decreases a@.len() - i,
    {
        let n = a[i] as u32;
        let f = if to_lower {
            if 65 <= n && n <= 90 {
                n + 32
            } else {
                n
            }
        } else {
            if 97 <= n && n <= 122 {
                n - 32
            } else {
                n
            }
        };
        if f != b[i] as u32 {
            assert(to_lower ==> lower_code(a@[i as int]) != b@[i as int] as u32);
            assert(!to_lower ==> upper_code(a@[i as int]) != b@[i as int] as u32);
            return false;
        }
        i = i + 1;
    }
    true
}

/// `w` ends with `suffix`.
pub open spec fn has_suffix(w: Seq<char>, suffix: Seq<char>) -> bool {
    w.len() >= suffix.len() && w.subrange(w.len() - suffix.len(), w.len() as int) == suffix
}

pub fn ends_with(w: &str, suffix: &str) -> (r: bool)
    ensures
        r == has_suffix(w@, suffix@),
{
    let a = chars_of(w);
    let b = chars_of(suffix);
    if a.len() < b.len() {
        return false;
    }
    let off = a.len() - b.len();
    let mut i: usize = 0;
    while i < b.len()
        invariant
            a@ == w@,
            b@ == suffix@,
            off == a@.len() - b@.len(),
            a@.len() == a.len(),
            i <= b@.len(),
            forall|j: int| 0 <= j < i ==> a@[off + j] == b@[j],
        decreases b@.len() - i,
    {
        if a[off + i] != b[i] {
            assert(a@.subrange(off as int, a@.len() as int)[i as int] != b@[i as int]);
            return false;
        }
        i = i + 1;
    }
    assert(a@.subrange(off as int, a@.len() as int) =~= b@);
    true
}

/// An ASCII decimal digit.
pub open spec fn is_digit(c: char) -> bool {
    48 <= c as u32 <= 57
}

pub open spec fn all_digits(s: Seq<char>) -> bool {
    forall|i: int| 0 <= i < s.len() ==> is_digit(#[trigger] s[i])
}

/// The number that the decimal digits `s` denote.
pub open spec fn digits_value(s: Seq<char>) -> nat
    decreases s.len(),
{
    if s.len() == 0 {
        0
    } else {
        digits_value(s.drop_last()) * 10 + ((s.last() as u32) - 48) as nat
    }
}

/// What `u64::from_str` returns: an optional `+`, then at least one ASCII
/// digit, and a value that fits.
pub open spec fn parse_u64(s: Seq<char>) -> Option<u64> {
    let d = if s.len() > 0 && s[0] == '+' {
        s.drop_first()
    } else {
        s
    };
    if d.len() > 0 && all_digits(d) && digits_value(d) <= u64::MAX {
        Some(digits_value(d) as u64)
    } else {
        None
    }
}

/// What `i64::from_str` returns: an optional sign, then at least one ASCII
/// digit, and a value that fits.
pub open spec fn parse_i64(s: Seq<char>) -> Option<i64> {
    if s.len() > 0 && s[0] == '-' {
        let d = s.drop_first();
        if d.len() > 0 && all_digits(d) && digits_value(d) <= 0x8000_0000_0000_0000 {
            Some((0 - digits_value(d)) as i64)
        } else {
            None
        }
    } else {
        let d = if s.len() > 0 && s[0] == '+' {
            s.drop_first()
        } else {
            s
        };
        if d.len() > 0 && all_digits(d) && digits_value(d) <= i64::MAX {
            Some(digits_value(d) as i64)
        } else {
            None
        }
    }
}

proof fn lemma_digits_value_prefix(s: Seq<char>, i: int)
    requires
        0 <= i <= s.len(),
        all_digits(s),
    ensures
        digits_value(s.take(i)) <= digits_value(s),
    decreases s.len() - i,
{
    if i < s.len() {
        lemma_digits_value_prefix(s, i + 1);
        assert(s.take(i + 1).drop_last() =~= s.take(i));
    } else {
        assert(s.take(i) =~= s);
    }
}

/// The value of the digits `cs[from..]`, when they are all digits and the
/// value is at most `limit`.
fn digits_upto(cs: &Vec<char>, from: usize, limit: u64) -> (r: Option<u64>)
    requires
        from <= cs@.len(),
    ensures
        ({
            let d = cs@.subrange(from as int, cs@.len() as int);
            r == if d.len() > 0 && all_digits(d) && digits_value(d) <= limit {
                Some(digits_value(d) as u64)
            } else {
                None
            }
        }),
{
    let ghost d = cs@.subrange(from as int, cs@.len() as int);
    if from == cs.len() {
        return None;
    }
    let mut acc: u64 = 0;
    let mut i: usize = from;
    while i < cs.len()
        invariant
            d == cs@.subrange(from as int, cs@.len() as int),
            from <= i <= cs@.len(),
            all_digits(d.take(i - from)),
            acc == digits_value(d.take(i - from)),
            acc <= limit,
        decreases cs@.len() - i,
    {
        let c = cs[i];
        let n = c as u32;
        assert(d[i - from] == c);
        if n < 48 || n > 57 {
            assert(!is_digit(d[i - from]));
            return None;
        }
        assert(d.take(i - from + 1).drop_last() =~= d.take(i - from));
        let dv = (n - 48) as u64;
        let next = match acc.checked_mul(10) {
            Some(m) => m.checked_add(dv),
            None => None,
        };
        match next {
            Some(v) if v <= limit => {
                acc = v;
            },
            _ => {
                assert(all_digits(d.take(i - from + 1)));
                assert(digits_value(d.take(i - from + 1)) > limit);
                proof {
                    if all_digits(d) {
                        lemma_digits_value_prefix(d, i - from + 1);
                    }
                }
                return None;
            },
        }
        i = i + 1;
    }
    assert(d.take(i - from) =~= d);
    Some(acc)
}

/// `u64::from_str`.
pub fn parse_u64_str(s: &str) -> (r: Option<u64>)
    ensures
        r == parse_u64(s@),
{
    let cs = chars_of(s);
    let from: usize = if cs.len() > 0 && cs[0] == '+' {
        1
    } else {
        0
    };
    assert(from == 1 ==> cs@.subrange(1, cs@.len() as int) =~= s@.drop_first());
    assert(from == 0 ==> cs@.subrange(0, cs@.len() as int) =~= s@);
    digits_upto(&cs, from, u64::MAX)
}

/// `i64::from_str`.
pub fn parse_i64_str(s: &str) -> (r: Option<i64>)
    ensures
        r == parse_i64(s@),
{
    let cs = chars_of(s);
    if cs.len() > 0 && cs[0] == '-' {
        assert(cs@.subrange(1, cs@.len() as int) =~= s@.drop_first());
        match digits_upto(&cs, 1, 0x8000_0000_0000_0000) {
            Some(m) => {
                if m == 0x8000_0000_0000_0000 {
                    Some(i64::MIN)
                } else {
                    Some(-(m as i64))
                }
            },
            None => None,
        }
    } else {
        let from: usize = if cs.len() > 0 && cs[0] == '+' {
            1
        } else {
            0
        };
        assert(from == 1 ==> cs@.subrange(1, cs@.len() as int) =~= s@.drop_first());
        assert(from == 0 ==> cs@.subrange(0, cs@.len() as int) =~= s@);
        match digits_upto(&cs, from, i64::MAX as u64) {
            Some(m) => Some(m as i64),
            None => None,
        }
    }
}

/// The character of the decimal digit `d`.
pub open spec fn digit_char(d: nat) -> char {
    (48 + d) as char
}

/// The decimal representation of `n`, without leading zeros.
pub open spec fn nat_decimal(n: nat) -> Seq<char>
    decreases n,
{
    if n < 10 {
        seq![digit_char(n)]
    } else {
        nat_decimal(n / 10).push(digit_char(n % 10))
    }
}

/// The decimal representation of `v`, with a `-` in front when negative:
/// what `Display` prints for an integer.
pub open spec fn int_decimal(v: int) -> Seq<char> {
    if v < 0 {
        seq!['-'] + nat_decimal((0 - v) as nat)
    } else {
        nat_decimal(v as nat)
    }
}

fn digit_str(d: u64) -> (r: &'static str)
    requires
        d < 10,
    ensures
        r@ == seq![digit_char(d as nat)],
{
    let r = if d == 0 {
        proof {
            reveal_strlit("0");
        }
        "0"
    } else if d == 1 {
        proof {
            reveal_strlit("1");
        }
        "1"
    } else if d == 2 {
        proof {
            reveal_strlit("2");
        }
        "2"
    } else if d == 3 {
        proof {
            reveal_strlit("3");
        }
        "3"
    } else if d == 4 {
        proof {
            reveal_strlit("4");
        }
        "4"
    } else if d == 5 {
        proof {
            reveal_strlit("5");
        }
        "5"
    } else if d == 6 {
        proof {
            reveal_strlit("6");
        }
        "6"
    } else if d == 7 {
        proof {
            reveal_strlit("7");
        }
        "7"
    } else if d == 8 {
        proof {
            reveal_strlit("8");
        }
        "8"
    } else {
        proof {
            reveal_strlit("9");
        }
        "9"
    };
    assert(r@ =~= seq![digit_char(d as nat)]);
    r
}

/// Appends the decimal representation of `n` to `out`.
pub fn push_decimal(out: &mut String, n: u64)
    ensures
        final(out)@ == old(out)@ + nat_decimal(n as nat),
    decreases n,
{
    if n >= 10 {
        push_decimal(out, n / 10);
    }
    let d = digit_str(n % 10);
    out.append(d);
    assert(final(out)@ =~= old(out)@ + nat_decimal(n as nat));
}

/// `u64::to_string`.
pub fn u64_to_string(n: u64) -> (r: String)
    ensures
        r@ == nat_decimal(n as nat),
{
    let mut r = String::new();
    push_decimal(&mut r, n);
    assert(r@ =~= nat_decimal(n as nat));
    r
}

/// `i64::to_string`.
pub fn i64_to_string(v: i64) -> (r: String)
    ensures
        r@ == int_decimal(v as int),
{
    let mut r = String::new();
    let m: u64 = if v == i64::MIN {
        0x8000_0000_0000_0000
    } else if v < 0 {
        (-v) as u64
    } else {
        v as u64
    };
    if v < 0 {
        r.append("-");
        proof {
            reveal_strlit("-");
        }
    }
    push_decimal(&mut r, m);
    assert(r@ =~= int_decimal(v as int));
    r
}

/// The words `ws` joined with `sep` between each two, as `[&str]::join` does.
pub open spec fn join(ws: Seq<Seq<char>>, sep: Seq<char>) -> Seq<char>
    decreases ws.len(),
{
    if ws.len() == 0 {
        seq![]
    } else if ws.len() == 1 {
        ws[0]
    } else {
        join(ws.drop_last(), sep) + sep + ws.last()
    }
}

/// `parts[from..to].join(sep)`.
pub fn join_range(parts: &Vec<&str>, from: usize, to: usize, sep: &str) -> (r: String)
    requires
        from <= to <= parts@.len(),
    ensures
        r@ == join(views(parts@).subrange(from as int, to as int), sep@),
{
    let mut r = String::new();
    let mut i: usize = from;
    while i < to
        invariant
            from <= i <= to <= parts@.len(),
            r@ == join(views(parts@).subrange(from as int, i as int), sep@),
        decreases to - i,
    {
        let ghost ws = views(parts@).subrange(from as int, i + 1);
        assert(ws.drop_last() =~= views(parts@).subrange(from as int, i as int));
        assert(ws.last() == parts@[i as int]@);
        if i > from {
            r.append(sep);
        } else {
            assert(ws.len() == 1);
        }
        r.append(parts[i]);
        i = i + 1;
    }
    r
}

} // verus!
