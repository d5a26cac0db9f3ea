use vstd::prelude::*;
use vstd::string::*;
use crate::error::XDPError;
use crate::result::XDPResult;

verus! {

/// True for the characters that count as white space at the ends of a text.
pub open spec fn is_space(c: char) -> bool {
    let n = c as u32;
    (9 <= n <= 13) || n == 0x20 || n == 0x85 || n == 0xA0 || n == 0x1680 || (0x2000 <= n
        <= 0x200A) || n == 0x2028 || n == 0x2029 || n == 0x202F || n == 0x205F || n == 0x3000
}

/// `s` without the white space in front.
pub open spec fn skip_spaces(s: Seq<char>) -> Seq<char>
    decreases s.len(),
{
    if s.len() > 0 && is_space(s[0]) {
        skip_spaces(s.skip(1))
    } else {
        s
    }
}

/// `s` without the white space at the end.
pub open spec fn drop_spaces(s: Seq<char>) -> Seq<char>
    decreases s.len(),
{
    if s.len() > 0 && is_space(s.last()) {
        drop_spaces(s.drop_last())
    } else {
        s
    }
}

/// `s` without the white space at both ends.
pub open spec fn trimmed(s: Seq<char>) -> Seq<char> {
    drop_spaces(skip_spaces(s))
}

/// True for the ten decimal digits.
pub open spec fn is_digit(c: char) -> bool {
    48 <= c as u32 <= 57
}

/// True if `s` holds decimal digits and nothing else.
pub open spec fn all_digits(s: Seq<char>) -> bool {
    forall|i: int| 0 <= i < s.len() ==> is_digit(#[trigger] s[i])
}

/// The number that the decimal digits `s` stand for.
pub open spec fn digits_value(s: Seq<char>) -> nat
    decreases s.len(),
{
    if s.len() == 0 {
        0
    } else {
        digits_value(s.drop_last()) * 10 + (s.last() as u32 - 48) as nat
    }
}

/// The number that `s` stands for, if it is a 32-bit number in decimal: one
/// or more digits, with or without a plus sign in front.
pub open spec fn parsed_u32(s: Seq<char>) -> Option<u32> {
    let d = if s.len() > 0 && s[0] == '+' {
        s.skip(1)
    } else {
        s
    };
    if d.len() > 0 && all_digits(d) && digits_value(d) <= u32::MAX {
        Some(digits_value(d) as u32)
    } else {
        None
    }
}

/// The place of the first hyphen in `s`; the length of `s` if it has none.
pub open spec fn dash_at(s: Seq<char>) -> int
    decreases s.len(),
{
    if s.len() == 0 || s[0] == '-' {
        0
    } else {
        1 + dash_at(s.skip(1))
    }
}

/// The number that `s` stands for, and 0 where it stands for none.
pub open spec fn number_or_zero(s: Seq<char>) -> u32 {
    match parsed_u32(s) {
        Some(n) => n,
        None => 0,
    }
}

/// The number of possible CPUs that the system's list of them tells. The
/// list is "0" for one CPU, or the first and the last CPU with one hyphen
/// between them; white space around it does not count. A bound that is no
/// number counts as 0; a last CPU 0, or one before the first, tells nothing.
pub open spec fn possible_cpus(contents: Seq<char>) -> Option<nat> {
    let t = trimmed(contents);
    let d = dash_at(t);
    let rest = t.skip(d + 1);
    let lower = number_or_zero(t.take(d));
    let upper = number_or_zero(rest);
    if t == seq!['0'] {
        Some(1)
    } else if d < t.len() && dash_at(rest) == rest.len() && upper != 0 && lower <= upper {
        Some((upper - lower + 1) as nat)
    } else {
        None
    }
}

/// The characters of `s`.
fn chars_of(s: &str) -> (v: Vec<char>)
    ensures
        v@ == s@,
{
    let n: usize = s.unicode_len();
    let mut v: Vec<char> = Vec::new();
    let mut i: usize = 0;
    while i < n
        invariant
            n == s@.len(),
            i <= n,
            v@ == s@.take(i as int),
        decreases n - i,
    {
        v.push(s.get_char(i));
        i += 1;
        assert(v@ =~= s@.take(i as int));
    }
    assert(s@.take(n as int) =~= s@);
    v
}

fn is_space_char(c: char) -> (r: bool)
    ensures
        r == is_space(c),
{
    let n: u32 = c as u32;
    (9 <= n && n <= 13) || n == 0x20 || n == 0x85 || n == 0xA0 || n == 0x1680 || (0x2000 <= n
        && n <= 0x200A) || n == 0x2028 || n == 0x2029 || n == 0x202F || n == 0x205F || n
        == 0x3000
}

/// The bounds of `v` without the white space at both ends.
fn trim_bounds(v: &Vec<char>) -> (r: (usize, usize))
    ensures
        r.0 <= r.1 <= v@.len(),
        v@.subrange(r.0 as int, r.1 as int) == trimmed(v@),
{
    let mut a: usize = 0;
    assert(v@.skip(0) =~= v@);
    while a < v.len() && is_space_char(v[a])
        invariant
            a <= v@.len(),
            skip_spaces(v@) == skip_spaces(v@.skip(a as int)),
        decreases v@.len() - a,
    {
        assert(v@.skip(a as int).skip(1) =~= v@.skip(a + 1));
        a += 1;
    }
    let ghost u = v@.skip(a as int);
    assert(skip_spaces(u) == u);
    let mut b: usize = v.len();
    assert(v@.subrange(a as int, b as int) =~= u);
    while b > a && is_space_char(v[b - 1])
        invariant
            a <= b <= v@.len(),
            drop_spaces(u) == drop_spaces(v@.subrange(a as int, b as int)),
        decreases b,
    {
        assert(v@.subrange(a as int, b as int).drop_last() =~= v@.subrange(a as int, b - 1));
        b -= 1;
    }
    (a, b)
}

/// The place of the first hyphen in `v` from `from` up to `to`.
fn find_dash(v: &Vec<char>, from: usize, to: usize) -> (i: usize)
    requires
        from <= to <= v@.len(),
    ensures
        from <= i <= to,
        i - from == dash_at(v@.subrange(from as int, to as int)),
{
    let ghost t = v@.subrange(from as int, to as int);
    let mut i: usize = from;
    assert(t.skip(0) =~= t);
    while i < to && v[i] != '-'
        invariant
            from <= i <= to <= v@.len(),
            t == v@.subrange(from as int, to as int),
            dash_at(t) == (i - from) + dash_at(t.skip(i - from)),
        decreases to - i,
    {
        assert(t.skip(i - from).skip(1) =~= t.skip(i - from + 1));
        i += 1;
    }
    i
}

/// A number grows with every digit that is put behind it.
proof fn lemma_digits_grow(s: Seq<char>, k: int)
    requires
        all_digits(s),
        0 <= k <= s.len(),
    ensures
        digits_value(s.take(k)) <= digits_value(s),
    decreases s.len() - k,
{
    if k < s.len() {
        lemma_digits_grow(s, k + 1);
        assert(s.take(k + 1).drop_last() =~= s.take(k));
        assert(is_digit(s[k]));
    } else {
        assert(s.take(k) =~= s);
    }
}

/// The number that `v` from `from` up to `to` stands for, if it is one.
fn parse_u32(v: &Vec<char>, from: usize, to: usize) -> (r: Option<u32>)
    requires
        from <= to <= v@.len(),
    ensures
        r == parsed_u32(v@.subrange(from as int, to as int)),
{
    let ghost s = v@.subrange(from as int, to as int);
    let mut start: usize = from;
    if from < to && v[from] == '+' {
        start = from + 1;
    }
    let ghost d = v@.subrange(start as int, to as int);
    assert(d =~= if s.len() > 0 && s[0] == '+' {
        s.skip(1)
    } else {
        s
    });
    if start == to {
        return None;
    }
    let mut acc: u32 = 0;
    let mut i: usize = start;
    assert(d.take(0) =~= Seq::empty());
    while i < to
        invariant
            start <= i <= to <= v@.len(),
            start < to,
            d == v@.subrange(start as int, to as int),
            s == v@.subrange(from as int, to as int),
            d == if s.len() > 0 && s[0] == '+' {
                s.skip(1)
            } else {
                s
            },
            all_digits(d.take(i - start)),
            acc == digits_value(d.take(i - start)),
        decreases to - i,
    {
        let n: u32 = v[i] as u32;
        assert(d[i - start] == v@[i as int]);
        if n < 48 || n > 57 {
            assert(!is_digit(d[i - start]));
            return None;
        }
        let digit: u32 = n - 48;
        assert(d.take(i - start + 1).drop_last() =~= d.take(i - start));
        assert(d.take(i - start + 1).last() == d[i - start]);
        assert(all_digits(d.take(i - start + 1))) by {
            assert forall|j: int| 0 <= j < i - start + 1 implies is_digit(
                #[trigger] d.take(i - start + 1)[j],
            ) by {
                if j < i - start {
                    assert(d.take(i - start + 1)[j] == d.take(i - start)[j]);
                }
            }
        }
        if acc > (u32::MAX - digit) / 10 {
            proof {
                assert(digits_value(d.take(i - start + 1)) > u32::MAX);
                if all_digits(d) {
                    lemma_digits_grow(d, i - start + 1);
                }
            }
            return None;
        }
        acc = acc * 10 + digit;
        i += 1;
    }
    assert(d.take(to - start) =~= d);
    Some(acc)
}

/// Returns the number of possible cpus that `contents` tells, which is what
/// the system lists under `/sys/devices/system/cpu/possible`. A list that
/// tells no number is the error "Unable to determine number of cpus".
pub fn num_cpus(contents: &str) -> (r: XDPResult<usize>)
    ensures
        match possible_cpus(contents@) {
            Some(n) if n <= usize::MAX => r == Ok::<usize, XDPError>(n as usize),
            _ => r is Err && r->Err_0.tells("Unable to determine number of cpus"@),
        },
{
    let v = chars_of(contents);
    let (a, b) = trim_bounds(&v);
    let ghost t = v@.subrange(a as int, b as int);
    if b - a == 1 && v[a] == '0' {
        assert(t =~= seq!['0']);
        return Ok(1);
    }
    assert(t != seq!['0']) by {
        if t == seq!['0'] {
            assert(t.len() == 1 && t[0] == '0');
        }
    }
    let d = find_dash(&v, a, b);
    if d == b {
        return Err(XDPError::new("Unable to determine number of cpus"));
    }
    assert(t.skip(d - a + 1) =~= v@.subrange(d + 1, b as int));
    assert(t.take(d - a) =~= v@.subrange(a as int, d as int));
    let more = find_dash(&v, d + 1, b);
    if more != b {
        return Err(XDPError::new("Unable to determine number of cpus"));
    }
    let lower: u32 = match parse_u32(&v, a, d) {
        Some(n) => n,
        None => 0,
    };
    let upper: u32 = match parse_u32(&v, d + 1, b) {
        Some(n) => n,
        None => 0,
    };
    if upper == 0 || lower > upper {
        return Err(XDPError::new("Unable to determine number of cpus"));
    }
    let span: usize = (upper - lower) as usize;
    if span == usize::MAX {
        return Err(XDPError::new("Unable to determine number of cpus"));
    }
    Ok(span + 1)
}

} // verus!
