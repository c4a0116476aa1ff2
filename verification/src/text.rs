//! Character-level helpers shared by the address and configuration parsers:
//! Unicode whitespace trimming and decimal parsing with the semantics of
//! `str::trim` and `str::parse` for unsigned integers.

use vstd::prelude::*;

verus! {

/// The Unicode `White_Space` property, which `char::is_whitespace` tests.
pub open spec fn is_white_space(c: char) -> bool {
    let u = c as u32;
    ||| (0x09 <= u && u <= 0x0D)
    ||| u == 0x20
    ||| u == 0x85
    ||| u == 0xA0
    ||| u == 0x1680
    ||| (0x2000 <= u && u <= 0x200A)
    ||| u == 0x2028
    ||| u == 0x2029
    ||| u == 0x202F
    ||| u == 0x205F
    ||| u == 0x3000
}

/// `s` without its leading whitespace.
pub open spec fn trim_start(s: Seq<char>) -> Seq<char>
    decreases s.len(),
{
    if s.len() > 0 && is_white_space(s[0]) {
        trim_start(s.drop_first())
    } else {
        s
    }
}

/// `s` without its trailing whitespace.
pub open spec fn trim_end(s: Seq<char>) -> Seq<char>
    decreases s.len(),
{
    if s.len() > 0 && is_white_space(s.last()) {
        trim_end(s.drop_last())
    } else {
        s
    }
}

/// `s` without leading and trailing whitespace, as `str::trim` returns it.
pub open spec fn trim(s: Seq<char>) -> Seq<char> {
    trim_end(trim_start(s))
}

pub open spec fn is_ascii_char(c: char) -> bool {
    (c as u32) < 128
}

/// The UTF-8 encoding of `s` is shorter than two bytes.
pub open spec fn encodes_below_two_bytes(s: Seq<char>) -> bool {
    s.len() == 0 || (s.len() == 1 && is_ascii_char(s[0]))
}

pub open spec fn is_digit(c: char) -> bool {
    '0' <= c && c <= '9'
}

pub open spec fn all_digits(s: Seq<char>) -> bool {
    forall|i: int| 0 <= i < s.len() ==> is_digit(#[trigger] s[i])
}

pub open spec fn digit_value(c: char) -> nat {
    ((c as u32) - ('0' as u32)) as nat
}

/// The number that the decimal digits `s` denote, most significant first.
pub open spec fn decimal_value(s: Seq<char>) -> nat
    decreases s.len(),
{
    if s.len() == 0 {
        0
    } else {
        decimal_value(s.drop_last()) * 10 + digit_value(s.last())
    }
}

/// The digits that `str::parse` reads for an unsigned type: an optional
/// leading `+` is dropped.
pub open spec fn unsigned_digits(s: Seq<char>) -> Seq<char> {
    if s.len() > 0 && s[0] == '+' {
        s.drop_first()
    } else {
        s
    }
}

/// What `str::parse` gives for an unsigned integer type whose largest value
/// is `max`: the value when `s` is an optional `+` followed by at least one
/// ASCII digit and the value fits, `None` otherwise.
pub open spec fn parse_unsigned(s: Seq<char>, max: nat) -> Option<nat> {
    let d = unsigned_digits(s);
    if d.len() == 0 || !all_digits(d) || decimal_value(d) > max {
        None
    } else {
        Some(decimal_value(d))
    }
}

/// Whether `c` is Unicode whitespace.
pub fn white_space(c: char) -> (b: bool)
    ensures
        b == is_white_space(c),
{
    let u = c as u32;
    (0x09 <= u && u <= 0x0D) || u == 0x20 || u == 0x85 || u == 0xA0 || u == 0x1680 || (0x2000 <= u
        && u <= 0x200A) || u == 0x2028 || u == 0x2029 || u == 0x202F || u == 0x205F || u == 0x3000
}

/// The characters of `s`, in order.
pub fn chars_of(s: &str) -> (v: Vec<char>)
    ensures
        v@ == s@,
{
    let mut v: Vec<char> = Vec::new();
    for c in it: s.chars()
        invariant
            it.seq() == s@,
            v@ == it.seq().take(it.index() as int),
    {
        v.push(c);
        assert(it.seq().take(it.index() as int + 1) =~= v@);
    }
    assert(v@ =~= s@);
    v
}


/// The bounds of `trim(s)` within `s`.
pub fn trim_bounds(s: &Vec<char>) -> (r: (usize, usize))
    ensures
        r.0 <= r.1 <= s.len(),
        s@.subrange(r.0 as int, r.1 as int) == trim(s@),
{
    let n = s.len();
    let mut i: usize = 0;
    assert(s@.subrange(0, n as int) =~= s@);
    while i < n && white_space(s[i])
        invariant
            i <= n == s.len(),
            trim_start(s@) == trim_start(s@.subrange(i as int, n as int)),
        decreases n - i,
    {
        assert(s@.subrange(i as int, n as int).drop_first() =~= s@.subrange(i + 1, n as int));
        i = i + 1;
    }
    let ghost t = s@.subrange(i as int, n as int);
    assert(trim_start(s@) == t);
    let mut j: usize = n;
    assert(s@.subrange(i as int, j as int) =~= t);
    while j > i && white_space(s[j - 1])
        invariant
            i <= j <= n == s.len(),
            t == s@.subrange(i as int, n as int),
            trim_end(t) == trim_end(s@.subrange(i as int, j as int)),
        decreases j - i,
    {
        assert(s@.subrange(i as int, j as int).drop_last() =~= s@.subrange(i as int, j - 1));
        j = j - 1;
    }
    (i, j)
}

/// A copy of `s[lo..hi]`.
pub fn copy_range(s: &Vec<char>, lo: usize, hi: usize) -> (r: Vec<char>)
    requires
        lo <= hi <= s.len(),
    ensures
        r@ == s@.subrange(lo as int, hi as int),
{
    let mut r: Vec<char> = Vec::new();
    let mut k = lo;
    while k < hi
        invariant
            lo <= k <= hi <= s.len(),
            r@ == s@.subrange(lo as int, k as int),
        decreases hi - k,
    {
        r.push(s[k]);
        assert(r@ =~= s@.subrange(lo as int, k + 1));
        k = k + 1;
    }
    r
}

/// The characters of `s` without leading and trailing whitespace.
pub fn trimmed_chars(s: &str) -> (r: Vec<char>)
    ensures
        r@ == trim(s@),
{
    let v = chars_of(s);
    let (lo, hi) = trim_bounds(&v);
    copy_range(&v, lo, hi)
}

/// Parses `s[lo..hi]` as `str::parse` does for an unsigned type whose largest
/// value is `max`.
pub fn parse_unsigned_range(s: &Vec<char>, lo: usize, hi: usize, max: u64) -> (r: Option<u64>)
    requires
        lo <= hi <= s.len(),
        max <= u32::MAX,
    ensures
        match r {
            Some(v) => parse_unsigned(s@.subrange(lo as int, hi as int), max as nat) == Some(
                v as nat,
            ),
            None => parse_unsigned(s@.subrange(lo as int, hi as int), max as nat) is None,
        },
{
    let ghost whole = s@.subrange(lo as int, hi as int);
    let mut start = lo;
    if lo < hi && s[lo] == '+' {
        start = lo + 1;
    }
    let ghost d = s@.subrange(start as int, hi as int);
    assert(d =~= unsigned_digits(whole));
    if start == hi {
        return None;
    }
    let mut acc: u64 = 0;
    let mut k = start;
    assert(d.take(0) =~= Seq::<char>::empty());
    while k < hi
        invariant
            start <= k <= hi <= s.len(),
            max <= u32::MAX,
            d == s@.subrange(start as int, hi as int),
            d == unsigned_digits(s@.subrange(lo as int, hi as int)),
            d.len() > 0,
            all_digits(d.take(k - start)),
            acc == if decimal_value(d.take(k - start)) > max {
                max + 1
            } else {
                decimal_value(d.take(k - start)) as int
            },
        decreases hi - k,
    {
        let c = s[k];
        if !('0' <= c && c <= '9') {
            assert(!is_digit(d[k - start]));
            return None;
        }
        let ghost prev = d.take(k - start);
        let ghost next = d.take(k - start + 1);
        assert(next.drop_last() =~= prev);
        assert(next.last() == c);
        let dv = (c as u32 - '0' as u32) as u64;
        let step = acc * 10 + dv;
        if step > max {
            acc = max + 1;
        } else {
            acc = step;
        }
        k = k + 1;
        assert(all_digits(next));
    }
    assert(d.take(k - start) =~= d);
    if acc > max {
        None
    } else {
        Some(acc)
    }
}


pub open spec fn digit_char(d: nat) -> char {
    (('0' as u32) + d) as char
}

/// The decimal rendering of `n`, as `Display` prints an unsigned integer.
pub open spec fn decimal_chars(n: nat) -> Seq<char>
    decreases n,
{
    if n < 10 {
        seq![digit_char(n)]
    } else {
        decimal_chars(n / 10).push(digit_char(n % 10))
    }
}

/// The decimal rendering of `n` is a non-empty run of digits that denotes
/// `n`.
pub proof fn lemma_decimal_chars_denote(n: nat)
    ensures
        decimal_chars(n).len() > 0,
        all_digits(decimal_chars(n)),
        decimal_value(decimal_chars(n)) == n,
    decreases n,
{
    if n < 10 {
        assert(digit_value(digit_char(n)) == n);
        assert(decimal_chars(n).drop_last() =~= Seq::<char>::empty());
        assert(decimal_value(decimal_chars(n)) == decimal_value(decimal_chars(n).drop_last()) * 10
            + digit_value(decimal_chars(n).last()));
    } else {
        lemma_decimal_chars_denote(n / 10);
        let d = (n % 10) as nat;
        assert(digit_value(digit_char(d)) == d);
        assert(decimal_chars(n).drop_last() =~= decimal_chars(n / 10));
        assert(decimal_chars(n).last() == digit_char(d));
        assert((n / 10) * 10 + n % 10 == n) by (nonlinear_arith);
        assert(decimal_value(decimal_chars(n)) == decimal_value(decimal_chars(n / 10)) * 10
            + digit_value(digit_char(d)));
        assert(all_digits(decimal_chars(n))) by {
            assert forall|i: int| 0 <= i < decimal_chars(n).len() implies is_digit(
                #[trigger] decimal_chars(n)[i],
            ) by {
                if i < decimal_chars(n).len() - 1 {
                    assert(decimal_chars(n)[i] == decimal_chars(n / 10)[i]);
                }
            }
        }
    }
}

/// A sequence that neither starts nor ends with whitespace is its own trim.
pub proof fn lemma_trim_unchanged(s: Seq<char>)
    requires
        s.len() > 0,
        !is_white_space(s[0]),
        !is_white_space(s.last()),
    ensures
        trim(s) == s,
{
}

/// Spaces around a sequence that neither starts nor ends with whitespace are
/// trimmed away.
pub proof fn lemma_trim_spaces(s: Seq<char>)
    requires
        s.len() > 0,
        !is_white_space(s[0]),
        !is_white_space(s.last()),
    ensures
        trim(seq![' '] + s + seq![' ']) == s,
{
    let padded = seq![' '] + s + seq![' '];
    let tail = s + seq![' '];
    assert(is_white_space(' '));
    assert(padded[0] == ' ');
    assert(padded.drop_first() =~= tail);
    assert(trim_start(padded) == trim_start(tail));
    assert(tail[0] == s[0]);
    assert(trim_start(tail) == tail);
    assert(tail.last() == ' ');
    assert(tail.drop_last() =~= s);
    assert(trim_end(tail) == trim_end(s));
    assert(trim_end(s) == s);
}

/// Appends the decimal rendering of `n` to `out`.
pub fn push_decimal(out: &mut Vec<char>, n: u64)
    ensures
        final(out)@ == old(out)@ + decimal_chars(n as nat),
    decreases n,
{
    if n >= 10 {
        push_decimal(out, n / 10);
    }
    let d = (n % 10) as u8;
    let c = (48u8 + d) as char;
    out.push(c);
}

/// Appends the characters of `s` to `out`.
pub fn push_str(out: &mut Vec<char>, s: &str)
    ensures
        final(out)@ == old(out)@ + s@,
{
    let v = chars_of(s);
    push_chars(out, &v);
}

/// Appends `v` to `out`.
pub fn push_chars(out: &mut Vec<char>, v: &Vec<char>)
    ensures
        final(out)@ == old(out)@ + v@,
{
    let ghost start = out@;
    let mut k: usize = 0;
    while k < v.len()
        invariant
            k <= v.len(),
            out@ == start + v@.take(k as int),
        decreases v.len() - k,
    {
        out.push(v[k]);
        assert(out@ =~= start + v@.take(k + 1));
        k = k + 1;
    }
    assert(v@.take(v.len() as int) =~= v@);
}

/// The string whose characters are `v`.
///
/// Collects the characters with `String`'s `FromIterator<char>`; the
/// contract claims that the result holds exactly these characters in order.
#[verifier::external_body]
pub fn string_from_chars(v: &Vec<char>) -> (s: String)
    ensures
        s@ == v@,
{
    v.iter().collect()
}

} // verus!
