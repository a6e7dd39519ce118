//! Decimal text: rendering unsigned and signed integers as strings and
//! parsing them back. The group labels, the store keys and the persisted
//! timestamps are all built from this module, so its round-trip facts are
//! what make label derivation collision-free and record decoding exact.

use vstd::prelude::*;

verus! {

/// The character for a single decimal digit value.
pub open spec fn digit_char(d: int) -> char {
    ((48 + d) as u8) as char
}

/// The numeric value of a decimal digit character.
pub open spec fn char_digit(c: char) -> int {
    c as int - 48
}

pub open spec fn is_digit_char(c: char) -> bool {
    48 <= c as int <= 57
}

pub open spec fn all_digit_chars(s: Seq<char>) -> bool {
    forall|i: int| 0 <= i < s.len() ==> is_digit_char(#[trigger] s[i])
}

/// The decimal rendering of an unsigned number, most significant digit first.
pub open spec fn spec_digits(n: nat) -> Seq<char>
    decreases n,
{
    if n < 10 {
        seq![digit_char(n as int)]
    } else {
        spec_digits(n / 10) + seq![digit_char((n % 10) as int)]
    }
}

/// The value of a sequence of decimal digit characters.
pub open spec fn digits_value(s: Seq<char>) -> nat
    decreases s.len(),
{
    if s.len() == 0 {
        0
    } else {
        digits_value(s.drop_last()) * 10 + (if is_digit_char(s.last()) {
            char_digit(s.last()) as nat
        } else {
            0
        })
    }
}

proof fn lemma_digit_char_value(d: int)
    requires
        0 <= d < 10,
    ensures
        is_digit_char(digit_char(d)),
        char_digit(digit_char(d)) == d,
{
}

/// Rendering a number gives only digit characters, at least one of them,
/// and reading the digits back gives the number.
pub proof fn lemma_spec_digits_value(n: nat)
    ensures
        spec_digits(n).len() >= 1,
        all_digit_chars(spec_digits(n)),
        digits_value(spec_digits(n)) == n,
    decreases n,
{
    if n < 10 {
        lemma_digit_char_value(n as int);
        let s = spec_digits(n);
        assert(s =~= seq![digit_char(n as int)]);
        assert(s.drop_last() =~= Seq::<char>::empty());
        assert(s.last() == digit_char(n as int));
        assert(digits_value(s.drop_last()) == 0);
        assert(digits_value(s) == 0 * 10 + char_digit(digit_char(n as int)));
        assert(digits_value(s) == n);
    } else {
        lemma_spec_digits_value(n / 10);
        lemma_digit_char_value((n % 10) as int);
        let s = spec_digits(n);
        assert(s =~= spec_digits(n / 10) + seq![digit_char((n % 10) as int)]);
        assert(s.drop_last() =~= spec_digits(n / 10));
        assert(s.last() == digit_char((n % 10) as int));
        assert(digits_value(s) == digits_value(spec_digits(n / 10)) * 10 + (n % 10));
        assert(digits_value(s) == (n / 10) * 10 + (n % 10));
    }
}

/// Decimal rendering is injective: distinct numbers render as distinct text.
pub proof fn lemma_spec_digits_injective(a: nat, b: nat)
    requires
        spec_digits(a) == spec_digits(b),
    ensures
        a == b,
{
    lemma_spec_digits_value(a);
    lemma_spec_digits_value(b);
}

fn digit_str(d: u64) -> (r: &'static str)
    requires
        d < 10,
    ensures
        r@ =~= seq![digit_char(d as int)],
{
    let r: &'static str = match d {
        0 => "0",
        1 => "1",
        2 => "2",
        3 => "3",
        4 => "4",
        5 => "5",
        6 => "6",
        7 => "7",
        8 => "8",
        _ => "9",
    };
    proof {
        reveal_strlit("0");
        reveal_strlit("1");
        reveal_strlit("2");
        reveal_strlit("3");
        reveal_strlit("4");
        reveal_strlit("5");
        reveal_strlit("6");
        reveal_strlit("7");
        reveal_strlit("8");
        reveal_strlit("9");
    }
    r
}

fn push_decimal(n: u64, out: &mut String)
    ensures
        final(out)@ == old(out)@ + spec_digits(n as nat),
    decreases n,
{
    if n >= 10 {
        push_decimal(n / 10, out);
    }
    out.append(digit_str(n % 10));
    proof {
        assert(final(out)@ =~= old(out)@ + spec_digits(n as nat));
    }
}

/// The decimal text of an unsigned number.
pub fn u64_to_string(n: u64) -> (r: String)
    ensures
        r@ == spec_digits(n as nat),
{
    let mut out = String::new();
    push_decimal(n, &mut out);
    proof {
        assert(out@ =~= spec_digits(n as nat));
    }
    out
}

/// The decimal text of a signed number: a minus sign for negative values,
/// then the digits of the magnitude.
pub open spec fn spec_render_i64(v: int) -> Seq<char> {
    if v < 0 {
        seq!['-'] + spec_digits((-v) as nat)
    } else {
        spec_digits(v as nat)
    }
}

/// The decimal text of a signed number.
pub fn i64_to_string(v: i64) -> (r: String)
    ensures
        r@ == spec_render_i64(v as int),
{
    if v >= 0 {
        u64_to_string(v as u64)
    } else {
        let magnitude: u64 = ((-(v + 1)) as u64) + 1;
        assert(magnitude == -(v as int));
        let mut out = String::from_str("-");
        proof {
            reveal_strlit("-");
        }
        push_decimal(magnitude, &mut out);
        proof {
            assert(out@ =~= spec_render_i64(v as int));
        }
        out
    }
}

/// What a signed decimal string means: an optional minus sign, then at least
/// one digit, and a value within the machine range. Anything else is no number.
pub open spec fn spec_parse_i64(s: Seq<char>) -> Option<i64> {
    if s.len() > 0 && s[0] == '-' {
        let ds = s.subrange(1, s.len() as int);
        if ds.len() > 0 && all_digit_chars(ds) && digits_value(ds) <= 0x8000000000000000 {
            Some((-(digits_value(ds) as int)) as i64)
        } else {
            None
        }
    } else {
        if s.len() > 0 && all_digit_chars(s) && digits_value(s) <= 0x7fffffffffffffff {
            Some(digits_value(s) as int as i64)
        } else {
            None
        }
    }
}

/// What an unsigned decimal string means.
pub open spec fn spec_parse_u64(s: Seq<char>) -> Option<u64> {
    if s.len() > 0 && all_digit_chars(s) && digits_value(s) <= u64::MAX {
        Some(digits_value(s) as u64)
    } else {
        None
    }
}

/// Extending a digit string never lowers its value.
proof fn lemma_digits_value_take_grows(s: Seq<char>, i: int)
    requires
        0 <= i <= s.len(),
    ensures
        digits_value(s.take(i)) <= digits_value(s),
    decreases s.len() - i,
{
    if i < s.len() {
        lemma_digits_value_take_grows(s, i + 1);
        let t = s.take(i + 1);
        assert(t.drop_last() =~= s.take(i));
        let v = digits_value(s.take(i));
        assert(digits_value(t) >= v * 10) by {
            assert(v * 10 == digits_value(t) - (if is_digit_char(t.last()) {
                char_digit(t.last()) as nat
            } else {
                0
            }));
        }
        assert(v * 10 >= v) by (nonlinear_arith);
    } else {
        assert(s.take(i) =~= s);
    }
}

fn char_to_digit(c: char) -> (r: Option<u64>)
    ensures
        r is Some <==> is_digit_char(c),
        r is Some ==> r->Some_0 == char_digit(c),
{
    let u = c as u32;
    if 48 <= u && u <= 57 {
        Some((u - 48) as u64)
    } else {
        None
    }
}

/// Reads the digits of `s` from position `start` on as an unsigned value,
/// refusing an empty tail, a non-digit, or a value above `limit`.
fn parse_digits_value(s: &str, start: usize, limit: u64) -> (r: Option<u64>)
    requires
        start as int <= s@.len(),
    ensures
        ({
            let ds = s@.subrange(start as int, s@.len() as int);
            match r {
                Some(v) => ds.len() > 0 && all_digit_chars(ds) && digits_value(ds) == v && v
                    <= limit,
                None => ds.len() == 0 || !all_digit_chars(ds) || digits_value(ds) > limit,
            }
        }),
{
    let ghost ds = s@.subrange(start as int, s@.len() as int);
    let n = s.unicode_len();
    if start == n {
        return None;
    }
    let mut value: u64 = 0;
    let mut i: usize = start;
    while i < n
        invariant
            start <= i <= n,
            n == s@.len(),
            ds == s@.subrange(start as int, s@.len() as int),
            all_digit_chars(ds.take(i - start)),
            digits_value(ds.take(i - start)) == value,
            value <= limit,
        decreases n - i,
    {
        let c = s.get_char(i);
        assert(c == ds[i - start]);
        let d = match char_to_digit(c) {
            Some(d) => d,
            None => {
                return None;
            },
        };
        assert(d <= 9);
        let overflow = if value > limit / 10 {
            true
        } else if value == limit / 10 {
            d > limit % 10
        } else {
            false
        };
        proof {
            let t = ds.take(i - start + 1);
            assert(t.drop_last() =~= ds.take(i - start));
            assert(t.last() == ds[i - start]);
            assert(digits_value(t) == value * 10 + d);
            if overflow {
                assert(value * 10 + d > limit) by (nonlinear_arith)
                    requires
                        d <= 9,
                        value > limit / 10 || (value == limit / 10 && d > limit % 10),
                        limit == (limit / 10) * 10 + limit % 10,
                        limit % 10 <= 9,
                ;
                lemma_digits_value_take_grows(ds, i - start + 1);
            } else {
                assert(value * 10 + d <= limit) by (nonlinear_arith)
                    requires
                        d <= 9,
                        value <= limit / 10,
                        value == limit / 10 ==> d <= limit % 10,
                        limit == (limit / 10) * 10 + limit % 10,
                ;
            }
        }
        if overflow {
            return None;
        }
        value = value * 10 + d;
        i = i + 1;
    }
    proof {
        assert(ds.take(n - start) =~= ds);
    }
    Some(value)
}

/// Reads an unsigned decimal string, exactly as `spec_parse_u64` says.
pub fn parse_u64(s: &str) -> (r: Option<u64>)
    ensures
        r == spec_parse_u64(s@),
{
    let r = parse_digits_value(s, 0, u64::MAX);
    proof {
        assert(s@.subrange(0, s@.len() as int) =~= s@);
    }
    r
}

/// Reads a signed decimal string, exactly as `spec_parse_i64` says.
pub fn parse_i64(s: &str) -> (r: Option<i64>)
    ensures
        r == spec_parse_i64(s@),
{
    let n = s.unicode_len();
    if n > 0 && s.get_char(0) == '-' {
        match parse_digits_value(s, 1, 0x8000000000000000u64) {
            Some(v) => {
                if v == 0x8000000000000000u64 {
                    Some(i64::MIN)
                } else {
                    Some(-(v as i64))
                }
            },
            None => None,
        }
    } else {
        match parse_digits_value(s, 0, 0x7fffffffffffffffu64) {
            Some(v) => {
                proof {
                    assert(s@.subrange(0, s@.len() as int) =~= s@);
                }
                Some(v as i64)
            },
            None => {
                proof {
                    assert(s@.subrange(0, s@.len() as int) =~= s@);
                }
                None
            },
        }
    }
}

/// Rendering a signed number and reading it back gives the number again.
pub proof fn lemma_render_parse_i64(v: i64)
    ensures
        spec_parse_i64(spec_render_i64(v as int)) == Some(v),
{
    let s = spec_render_i64(v as int);
    if v >= 0 {
        lemma_spec_digits_value(v as nat);
        assert(is_digit_char(s[0]));
        assert(s[0] != '-');
    } else {
        let m = (-(v as int)) as nat;
        lemma_spec_digits_value(m);
        assert(s[0] == '-');
        assert(s.subrange(1, s.len() as int) =~= spec_digits(m));
    }
}

/// Whether `p` occurs in `s` starting at position `i`.
pub open spec fn matches_at(s: Seq<char>, p: Seq<char>, i: int) -> bool {
    0 <= i && i + p.len() <= s.len() && s.subrange(i, i + p.len()) == p
}

pub open spec fn spec_starts_with(s: Seq<char>, p: Seq<char>) -> bool {
    matches_at(s, p, 0)
}

pub open spec fn spec_contains(s: Seq<char>, p: Seq<char>) -> bool {
    exists|i: int| matches_at(s, p, i)
}

fn chars_match_at(s: &str, p: &str, pos: usize) -> (r: bool)
    requires
        pos + p@.len() <= s@.len(),
    ensures
        r == matches_at(s@, p@, pos as int),
{
    let m = p.unicode_len();
    let n = s.unicode_len();
    let mut j: usize = 0;
    while j < m
        invariant
            0 <= j <= m,
            m == p@.len(),
            n == s@.len(),
            pos + m <= n,
            forall|k: int| 0 <= k < j ==> s@[pos + k] == p@[k],
        decreases m - j,
    {
        if s.get_char(pos + j) != p.get_char(j) {
            assert(s@.subrange(pos as int, pos as int + m) != p@) by {
                assert(s@.subrange(pos as int, pos as int + m)[j as int] != p@[j as int]);
            }
            return false;
        }
        j = j + 1;
    }
    proof {
        assert(s@.subrange(pos as int, pos as int + m) =~= p@);
    }
    true
}

/// Whether two strings hold the same characters.
pub fn str_eq(a: &str, b: &str) -> (r: bool)
    ensures
        r == (a@ == b@),
{
    let n = a.unicode_len();
    let m = b.unicode_len();
    if n != m {
        return false;
    }
    let r = chars_match_at(a, b, 0);
    proof {
        assert(a@.subrange(0, m as int) =~= a@);
    }
    r
}

/// Whether `s` begins with `p`.
pub fn starts_with(s: &str, p: &str) -> (r: bool)
    ensures
        r == spec_starts_with(s@, p@),
{
    if p.unicode_len() > s.unicode_len() {
        return false;
    }
    chars_match_at(s, p, 0)
}

/// Whether `p` occurs anywhere in `s`.
pub fn contains_str(s: &str, p: &str) -> (r: bool)
    ensures
        r == spec_contains(s@, p@),
{
    let n = s.unicode_len();
    let m = p.unicode_len();
    if m > n {
        assert(!spec_contains(s@, p@)) by {
            assert(forall|i: int| !matches_at(s@, p@, i));
        }
        return false;
    }
    if m == 0 {
        assert(s@.subrange(0, 0) =~= p@);
        assert(matches_at(s@, p@, 0));
        return true;
    }
    let mut i: usize = 0;
    while i <= n - m
        invariant
            0 <= i <= n - m + 1,
            1 <= m <= n,
            n == s@.len(),
            m == p@.len(),
            forall|k: int| 0 <= k < i ==> !matches_at(s@, p@, k),
        decreases n - i,
    {
        if chars_match_at(s, p, i) {
            return true;
        }
        i = i + 1;
    }
    assert(forall|k: int| !matches_at(s@, p@, k));
    false
}

} // verus!
