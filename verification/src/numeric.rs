//! Verified parsing of the numeric strings returned by the query engine:
//! non-negative integers for counts and memory sizes, and fixed-point
//! decimals for durations and percentiles.

use vstd::prelude::*;
use vstd::string::StrSliceExecFns;

verus! {

/// Whether `c` is an ASCII decimal digit.
pub open spec fn is_digit_char(c: char) -> bool {
    '0' <= c && c <= '9'
}

/// The numeric value of one digit character.
pub open spec fn digit_val(c: char) -> nat {
    (c as int - '0' as int) as nat
}

/// Whether every character of `s` is a decimal digit.
pub open spec fn all_digits(s: Seq<char>) -> bool {
    forall|i: int| 0 <= i < s.len() ==> is_digit_char(s[i])
}

/// The value of a digit string read in base ten.
pub open spec fn digits_val(s: Seq<char>) -> nat
    decreases s.len(),
{
    if s.len() == 0 {
        0
    } else {
        digits_val(s.drop_last()) * 10 + digit_val(s.last())
    }
}

/// Whether `s` is a digit string denoting a value of at most `max`.
pub open spec fn valid_uint(s: Seq<char>, max: nat) -> bool {
    s.len() > 0 && all_digits(s) && digits_val(s) <= max
}

/// A digit string's value only grows as more digits are appended: the value
/// of a prefix never exceeds the value of the whole.
proof fn lemma_digits_val_prefix(s: Seq<char>, i: int)
    requires
        0 <= i <= s.len(),
    ensures
        digits_val(s.take(i)) <= digits_val(s),
    decreases s.len() - i,
{
    if i == s.len() {
        assert(s.take(i) =~= s);
    } else {
        lemma_digits_val_prefix(s, i + 1);
        assert(s.take(i + 1).drop_last() =~= s.take(i));
        assert(digits_val(s.take(i + 1)) == digits_val(s.take(i)) * 10 + digit_val(
            s.take(i + 1).last(),
        ));
    }
}

/// Parse a digit string as a value of at most `max`; `None` exactly when the
/// string is empty, holds a non-digit, or denotes a larger value.
pub fn parse_uint(s: &str, max: u64) -> (r: Option<u64>)
    ensures
        match r {
            Some(v) => valid_uint(s@, max as nat) && v == digits_val(s@) && v <= max,
            None => !valid_uint(s@, max as nat),
        },
{
    let n = s.unicode_len();
    if n == 0 {
        return None;
    }
    let mut val: u64 = 0;
    let mut i: usize = 0;
    while i < n
        invariant
            0 <= i <= n,
            n == s@.len(),
            forall|j: int| 0 <= j < i ==> is_digit_char(s@[j]),
            val == digits_val(s@.take(i as int)),
            val <= max,
        decreases n - i,
    {
        let c = s.get_char(i);
        let cv = c as u32;
        if cv < 48 || cv > 57 {
            assert(!is_digit_char(s@[i as int]));
            return None;
        }
        let d = (cv - 48) as u64;
        proof {
            assert(is_digit_char(s@[i as int]));
            assert(d == digit_val(s@[i as int]));
            assert(s@.take(i + 1).drop_last() =~= s@.take(i as int));
            assert(digits_val(s@.take(i + 1)) == digits_val(s@.take(i as int)) * 10 + digit_val(
                s@[i as int],
            ));
        }
        let next = match val.checked_mul(10) {
            Some(m) => m.checked_add(d),
            None => None,
        };
        match next {
            Some(v) if v <= max => {
                val = v;
            },
            _ => {
                proof {
                    assert(digits_val(s@.take(i + 1)) > max);
                    lemma_digits_val_prefix(s@, i + 1);
                }
                return None;
            },
        }
        i = i + 1;
    }
    proof {
        assert(s@.take(n as int) =~= s@);
    }
    Some(val)
}

/// Parse a digit string as a 32-bit count.
pub fn parse_u32(s: &str) -> (r: Option<u32>)
    ensures
        match r {
            Some(v) => valid_uint(s@, u32::MAX as nat) && v == digits_val(s@),
            None => !valid_uint(s@, u32::MAX as nat),
        },
{
    match parse_uint(s, 0xffff_ffff) {
        Some(v) => Some(v as u32),
        None => None,
    }
}

/// A non-negative fixed-point decimal: `units` whole units plus `frac`
/// units of `10^-scale`. The value read from "120.5" is held as
/// `units == 120`, `frac == 5`, `scale == 1`; a plain digit string has
/// `frac == 0` and `scale == 0`.
#[derive(Clone, Copy, Debug, PartialEq, Eq, Structural)]
pub struct Decimal {
    pub units: u64,
    pub frac: u64,
    pub scale: u8,
}

impl Decimal {
    /// The zero value, the default of every duration metric.
    pub open spec fn spec_zero() -> Decimal {
        Decimal { units: 0, frac: 0, scale: 0 }
    }

    /// Executable zero value.
    pub fn zero() -> (r: Decimal)
        ensures
            r == Decimal::spec_zero(),
    {
        Decimal { units: 0, frac: 0, scale: 0 }
    }
}

impl Default for Decimal {
    /// The default decimal is zero.
    fn default() -> (r: Decimal)
        ensures
            r == Decimal::spec_zero(),
    {
        Decimal { units: 0, frac: 0, scale: 0 }
    }
}

/// Index of the first `.` in `s`, or `s.len()` if there is none.
pub open spec fn first_dot(s: Seq<char>) -> int
    decreases s.len(),
{
    if s.len() == 0 {
        0
    } else if s.first() == '.' {
        0
    } else {
        1 + first_dot(s.drop_first())
    }
}

/// `first_dot` is characterized by: no dot before it, and a dot (or the end
/// of the string) at it.
proof fn lemma_first_dot_charac(s: Seq<char>, i: int)
    requires
        0 <= i <= s.len(),
        forall|j: int| 0 <= j < i ==> s[j] != '.',
        i == s.len() || s[i] == '.',
    ensures
        first_dot(s) == i,
    decreases i,
{
    if s.len() == 0 {
    } else if i == 0 {
    } else {
        lemma_first_dot_charac(s.drop_first(), i - 1);
    }
}

/// The largest fraction width accepted; any 19-digit string fits in `u64`.
pub open spec fn max_scale() -> nat {
    19
}

/// Ten to the `e`.
pub open spec fn pow10(e: nat) -> nat
    decreases e,
{
    if e == 0 {
        1
    } else {
        10 * pow10((e - 1) as nat)
    }
}

/// A digit string's value is below ten to its length.
proof fn lemma_digits_val_bound(s: Seq<char>)
    requires
        all_digits(s),
    ensures
        digits_val(s) < pow10(s.len()),
    decreases s.len(),
{
    if s.len() > 0 {
        lemma_digits_val_bound(s.drop_last());
        assert(digit_val(s.last()) <= 9);
    }
}

/// Raising ten to a larger power never shrinks it.
proof fn lemma_pow10_increases(a: nat, b: nat)
    requires
        a <= b,
    ensures
        pow10(a) <= pow10(b),
    decreases b,
{
    if a < b {
        lemma_pow10_increases(a, (b - 1) as nat);
        assert(pow10(b) == 10 * pow10((b - 1) as nat));
    }
}

/// Ten to the nineteen, written out.
proof fn lemma_pow10_19()
    ensures
        pow10(19) == 10_000_000_000_000_000_000,
{
    reveal_with_fuel(pow10, 21);
    assert(pow10(19) == 10_000_000_000_000_000_000);
}

/// Whether `s` parses as a decimal: digits, optionally followed by a dot
/// and one to nineteen fraction digits, the whole part fitting in `u64`.
pub open spec fn spec_parse_decimal(s: Seq<char>) -> Option<Decimal> {
    let k = first_dot(s);
    if k == s.len() {
        if valid_uint(s, u64::MAX as nat) {
            Some(Decimal { units: digits_val(s) as u64, frac: 0, scale: 0 })
        } else {
            None
        }
    } else {
        let ip = s.take(k);
        let fp = s.skip(k + 1);
        if valid_uint(ip, u64::MAX as nat) && fp.len() > 0 && fp.len() <= max_scale()
            && all_digits(fp) {
            Some(
                Decimal {
                    units: digits_val(ip) as u64,
                    frac: digits_val(fp) as u64,
                    scale: fp.len() as u8,
                },
            )
        } else {
            None
        }
    }
}

/// Parse a decimal duration or percentile value; see [`spec_parse_decimal`].
pub fn parse_decimal(s: &str) -> (r: Option<Decimal>)
    ensures
        r == spec_parse_decimal(s@),
{
    let n = s.unicode_len();
    let mut k: usize = 0;
    while k < n && s.get_char(k) != '.'
        invariant
            0 <= k <= n,
            n == s@.len(),
            forall|j: int| 0 <= j < k ==> s@[j] != '.',
        decreases n - k,
    {
        k = k + 1;
    }
    proof {
        lemma_first_dot_charac(s@, k as int);
    }
    if k == n {
        match parse_uint(s, u64::MAX) {
            Some(v) => Some(Decimal { units: v, frac: 0, scale: 0 }),
            None => None,
        }
    } else {
        let ip = s.substring_char(0, k);
        let fp = s.substring_char(k + 1, n);
        proof {
            assert(ip@ =~= s@.take(k as int));
            assert(fp@ =~= s@.skip(k + 1));
        }
        let units = match parse_uint(ip, u64::MAX) {
            Some(v) => v,
            None => {
                return None;
            },
        };
        let flen = n - (k + 1);
        if flen == 0 || flen > 19 {
            return None;
        }
        proof {
            if all_digits(fp@) {
                lemma_digits_val_bound(fp@);
                lemma_pow10_increases(fp@.len(), 19);
                lemma_pow10_19();
            }
        }
        match parse_uint(fp, u64::MAX) {
            Some(f) => Some(Decimal { units, frac: f, scale: flen as u8 }),
            None => None,
        }
    }
}

} // verus!
