//! Global unlock percentages as fixed-point values.
//!
//! The remote API reports an achievement's global unlock percentage either
//! as a JSON number or as a numeric string. Both arrive here as numeral
//! text, and are normalized at this boundary into thousandths of a percent,
//! so that the rest of the pipeline compares and stores plain integers.

use vstd::prelude::*;

use crate::text::all_digits;
use crate::text::digits_value;
use crate::text::parse_digits_u64;

verus! {

/// A global unlock percentage, held in thousandths of a percent:
/// "5.3" is 5300, "0.1" is 100.
#[derive(Debug, Clone, Copy, PartialEq, Eq, Structural)]
pub struct Percent {
    pub milli: u64,
}

/// Ten to the `k`.
pub open spec fn pow10(k: nat) -> nat
    decreases k,
{
    if k == 0 {
        1
    } else {
        10 * pow10((k - 1) as nat)
    }
}

/// The first index at or after `from` where `c` occurs in `s`.
pub open spec fn spec_find_char(s: Seq<char>, c: char, from: int) -> Option<int>
    decreases s.len() - from,
{
    if from < 0 || from >= s.len() {
        None
    } else if s[from] == c {
        Some(from)
    } else {
        spec_find_char(s, c, from + 1)
    }
}

/// A found character lies at or after `from`, within the sequence.
pub proof fn lemma_find_char_bounds(s: Seq<char>, c: char, from: int)
    ensures
        spec_find_char(s, c, from) matches Some(i) ==> from <= i < s.len() && s[i] == c,
    decreases s.len() - from,
{
    if 0 <= from < s.len() {
        if s[from] == c {
        } else {
            lemma_find_char_bounds(s, c, from + 1);
        }
    }
}

/// The contribution of the fraction digits, in thousandths: only the first
/// three fraction digits matter, shorter fractions are scaled up.
pub open spec fn spec_frac_milli(frac: Seq<char>) -> nat {
    if frac.len() >= 3 {
        digits_value(frac.take(3))
    } else {
        digits_value(frac) * pow10((3 - frac.len()) as nat)
    }
}

/// The numeral `s` read as thousandths of a percent: digits, optionally
/// followed by a dot and more digits; absent when malformed or out of range.
pub open spec fn spec_percent_milli(s: Seq<char>) -> Option<u64> {
    match spec_find_char(s, '.', 0) {
        None => if s.len() > 0 && all_digits(s) && digits_value(s) * 1000 <= u64::MAX {
            Some((digits_value(s) * 1000) as u64)
        } else {
            None
        },
        Some(i) => {
            let whole = s.take(i);
            let frac = s.skip(i + 1);
            if whole.len() > 0 && frac.len() > 0 && all_digits(whole) && all_digits(frac)
                && digits_value(whole) * 1000 + spec_frac_milli(frac) <= u64::MAX {
                Some((digits_value(whole) * 1000 + spec_frac_milli(frac)) as u64)
            } else {
                None
            }
        },
    }
}

/// The percent value the numeral `s` denotes, if it is well formed.
pub open spec fn spec_parse_percent(s: Seq<char>) -> Option<Percent> {
    match spec_percent_milli(s) {
        Some(m) => Some(Percent { milli: m }),
        None => None,
    }
}

/// The first index where `c` occurs in `s`.
fn find_char(s: &str, c: char, len: usize) -> (r: Option<usize>)
    requires
        len == s@.len(),
    ensures
        r matches Some(i) ==> spec_find_char(s@, c, 0) == Some(i as int) && i < len && s@[i as int]
            == c,
        r is None ==> spec_find_char(s@, c, 0) is None,
{
    let mut i: usize = 0;
    while i < len
        invariant
            i <= len,
            len == s@.len(),
            spec_find_char(s@, c, 0) == spec_find_char(s@, c, i as int),
        decreases len - i,
    {
        if s.get_char(i) == c {
            return Some(i);
        }
        i += 1;
    }
    None
}

/// Every character of `s[from..to]` is a digit.
fn check_all_digits(s: &str, from: usize, to: usize, len: usize) -> (r: bool)
    requires
        len == s@.len(),
        from <= to <= len,
    ensures
        r == all_digits(s@.subrange(from as int, to as int)),
{
    let ghost t = s@.subrange(from as int, to as int);
    let mut j: usize = from;
    while j < to
        invariant
            from <= j <= to <= len,
            len == s@.len(),
            t == s@.subrange(from as int, to as int),
            forall|k: int| 0 <= k < j - from ==> crate::text::is_digit(#[trigger] t[k]),
        decreases to - j,
    {
        let c = s.get_char(j);
        proof {
            assert(t[j - from] == s@[j as int]);
        }
        if c < '0' || c > '9' {
            proof {
                assert(!crate::text::is_digit(t[j - from]));
            }
            return false;
        }
        j += 1;
    }
    true
}

/// Read a percent numeral into thousandths of a percent.
///
/// Accepts digits with an optional fraction ("87", "5.3",
/// "5.30000019073486328125"); anything else, and any value whose
/// thousandths do not fit a `u64`, is absent.
pub fn parse_percent(s: &str) -> (r: Option<Percent>)
    ensures
        r == spec_parse_percent(s@),
{
    let len = s.unicode_len();
    match find_char(s, '.', len) {
        None => {
            proof {
                assert(s@.subrange(0, len as int) =~= s@);
            }
            match parse_digits_u64(s, 0, len, len) {
                Some(w) => match w.checked_mul(1000) {
                    Some(m) => Some(Percent { milli: m }),
                    None => {
                        proof {
                            assert(digits_value(s@) * 1000 > u64::MAX);
                        }
                        None
                    },
                },
                None => None,
            }
        },
        Some(i) => {
            let ghost whole = s@.take(i as int);
            let ghost frac = s@.skip(i + 1);
            proof {
                assert(s@.subrange(0, i as int) =~= whole);
                assert(s@.subrange(i + 1, len as int) =~= frac);
            }
            if i + 1 >= len {
                // empty fraction
                return None;
            }
            if !check_all_digits(s, i + 1, len, len) {
                return None;
            }
            let frac_len = len - (i + 1);
            let scale: u64 = if frac_len >= 3 {
                1
            } else if frac_len == 2 {
                10
            } else {
                100
            };
            let frac_end = if frac_len >= 3 {
                i + 4
            } else {
                len
            };
            let ghost frac_used = s@.subrange(i + 1, frac_end as int);
            proof {
                if frac.len() >= 3 {
                    assert(frac_used =~= frac.take(3));
                } else {
                    assert(frac_used =~= frac);
                }
                lemma_small_digits_fit(frac_used);
                assert(pow10(0) == 1);
                assert(pow10(1) == 10);
                assert(pow10(2) == 100);
            }
            let fm: u64 = match parse_digits_u64(s, i + 1, frac_end, len) {
                Some(f) => f * scale,
                None => {
                    return None;  // unreachable: at most three digits always fit
                },
            };
            proof {
                assert(fm == spec_frac_milli(frac));
            }
            match parse_digits_u64(s, 0, i, len) {
                Some(w) => {
                    match w.checked_mul(1000) {
                        Some(m) => match m.checked_add(fm) {
                            Some(v) => Some(Percent { milli: v }),
                            None => None,
                        },
                        None => {
                            proof {
                                assert(digits_value(whole) * 1000 + spec_frac_milli(frac)
                                    > u64::MAX);
                            }
                            None
                        },
                    }
                },
                None => {
                    proof {
                        if whole.len() > 0 && all_digits(whole) {
                            lemma_value_overflow(whole, spec_frac_milli(frac));
                        }
                    }
                    None
                },
            }
        },
    }
}

/// A numeral of at most three digits is below one thousand.
proof fn lemma_small_digits_fit(t: Seq<char>)
    requires
        all_digits(t),
        t.len() <= 3,
    ensures
        digits_value(t) < pow10(t.len() as nat),
        digits_value(t) < 1000,
    decreases t.len(),
{
    if t.len() > 0 {
        lemma_small_digits_fit(t.drop_last());
        assert(crate::text::is_digit(t.last()));
        assert(crate::text::digit_val(t.last()) <= 9);
    }
    assert(pow10(0) == 1);
    assert(pow10(1) == 10);
    assert(pow10(2) == 100);
    assert(pow10(3) == 1000);
}

/// A whole part too large for a `u64` stays too large once scaled to
/// thousandths.
proof fn lemma_value_overflow(whole: Seq<char>, fm: nat)
    requires
        digits_value(whole) > u64::MAX,
    ensures
        digits_value(whole) * 1000 + fm > u64::MAX,
{
    assert(digits_value(whole) * 1000 >= digits_value(whole)) by (nonlinear_arith);
}

} // verus!
