//! Character-level text helpers: substring search, decimal numerals,
//! lexicographic comparison, and the display-name fallback for games.

use vstd::prelude::*;

verus! {

// ---------------------------------------------------------------------------
// Substring search
// ---------------------------------------------------------------------------

/// `needle` occurs in `hay` starting at index `i`.
pub open spec fn seq_matches_at(hay: Seq<char>, needle: Seq<char>, i: int) -> bool {
    0 <= i && i + needle.len() <= hay.len() && hay.subrange(i, i + needle.len()) == needle
}

/// `needle` occurs somewhere in `hay`.
pub open spec fn seq_contains(hay: Seq<char>, needle: Seq<char>) -> bool {
    exists|i: int| seq_matches_at(hay, needle, i)
}

/// Whether `needle` occurs in `hay` starting at index `i`.
pub(crate) fn matches_at(hay: &str, needle: &str, i: usize, hay_len: usize, needle_len: usize) -> (r: bool)
    requires
        hay_len == hay@.len(),
        needle_len == needle@.len(),
        i + needle_len <= hay_len,
    ensures
        r == seq_matches_at(hay@, needle@, i as int),
{
    let mut j: usize = 0;
    while j < needle_len
        invariant
            j <= needle_len,
            hay_len == hay@.len(),
            needle_len == needle@.len(),
            i + needle_len <= hay_len,
            forall|k: int| 0 <= k < j ==> hay@[i + k] == needle@[k],
        decreases needle_len - j,
    {
        if hay.get_char(i + j) != needle.get_char(j) {
            proof {
                assert(hay@.subrange(i as int, i + needle@.len())[j as int] != needle@[j as int]);
            }
            return false;
        }
        j += 1;
    }
    proof {
        assert(hay@.subrange(i as int, i + needle@.len()) =~= needle@);
    }
    true
}

/// Whether `needle` occurs anywhere in `hay`.
pub fn contains_sub(hay: &str, needle: &str) -> (r: bool)
    ensures
        r == seq_contains(hay@, needle@),
{
    let hay_len = hay.unicode_len();
    let needle_len = needle.unicode_len();
    if needle_len == 0 {
        proof {
            assert(hay@.subrange(0, 0) =~= needle@);
            assert(seq_matches_at(hay@, needle@, 0));
        }
        return true;
    }
    if needle_len > hay_len {
        return false;
    }
    let mut i: usize = 0;
    while i <= hay_len - needle_len
        invariant
            1 <= needle_len <= hay_len,
            hay_len == hay@.len(),
            needle_len == needle@.len(),
            i <= hay_len - needle_len + 1,
            forall|k: int| 0 <= k < i ==> !seq_matches_at(hay@, needle@, k),
        decreases hay_len - needle_len - i + 1,
    {
        if matches_at(hay, needle, i, hay_len, needle_len) {
            return true;
        }
        i += 1;
    }
    false
}

/// The first index at or after `from` where `needle` occurs in `s`.
pub open spec fn spec_find_at(s: Seq<char>, needle: Seq<char>, from: int) -> Option<int>
    decreases s.len() + 1 - from,
{
    if from < 0 || from + needle.len() > s.len() {
        None
    } else if s.subrange(from, from + needle.len()) == needle {
        Some(from)
    } else {
        spec_find_at(s, needle, from + 1)
    }
}

/// A found occurrence lies at or after `from` and fits in `s`.
pub proof fn lemma_find_at_bounds(s: Seq<char>, needle: Seq<char>, from: int)
    ensures
        spec_find_at(s, needle, from) matches Some(i) ==> from <= i && i + needle.len() <= s.len(),
    decreases s.len() + 1 - from,
{
    if !(from < 0 || from + needle.len() > s.len()) {
        if s.subrange(from, from + needle.len()) == needle {
        } else {
            lemma_find_at_bounds(s, needle, from + 1);
        }
    }
}

/// Find the first occurrence of `needle` in `hay` at or after `from`.
pub fn find_sub_at(hay: &str, needle: &str, from: usize, hay_len: usize) -> (r: Option<usize>)
    requires
        hay_len == hay@.len(),
        from <= hay_len,
    ensures
        r matches Some(i) ==> spec_find_at(hay@, needle@, from as int) == Some(i as int) && from
            <= i && i + needle@.len() <= hay_len,
        r is None ==> spec_find_at(hay@, needle@, from as int) is None,
{
    let needle_len = needle.unicode_len();
    if needle_len == 0 {
        proof {
            assert(hay@.subrange(from as int, from as int) =~= needle@);
        }
        return Some(from);
    }
    if needle_len > hay_len {
        return None;
    }
    if from > hay_len - needle_len {
        return None;
    }
    let mut i: usize = from;
    while i <= hay_len - needle_len
        invariant
            from <= i,
            1 <= needle_len == needle@.len(),
            hay_len == hay@.len(),
            needle_len <= hay_len,
            i <= hay_len - needle_len + 1,
            spec_find_at(hay@, needle@, from as int) == spec_find_at(hay@, needle@, i as int),
        decreases hay_len - needle_len - i + 1,
    {
        if matches_at(hay, needle, i, hay_len, needle_len) {
            return Some(i);
        }
        i += 1;
    }
    None
}

/// Whether two strings hold the same characters.
pub fn str_eq(a: &str, b: &str) -> (r: bool)
    ensures
        r == (a@ == b@),
{
    let a_len = a.unicode_len();
    let b_len = b.unicode_len();
    if a_len != b_len {
        return false;
    }
    if matches_at(a, b, 0, a_len, b_len) {
        proof {
            assert(a@.subrange(0, a@.len() as int) =~= a@);
        }
        true
    } else {
        proof {
            assert(a@.subrange(0, a@.len() as int) =~= a@);
        }
        false
    }
}

// ---------------------------------------------------------------------------
// Decimal numerals
// ---------------------------------------------------------------------------

/// `c` is an ASCII decimal digit.
pub open spec fn is_digit(c: char) -> bool {
    '0' <= c && c <= '9'
}

/// The value of one digit character.
pub open spec fn digit_val(c: char) -> nat
    recommends
        is_digit(c),
{
    (c as nat - '0' as nat) as nat
}

/// Every character of `s` is a digit.
pub open spec fn all_digits(s: Seq<char>) -> bool {
    forall|i: int| 0 <= i < s.len() ==> is_digit(#[trigger] s[i])
}

/// The value of a digit string, most significant digit first.
pub open spec fn digits_value(s: Seq<char>) -> nat
    decreases s.len(),
{
    if s.len() == 0 {
        0
    } else {
        digits_value(s.drop_last()) * 10 + digit_val(s.last())
    }
}

/// Reading one more digit multiplies the prefix value by ten and adds it.
pub proof fn lemma_digits_value_step(s: Seq<char>, j: int)
    requires
        0 <= j < s.len(),
    ensures
        digits_value(s.take(j + 1)) == digits_value(s.take(j)) * 10 + digit_val(s[j]),
{
    assert(s.take(j + 1).drop_last() =~= s.take(j));
    assert(s.take(j + 1).last() == s[j]);
}

/// A digit string's value only grows as digits are appended.
pub proof fn lemma_digits_value_monotone(s: Seq<char>, j: int)
    requires
        0 <= j <= s.len(),
    ensures
        digits_value(s.take(j)) <= digits_value(s),
    decreases s.len() - j,
{
    if j < s.len() {
        lemma_digits_value_step(s, j);
        lemma_digits_value_monotone(s, j + 1);
    } else {
        assert(s.take(j) =~= s);
    }
}

/// The numeral `s` read as a `u64`: leading `+` accepted, digits only,
/// absent when empty or out of range.
pub open spec fn spec_parse_u64(s: Seq<char>) -> Option<u64> {
    let t = if s.len() > 0 && s[0] == '+' {
        s.drop_first()
    } else {
        s
    };
    if t.len() > 0 && all_digits(t) && digits_value(t) <= u64::MAX {
        Some(digits_value(t) as u64)
    } else {
        None
    }
}

/// The numeral `s` read as a `u32`.
pub open spec fn spec_parse_u32(s: Seq<char>) -> Option<u32> {
    match spec_parse_u64(s) {
        Some(v) => if v <= u32::MAX {
            Some(v as u32)
        } else {
            None
        },
        None => None,
    }
}

/// Read a digit substring `s[from..to]` as a `u64`; absent when empty,
/// when a character is not a digit, or when the value exceeds `u64`.
pub fn parse_digits_u64(s: &str, from: usize, to: usize, len: usize) -> (r: Option<u64>)
    requires
        len == s@.len(),
        from <= to <= len,
    ensures
        ({
            let t = s@.subrange(from as int, to as int);
            r == (if t.len() > 0 && all_digits(t) && digits_value(t) <= u64::MAX {
                Some(digits_value(t) as u64)
            } else {
                None
            })
        }),
{
    let ghost t = s@.subrange(from as int, to as int);
    if from == to {
        return None;
    }
    let mut acc: u64 = 0;
    let mut j: usize = from;
    while j < to
        invariant
            from <= j <= to <= len,
            len == s@.len(),
            from < to,
            t == s@.subrange(from as int, to as int),
            all_digits(t.take(j - from)),
            acc == digits_value(t.take(j - from)),
        decreases to - j,
    {
        let c = s.get_char(j);
        proof {
            assert(t[j - from] == s@[j as int]);
        }
        if c < '0' || c > '9' {
            proof {
                assert(!is_digit(t[j - from]));
            }
            return None;
        }
        let d: u64 = (c as u32 as u64) - 48;
        proof {
            assert(d == digit_val(t[j - from]));
            lemma_digits_value_step(t, j - from);
        }
        match acc.checked_mul(10) {
            Some(m) => {
                match m.checked_add(d) {
                    Some(v) => {
                        acc = v;
                    },
                    None => {
                        proof {
                            lemma_digits_value_monotone(t, j - from + 1);
                        }
                        return None;
                    },
                }
            },
            None => {
                proof {
                    lemma_digits_value_monotone(t, j - from + 1);
                }
                return None;
            },
        }
        j += 1;
    }
    proof {
        assert(t.take(to - from) =~= t);
    }
    Some(acc)
}

/// The decimal digit character for a value below ten.
pub open spec fn decimal_digit(d: nat) -> char
    recommends
        d < 10,
{
    if d == 0 {
        '0'
    } else if d == 1 {
        '1'
    } else if d == 2 {
        '2'
    } else if d == 3 {
        '3'
    } else if d == 4 {
        '4'
    } else if d == 5 {
        '5'
    } else if d == 6 {
        '6'
    } else if d == 7 {
        '7'
    } else if d == 8 {
        '8'
    } else {
        '9'
    }
}

/// The decimal numeral of `n`, without padding or sign.
pub open spec fn spec_decimal(n: nat) -> Seq<char>
    decreases n,
{
    if n < 10 {
        seq![decimal_digit(n)]
    } else {
        spec_decimal(n / 10).push(decimal_digit(n % 10))
    }
}

/// Relies on `u32`'s `Display` implementation, which the standard library
/// documents to write the value in decimal.
#[verifier::external_body]
pub(crate) fn u32_to_string(n: u32) -> (r: String)
    ensures
        r@ == spec_decimal(n as nat),
{
    format!("{}", n)
}

// ---------------------------------------------------------------------------
// Game display names
// ---------------------------------------------------------------------------

/// The display name of a game: its own name when present, otherwise
/// "App " followed by its identifier in decimal.
pub open spec fn spec_display_name(name: Option<String>, appid: u32) -> Seq<char> {
    match name {
        Some(n) => n@,
        None => "App "@ + spec_decimal(appid as nat),
    }
}

/// The fallback display name "App {appid}".
pub fn fallback_app_name(appid: u32) -> (r: String)
    ensures
        r@ == "App "@ + spec_decimal(appid as nat),
{
    let mut s = String::from_str("App ");
    let digits = u32_to_string(appid);
    s.append(digits.as_str());
    s
}

/// Duplicate an optional string, preserving the value.
pub(crate) fn clone_opt_string(o: &Option<String>) -> (r: Option<String>)
    ensures
        r == *o,
{
    match o {
        Some(s) => Some(s.clone()),
        None => None,
    }
}

/// The display name of a game with this optional name and identifier.
pub fn display_name(name: &Option<String>, appid: u32) -> (r: String)
    ensures
        r@ == spec_display_name(*name, appid),
{
    match name {
        Some(n) => n.clone(),
        None => fallback_app_name(appid),
    }
}

// ---------------------------------------------------------------------------
// Lexicographic comparison
// ---------------------------------------------------------------------------

/// Strict lexicographic order on character sequences, by code point.
pub open spec fn seq_char_lt(a: Seq<char>, b: Seq<char>) -> bool
    decreases a.len(),
{
    if b.len() == 0 {
        false
    } else if a.len() == 0 {
        true
    } else if a[0] != b[0] {
        (a[0] as int) < (b[0] as int)
    } else {
        seq_char_lt(a.drop_first(), b.drop_first())
    }
}

/// Nothing is lexicographically before itself.
pub proof fn lemma_seq_char_lt_irrefl(x: Seq<char>)
    ensures
        !seq_char_lt(x, x),
    decreases x.len(),
{
    if x.len() > 0 {
        lemma_seq_char_lt_irrefl(x.drop_first());
    }
}

/// Lexicographic order is transitive.
pub proof fn lemma_seq_char_lt_trans(x: Seq<char>, y: Seq<char>, z: Seq<char>)
    requires
        seq_char_lt(x, y),
        seq_char_lt(y, z),
    ensures
        seq_char_lt(x, z),
    decreases x.len(),
{
    if x.len() > 0 && y.len() > 0 && z.len() > 0 {
        if x[0] == y[0] && y[0] == z[0] {
            lemma_seq_char_lt_trans(x.drop_first(), y.drop_first(), z.drop_first());
        }
    }
}

/// Whether `a` is strictly before `b` in lexicographic order.
pub fn str_lt(a: &str, b: &str) -> (r: bool)
    ensures
        r == seq_char_lt(a@, b@),
{
    let a_len = a.unicode_len();
    let b_len = b.unicode_len();
    let mut i: usize = 0;
    proof {
        assert(a@.skip(0) =~= a@);
        assert(b@.skip(0) =~= b@);
    }
    loop
        invariant
            i <= a_len,
            i <= b_len,
            a_len == a@.len(),
            b_len == b@.len(),
            seq_char_lt(a@, b@) == seq_char_lt(a@.skip(i as int), b@.skip(i as int)),
        decreases a_len - i,
    {
        if i >= b_len {
            proof {
                assert(b@.skip(i as int).len() == 0);
            }
            return false;
        }
        if i >= a_len {
            proof {
                assert(a@.skip(i as int).len() == 0);
                assert(b@.skip(i as int).len() > 0);
            }
            return true;
        }
        let ca = a.get_char(i);
        let cb = b.get_char(i);
        proof {
            assert(a@.skip(i as int)[0] == a@[i as int]);
            assert(b@.skip(i as int)[0] == b@[i as int]);
        }
        if ca != cb {
            return (ca as u32) < (cb as u32);
        }
        proof {
            assert(a@.skip(i as int).drop_first() =~= a@.skip(i + 1));
            assert(b@.skip(i as int).drop_first() =~= b@.skip(i + 1));
        }
        i += 1;
    }
}

// ---------------------------------------------------------------------------
// Case folding
// ---------------------------------------------------------------------------

/// The upper-cased form of a character sequence, as the standard library's
/// `str::to_uppercase` computes it; the result depends on the characters
/// alone.
pub uninterp spec fn upper_of(s: Seq<char>) -> Seq<char>;

/// Relies on `str::to_uppercase`: the result is a function of the input
/// characters alone.
#[verifier::external_body]
pub(crate) fn to_upper(s: &str) -> (r: String)
    ensures
        r@ == upper_of(s@),
{
    s.to_uppercase()
}

} // verus!
