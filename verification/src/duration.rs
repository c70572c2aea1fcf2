//! Episode durations as a whole number of milliseconds, and parsing of
//! decimal duration strings such as `"125.5"`.
//!
//! Feeds carry durations as free-form strings. The resolver accepts an
//! unsigned decimal: one or more digits, optionally followed by a dot and
//! further digits. Fractional digits beyond the third do not change the
//! millisecond count. Any other shape, and any value whose millisecond
//! count would not fit in a `u64`, fails to parse; the resolver then
//! treats the field as absent.

use vstd::prelude::*;

verus! {

/// Largest whole number of seconds a parsed duration may carry: one more
/// second and the millisecond count could exceed `u64::MAX`.
pub const MAX_WHOLE_SECONDS: u64 = 18_446_744_073_709_550;

/// A non-negative duration, held as a whole number of milliseconds.
#[derive(Clone, Copy, Debug, PartialEq, Eq, Structural)]
pub struct Duration {
    pub millis: u64,
}

impl Duration {
    /// Builds a duration from a millisecond count.
    pub fn from_millis(millis: u64) -> (r: Duration)
        ensures
            r.millis == millis,
    {
        Duration { millis }
    }

    /// The duration as a whole number of milliseconds.
    pub fn as_millis(&self) -> (r: u64)
        ensures
            r == self.millis,
    {
        self.millis
    }

    /// Parses a decimal duration string; `None` when the string is not an
    /// unsigned decimal or the value is too large to represent.
    pub fn parse(s: &str) -> (r: Option<Duration>)
        ensures
            match r {
                Some(d) => spec_parse_millis(s@) == Some(d.millis),
                None => spec_parse_millis(s@) is None,
            },
    {
        let n = s.unicode_len();
        let dot = find_dot(s, n);
        proof {
            s@.index_of_first_ensures('.');
        }
        if dot == n {
            if n == 0 {
                return None;
            }
            proof {
                assert(s@.subrange(0, n as int) =~= s@);
            }
            match parse_digits(s, 0, n) {
                Some(v) => Some(Duration { millis: v * 1000 }),
                None => None,
            }
        } else {
            assert(s@.index_of_first('.') == Some(dot as int));
            if dot == 0 {
                return None;
            }
            match parse_digits(s, 0, dot) {
                Some(v) => {
                    match parse_frac(s, dot + 1, n) {
                        Some(fm) => Some(Duration { millis: v * 1000 + fm }),
                        None => None,
                    }
                },
                None => None,
            }
        }
    }
}

/// True when `c` is an ASCII decimal digit.
pub open spec fn is_digit(c: char) -> bool {
    ('0' as u32) <= (c as u32) && (c as u32) <= ('9' as u32)
}

/// Numeric value of a digit character.
pub open spec fn digit_val(c: char) -> int {
    (c as u32) - ('0' as u32)
}

/// True when every character of `s` is an ASCII decimal digit.
pub open spec fn all_digits(s: Seq<char>) -> bool {
    forall|i: int| 0 <= i < s.len() ==> is_digit(#[trigger] s[i])
}

/// Value of a digit string read in base ten; the empty string reads as zero.
pub open spec fn digits_val(s: Seq<char>) -> int
    decreases s.len(),
{
    if s.len() == 0 {
        0
    } else {
        digits_val(s.drop_last()) * 10 + digit_val(s.last())
    }
}

/// Milliseconds contributed by the fractional digit string `s`: the first
/// three digits weighted by place value; further digits change nothing.
pub open spec fn frac_millis(s: Seq<char>) -> int {
    if s.len() == 0 {
        0
    } else if s.len() == 1 {
        digit_val(s[0]) * 100
    } else if s.len() == 2 {
        digit_val(s[0]) * 100 + digit_val(s[1]) * 10
    } else {
        digit_val(s[0]) * 100 + digit_val(s[1]) * 10 + digit_val(s[2])
    }
}

/// What parsing a duration string yields, in milliseconds: splits at the
/// first dot, demands a non-empty all-digit integer part, an all-digit
/// fractional part, and an integer part no larger than
/// `MAX_WHOLE_SECONDS`; anything else is `None`.
pub open spec fn spec_parse_millis(s: Seq<char>) -> Option<u64> {
    match s.index_of_first('.') {
        None => if s.len() > 0 && all_digits(s) && digits_val(s) <= MAX_WHOLE_SECONDS {
            Some((digits_val(s) * 1000) as u64)
        } else {
            None
        },
        Some(i) => {
            let ip = s.subrange(0, i);
            let fp = s.subrange(i + 1, s.len() as int);
            if ip.len() > 0 && all_digits(ip) && all_digits(fp) && digits_val(ip)
                <= MAX_WHOLE_SECONDS {
                Some((digits_val(ip) * 1000 + frac_millis(fp)) as u64)
            } else {
                None
            }
        },
    }
}

/// A digit string is worth no less than any of its prefixes.
proof fn lemma_digits_val_prefix(s: Seq<char>, k: int)
    requires
        0 <= k <= s.len(),
        all_digits(s),
    ensures
        digits_val(s) >= digits_val(s.take(k)),
    decreases s.len() - k,
{
    lemma_digits_val_nonneg(s.take(k));
    if k < s.len() {
        assert(s.take(k + 1).drop_last() =~= s.take(k));
        assert(s.take(k + 1).last() == s[k]);
        lemma_digits_val_prefix(s, k + 1);
    } else {
        assert(s.take(k) =~= s);
    }
}

/// A digit string never reads as a negative value.
proof fn lemma_digits_val_nonneg(s: Seq<char>)
    ensures
        all_digits(s) ==> digits_val(s) >= 0,
    decreases s.len(),
{
    if s.len() > 0 {
        assert(all_digits(s) ==> all_digits(s.drop_last())) by {
            assert(forall|i: int|
                0 <= i < s.len() - 1 ==> s.drop_last()[i] == #[trigger] s[i]);
        }
        lemma_digits_val_nonneg(s.drop_last());
    }
}

/// Index of the first dot in `s`, or `n` when there is none.
fn find_dot(s: &str, n: usize) -> (r: usize)
    requires
        n == s@.len(),
    ensures
        r <= n,
        forall|j: int| 0 <= j < r ==> s@[j] != '.',
        r < n ==> s@[r as int] == '.',
{
    let mut i: usize = 0;
    while i < n
        invariant
            i <= n,
            n == s@.len(),
            forall|j: int| 0 <= j < i ==> s@[j] != '.',
        decreases n - i,
    {
        if s.get_char(i) == '.' {
            return i;
        }
        i += 1;
    }
    n
}

/// Reads the digit range `[from, to)` of `s` in base ten, refusing a
/// non-digit and any value above `MAX_WHOLE_SECONDS`.
fn parse_digits(s: &str, from: usize, to: usize) -> (r: Option<u64>)
    requires
        from <= to <= s@.len(),
    ensures
        ({
            let part = s@.subrange(from as int, to as int);
            match r {
                Some(v) => all_digits(part) && v == digits_val(part) && v <= MAX_WHOLE_SECONDS,
                None => !(all_digits(part) && digits_val(part) <= MAX_WHOLE_SECONDS),
            }
        }),
{
    let ghost part = s@.subrange(from as int, to as int);
    let mut acc: u64 = 0;
    let mut i: usize = from;
    while i < to
        invariant
            from <= i <= to <= s@.len(),
            part == s@.subrange(from as int, to as int),
            all_digits(s@.subrange(from as int, i as int)),
            acc == digits_val(s@.subrange(from as int, i as int)),
            acc <= MAX_WHOLE_SECONDS,
        decreases to - i,
    {
        let c = s.get_char(i);
        let v = c as u32;
        if v < '0' as u32 || v > '9' as u32 {
            proof {
                assert(part[i - from] == s@[i as int]);
            }
            return None;
        }
        let d = (v - '0' as u32) as u64;
        let next = acc * 10 + d;
        proof {
            let prev = s@.subrange(from as int, i as int);
            let cur = s@.subrange(from as int, i + 1);
            assert(cur.drop_last() =~= prev);
            assert(cur.last() == s@[i as int]);
            assert(forall|j: int| 0 <= j < cur.len() - 1 ==> #[trigger] cur[j] == prev[j]);
            assert(all_digits(cur));
        }
        if next > MAX_WHOLE_SECONDS {
            proof {
                let done = s@.subrange(from as int, i + 1);
                if all_digits(part) {
                    assert(forall|j: int| 0 <= j < done.len() ==> is_digit(#[trigger] done[j]))
                        by {
                        assert(forall|j: int|
                            0 <= j < done.len() ==> done[j] == #[trigger] part[j]);
                    }
                    assert(part.take(i + 1 - from) =~= done);
                    lemma_digits_val_prefix(part, i + 1 - from);
                }
            }
            return None;
        }
        acc = next;
        i += 1;
    }
    proof {
        assert(s@.subrange(from as int, i as int) =~= part);
    }
    Some(acc)
}

/// Reads the fractional digit range `[from, to)` of `s`, refusing a
/// non-digit; yields the millisecond contribution of the first three
/// digits.
fn parse_frac(s: &str, from: usize, to: usize) -> (r: Option<u64>)
    requires
        from <= to <= s@.len(),
    ensures
        ({
            let part = s@.subrange(from as int, to as int);
            match r {
                Some(fm) => all_digits(part) && fm == frac_millis(part) && fm <= 999,
                None => !all_digits(part),
            }
        }),
{
    let ghost part = s@.subrange(from as int, to as int);
    let mut fm: u64 = 0;
    let mut i: usize = from;
    while i < to
        invariant
            from <= i <= to <= s@.len(),
            part == s@.subrange(from as int, to as int),
            all_digits(s@.subrange(from as int, i as int)),
            fm == frac_millis(s@.subrange(from as int, i as int)),
            fm <= 999,
        decreases to - i,
    {
        let c = s.get_char(i);
        let v = c as u32;
        if v < '0' as u32 || v > '9' as u32 {
            proof {
                assert(part[i - from] == s@[i as int]);
            }
            return None;
        }
        let d = (v - '0' as u32) as u64;
        proof {
            let prev = s@.subrange(from as int, i as int);
            let cur = s@.subrange(from as int, i + 1);
            assert(forall|j: int| 0 <= j < prev.len() ==> prev[j] == #[trigger] cur[j]);
            assert(cur[i - from] == s@[i as int]);
        }
        if i - from == 0 {
            fm = d * 100;
        } else if i - from == 1 {
            fm = fm + d * 10;
        } else if i - from == 2 {
            fm = fm + d;
        }
        i += 1;
    }
    proof {
        assert(s@.subrange(from as int, i as int) =~= part);
    }
    Some(fm)
}

} // verus!
