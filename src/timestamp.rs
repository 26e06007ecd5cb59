//! Reading a transcript timestamp, written as a JSON number of seconds since
//! the epoch, as whole milliseconds.

use vstd::prelude::*;
use crate::text::{chars_of, index_of, lemma_index_of};

verus! {

/// A decimal digit.
pub open spec fn is_digit(c: char) -> bool {
    '0' <= c <= '9'
}

/// A non-empty run of decimal digits.
pub open spec fn all_digits(s: Seq<char>) -> bool {
    s.len() > 0 && forall|i: int| 0 <= i < s.len() ==> is_digit(#[trigger] s[i])
}

/// The number that the digits `s` write in base ten.
pub open spec fn digits_value(s: Seq<char>) -> int
    decreases s.len(),
{
    if s.len() == 0 {
        0
    } else {
        digits_value(s.drop_last()) * 10 + (s.last() as int - '0' as int)
    }
}

/// Milliseconds written by the digits after a decimal point: the first three
/// count, later ones are cut off.
pub open spec fn fraction_millis(f: Seq<char>) -> int {
    if f.len() >= 3 {
        digits_value(f.take(3))
    } else if f.len() == 2 {
        digits_value(f) * 10
    } else {
        digits_value(f) * 100
    }
}

/// Milliseconds in an unsigned decimal number of seconds (`123` or `123.456`).
pub open spec fn unsigned_millis(s: Seq<char>) -> Option<int> {
    let d = index_of(s, '.');
    if d == s.len() {
        if all_digits(s) {
            Some(digits_value(s) * 1000)
        } else {
            None
        }
    } else if all_digits(s.take(d)) && all_digits(s.skip(d + 1)) {
        Some(digits_value(s.take(d)) * 1000 + fraction_millis(s.skip(d + 1)))
    } else {
        None
    }
}

/// Milliseconds in a decimal number of seconds, with an optional minus sign,
/// truncated toward zero. `None` for any other text, exponent notation
/// included.
pub open spec fn text_millis(s: Seq<char>) -> Option<int> {
    if s.len() > 0 && s[0] == '-' {
        match unsigned_millis(s.drop_first()) {
            Some(v) => Some(-v),
            None => None,
        }
    } else {
        unsigned_millis(s)
    }
}

/// Whole seconds beyond this bound are all treated alike: every comparison
/// with a clock reading in `u64` milliseconds comes out the same.
pub const SECONDS_CAP: i128 = 1_000_000_000_000_000_000_000_000;

/// `v`, or `SECONDS_CAP` when `v` is larger.
pub open spec fn capped(v: int) -> int {
    if v >= SECONDS_CAP {
        SECONDS_CAP as int
    } else {
        v
    }
}

proof fn lemma_digits_nonneg(s: Seq<char>)
    requires
        forall|i: int| 0 <= i < s.len() ==> is_digit(#[trigger] s[i]),
    ensures
        digits_value(s) >= 0,
    decreases s.len(),
{
    if s.len() > 0 {
        assert forall|i: int| 0 <= i < s.drop_last().len() implies is_digit(
            #[trigger] s.drop_last()[i],
        ) by {
            assert(s.drop_last()[i] == s[i]);
        }
        lemma_digits_nonneg(s.drop_last());
    }
}

/// Reads the digits `cs[lo..hi]`: `None` unless they are a non-empty run of
/// digits, else their value, capped.
fn read_digits(cs: &[char], lo: usize, hi: usize) -> (r: Option<i128>)
    requires
        lo <= hi <= cs@.len(),
    ensures
        match r {
            Some(v) => all_digits(cs@.subrange(lo as int, hi as int)) && v == capped(
                digits_value(cs@.subrange(lo as int, hi as int)),
            ) && 0 <= v <= SECONDS_CAP,
            None => !all_digits(cs@.subrange(lo as int, hi as int)),
        },
{
    if lo == hi {
        return None;
    }
    let mut acc: i128 = 0;
    let mut i: usize = lo;
    assert(cs@.subrange(lo as int, lo as int) =~= Seq::<char>::empty());
    while i < hi
        invariant
            lo <= i <= hi <= cs@.len(),
            forall|j: int| lo <= j < i ==> is_digit(#[trigger] cs@[j]),
            acc == capped(digits_value(cs@.subrange(lo as int, i as int))),
            0 <= acc <= SECONDS_CAP,
        decreases hi - i,
    {
        let c = cs[i];
        if !('0' <= c && c <= '9') {
            assert(!is_digit(cs@.subrange(lo as int, hi as int)[i - lo]));
            return None;
        }
        let ghost prev = cs@.subrange(lo as int, i as int);
        let ghost next = cs@.subrange(lo as int, i + 1);
        assert(next.drop_last() =~= prev);
        proof {
            assert forall|j: int| 0 <= j < prev.len() implies is_digit(#[trigger] prev[j]) by {
                assert(prev[j] == cs@[lo + j]);
            }
            lemma_digits_nonneg(prev);
        }
        let d = (c as u32 - '0' as u32) as i128;
        if acc < SECONDS_CAP {
            let v = acc * 10 + d;
            acc = if v >= SECONDS_CAP {
                SECONDS_CAP
            } else {
                v
            };
        }
        i += 1;
    }
    let ghost all = cs@.subrange(lo as int, hi as int);
    assert forall|j: int| 0 <= j < all.len() implies is_digit(#[trigger] all[j]) by {
        assert(all[j] == cs@[lo + j]);
    }
    Some(acc)
}

/// `w` is `v`, or both lie beyond the cap on the same side of zero.
pub open spec fn agrees(v: int, w: int) -> bool {
    let big = SECONDS_CAP * 1000;
    v == w || (v >= big && big <= w < big + 1000) || (v <= -big && -big - 1000 < w <= -big)
}

proof fn lemma_short_digits(s: Seq<char>)
    requires
        all_digits(s),
        s.len() <= 3,
    ensures
        0 <= digits_value(s) < 1000,
        s.len() == 1 ==> digits_value(s) < 10,
        s.len() == 2 ==> digits_value(s) < 100,
{
    reveal_with_fuel(digits_value, 4);
    assert(is_digit(s[0]));
    if s.len() >= 2 {
        assert(is_digit(s[1]));
    }
    if s.len() >= 3 {
        assert(is_digit(s[2]));
    }
    if s.len() == 1 {
        assert(s.drop_last() =~= Seq::<char>::empty());
    } else if s.len() == 2 {
        assert(s.drop_last().drop_last() =~= Seq::<char>::empty());
    } else {
        assert(s.drop_last().drop_last().drop_last() =~= Seq::<char>::empty());
    }
}

/// Milliseconds in the decimal text of a number of seconds, as `text_millis`
/// gives them; past the cap the value only keeps its side of zero.
pub fn timestamp_millis(text: &str) -> (r: Option<i128>)
    ensures
        match text_millis(text@) {
            None => r is None,
            Some(v) => r is Some && agrees(v, r->0 as int),
        },
        r is Some ==> -(SECONDS_CAP * 1000 + 1000) < r->0 < SECONDS_CAP * 1000 + 1000,
{
    let cs = chars_of(text);
    let n = cs.len();
    let neg = n > 0 && cs[0] == '-';
    let start: usize = if neg {
        1
    } else {
        0
    };
    let ghost u = cs@.subrange(start as int, n as int);
    assert(neg ==> u =~= text@.drop_first());
    assert(!neg ==> u =~= text@);
    let mut d: usize = start;
    while d < n && cs[d] != '.'
        invariant
            start <= d <= n,
            n == cs@.len(),
            forall|j: int| start <= j < d ==> cs@[j] != '.',
        decreases n - d,
    {
        d += 1;
    }
    proof {
        assert forall|j: int| 0 <= j < d - start implies u[j] != '.' by {
            assert(u[j] == cs@[start + j]);
        }
        if d < n {
            assert(u[d - start] == cs@[d as int]);
        }
        lemma_index_of(u, '.', d - start);
    }
    let unsigned: Option<i128> = if d == n {
        assert(u =~= cs@.subrange(start as int, n as int));
        match read_digits(cs.as_slice(), start, n) {
            Some(v) => {
                assert(index_of(u, '.') == u.len());
                assert(agrees(unsigned_millis(u)->0, v * 1000));
                Some(v * 1000)
            },
            None => None,
        }
    } else {
        assert(u.take(d - start) =~= cs@.subrange(start as int, d as int));
        assert(u.skip(d - start + 1) =~= cs@.subrange(d + 1, n as int));
        let ip = read_digits(cs.as_slice(), start, d);
        let fp = read_digits(cs.as_slice(), d + 1, n);
        if ip.is_some() && fp.is_some() {
            let flen = n - (d + 1);
            let take: usize = if flen >= 3 {
                3
            } else {
                flen
            };
            let ghost fs = cs@.subrange(d + 1, n as int);
            assert(cs@.subrange(d + 1, d + 1 + take) =~= if flen >= 3 {
                fs.take(3)
            } else {
                fs
            });
            let ghost f3 = cs@.subrange(d + 1, d + 1 + take);
            assert forall|j: int| 0 <= j < f3.len() implies is_digit(#[trigger] f3[j]) by {
                assert(f3[j] == fs[j]);
            }
            proof {
                lemma_short_digits(f3);
            }
            let fv = match read_digits(cs.as_slice(), d + 1, d + 1 + take) {
                Some(v) => v,
                None => 0,
            };
            let scaled = if take == 3 {
                fv
            } else if take == 2 {
                fv * 10
            } else {
                fv * 100
            };
            let iv = match ip {
                Some(v) => v,
                None => 0,
            };
            proof {
                lemma_digits_nonneg(cs@.subrange(start as int, d as int));
                if take == 3 {
                    assert(scaled == fraction_millis(fs));
                } else if take == 2 {
                    assert(f3 =~= fs);
                    assert(scaled == fraction_millis(fs));
                } else {
                    assert(f3 =~= fs);
                    assert(scaled == fraction_millis(fs));
                }
                assert(index_of(u, '.') == d - start);
                assert(unsigned_millis(u) == Some(
                    digits_value(cs@.subrange(start as int, d as int)) * 1000 + fraction_millis(fs),
                ));
                assert(0 <= scaled < 1000);
                assert(agrees(unsigned_millis(u)->0, iv * 1000 + scaled));
            }
            Some(iv * 1000 + scaled)
        } else {
            None
        }
    };
    proof {
        if d == n {
            if all_digits(u) {
                lemma_digits_nonneg(u);
            }
        }
    }
    assert(match unsigned_millis(u) {
        None => unsigned is None,
        Some(v) => unsigned is Some && agrees(v, unsigned->0 as int) && 0 <= v && 0 <= unsigned->0,
    });
    assert(unsigned is Some ==> unsigned->0 < SECONDS_CAP * 1000 + 1000);
    match unsigned {
        Some(v) => {
            if neg {
                Some(-v)
            } else {
                Some(v)
            }
        },
        None => None,
    }
}

} // verus!
