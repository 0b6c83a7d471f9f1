//! Suppression of redundant high-frequency property updates.
//!
//! The player restates the playback position many times per second.
//! Forwarding every restatement to every session would flood the
//! network for no visible benefit, so position updates are coalesced:
//! a new position is forwarded only when it moved backwards (a seek)
//! or advanced by at least the forwarding step. All other properties
//! bypass coalescing.
//!
//! Positions travel as decimal text. They are compared in fixed-point
//! milli-units: `"10.02"` is 10020. Text that does not parse fails
//! open and is forwarded unchanged.

use vstd::prelude::*;
use vstd::string::*;

use crate::text::str_eq;

verus! {

/// The one property whose updates are coalesced.
pub open spec fn coalesced_property() -> Seq<char> {
    "playback-time"@
}

/// Forwarding step in milli-units: a position must advance by at
/// least this much to be forwarded.
pub const STEP_MILLIS: i64 = 100;

/// Every parsed position is strictly below this bound in magnitude
/// (at most fifteen integer digits, three fractional milli-digits).
pub const FIXED_BOUND: i64 = 1000000000000000000;

pub open spec fn is_digit(c: char) -> bool {
    48 <= c as u32 <= 57
}

pub open spec fn digit_val(c: char) -> int {
    c as u32 - 48
}

pub open spec fn all_digits(s: Seq<char>) -> bool {
    forall|i: int| 0 <= i < s.len() ==> is_digit(#[trigger] s[i])
}

/// The value of a digit sequence read in base ten.
pub open spec fn digits_val(s: Seq<char>) -> int
    decreases s.len(),
{
    if s.len() == 0 {
        0
    } else {
        digits_val(s.drop_last()) * 10 + digit_val(s.last())
    }
}

/// Milli-units contributed by a fraction digit sequence; digits past
/// the third carry no weight at this resolution.
pub open spec fn frac_millis(s: Seq<char>) -> int {
    (if s.len() >= 1 {
        digit_val(s[0]) * 100
    } else {
        0
    }) + (if s.len() >= 2 {
        digit_val(s[1]) * 10
    } else {
        0
    }) + (if s.len() >= 3 {
        digit_val(s[2])
    } else {
        0
    })
}

/// Index of the first occurrence of `c`, or the length when absent.
pub open spec fn char_index(s: Seq<char>, c: char) -> int
    decreases s.len(),
{
    if s.len() == 0 {
        0
    } else if s[0] == c {
        0
    } else {
        1 + char_index(s.drop_first(), c)
    }
}

pub proof fn lemma_char_index(s: Seq<char>, c: char)
    ensures
        0 <= char_index(s, c) <= s.len(),
        forall|j: int| 0 <= j < char_index(s, c) ==> s[j] != c,
        char_index(s, c) < s.len() ==> s[char_index(s, c)] == c,
    decreases s.len(),
{
    if s.len() != 0 && s[0] != c {
        lemma_char_index(s.drop_first(), c);
        assert forall|j: int| 0 <= j < char_index(s, c) implies s[j] != c by {
            if j > 0 {
                assert(s.drop_first()[j - 1] == s[j]);
            }
        }
        if char_index(s, c) < s.len() {
            assert(s.drop_first()[char_index(s, c) - 1] == s[char_index(s, c)]);
        }
    }
}

/// The milli-unit reading of an unsigned decimal numeral: digits with
/// at most one point, at least one and at most fifteen integer digits.
pub open spec fn unsigned_fixed(s: Seq<char>) -> Option<int> {
    let d = char_index(s, '.');
    if d == s.len() {
        if 1 <= s.len() <= 15 && all_digits(s) {
            Some(digits_val(s) * 1000)
        } else {
            None
        }
    } else {
        let ip = s.subrange(0, d);
        let fp = s.subrange(d + 1, s.len() as int);
        if 1 <= ip.len() <= 15 && all_digits(ip) && all_digits(fp) {
            Some(digits_val(ip) * 1000 + frac_millis(fp))
        } else {
            None
        }
    }
}

/// The milli-unit reading of a decimal numeral with an optional
/// leading minus sign; `None` when the text is not such a numeral.
pub open spec fn fixed_of(s: Seq<char>) -> Option<int> {
    if s.len() > 0 && s[0] == '-' {
        match unsigned_fixed(s.drop_first()) {
            Some(v) => Some(-v),
            None => None,
        }
    } else {
        unsigned_fixed(s)
    }
}

spec fn pow10(n: nat) -> int
    decreases n,
{
    if n == 0 {
        1
    } else {
        10 * pow10((n - 1) as nat)
    }
}

proof fn lemma_pow10_15()
    ensures
        pow10(15) == 1000000000000000,
{
    reveal_with_fuel(pow10, 16);
}

proof fn lemma_pow10_le(m: nat, n: nat)
    requires
        m <= n,
    ensures
        pow10(m) <= pow10(n),
        pow10(m) >= 1,
    decreases n,
{
    if n > 0 {
        if m == n {
            lemma_pow10_le((n - 1) as nat, (n - 1) as nat);
        } else {
            lemma_pow10_le(m, (n - 1) as nat);
        }
    }
}

/// A non-digit before any point makes the numeral unreadable.
proof fn lemma_unsigned_fixed_bad_digit(body: Seq<char>, j: int)
    requires
        0 <= j < body.len(),
        forall|k: int| 0 <= k < j ==> is_digit(#[trigger] body[k]),
        body[j] != '.',
        !is_digit(body[j]),
    ensures
        unsigned_fixed(body) is None,
{
    lemma_char_index(body, '.');
    let d = char_index(body, '.');
    assert(d > j);
    if d < body.len() {
        assert(body.subrange(0, d)[j] == body[j]);
    }
}

/// More than fifteen digits before any point make the numeral unreadable.
proof fn lemma_unsigned_fixed_long(body: Seq<char>, j: int)
    requires
        15 <= j < body.len(),
        forall|k: int| 0 <= k < j ==> is_digit(#[trigger] body[k]),
        is_digit(body[j]),
    ensures
        unsigned_fixed(body) is None,
{
    lemma_char_index(body, '.');
    let d = char_index(body, '.');
    assert(d > j);
}

/// Read a decimal numeral, optionally signed, into fixed-point
/// milli-units: `"10.02"` becomes 10020. Returns `None` exactly when
/// the text is not such a numeral (or carries more than fifteen
/// integer digits); fraction digits past the third carry no weight.
pub fn parse_fixed_millis(s: &str) -> (r: Option<i64>)
    ensures
        match r {
            Some(v) => fixed_of(s@) == Some(v as int) && -FIXED_BOUND < v < FIXED_BOUND,
            None => fixed_of(s@) is None,
        },
{
    let n = s.unicode_len();
    let ghost cs = s@;
    let neg = n > 0 && s.get_char(0) == '-';
    let ghost body = if neg {
        cs.drop_first()
    } else {
        cs
    };
    let ghost off: int = if neg {
        1int
    } else {
        0int
    };
    proof {
        assert(forall|k: int| 0 <= k < body.len() ==> #[trigger] body[k] == cs[k + off]);
    }
    let mut i: usize = if neg {
        1
    } else {
        0
    };
    let mut val: i64 = 0;
    while i < n && s.get_char(i) != '.'
        invariant
            cs == s@,
            n == cs.len(),
            off == if neg { 1int } else { 0int },
            body == if neg { cs.drop_first() } else { cs },
            (cs.len() > 0 && cs[0] == '-') == neg,
            forall|k: int| 0 <= k < body.len() ==> #[trigger] body[k] == cs[k + off],
            off <= i <= n,
            forall|j: int| 0 <= j < i - off ==> is_digit(#[trigger] body[j]),
            val == digits_val(body.subrange(0, i - off)),
            0 <= val < pow10((i - off) as nat),
            i - off <= 15,
        decreases n - i,
    {
        let c = s.get_char(i);
        let v = c as u32;
        if v < 48 || v > 57 {
            proof {
                assert(body[i - off] == cs[i as int]);
                lemma_unsigned_fixed_bad_digit(body, i - off);
            }
            return None;
        }
        if i - (if neg { 1 } else { 0 }) >= 15 {
            proof {
                assert(body[i - off] == cs[i as int]);
                lemma_unsigned_fixed_long(body, i - off);
            }
            return None;
        }
        proof {
            lemma_pow10_15();
            lemma_pow10_le((i - off) as nat, 14);
        }
        val = val * 10 + ((v - 48) as i64);
        i = i + 1;
        proof {
            let pre = body.subrange(0, i - 1 - off);
            let cur = body.subrange(0, i - off);
            assert(cur.drop_last() =~= pre);
            assert(cur.last() == body[i - 1 - off]);
        }
    }
    if i == (if neg { 1 } else { 0 }) {
        proof {
            lemma_char_index(body, '.');
            if body.len() > 0 {
                assert(body[0] == cs[off]);
                assert(body[0] == '.');
                assert(char_index(body, '.') == 0);
            }
        }
        return None;
    }
    let ghost d = char_index(body, '.');
    proof {
        lemma_char_index(body, '.');
        assert(forall|k: int| 0 <= k < i - off ==> #[trigger] body[k] != '.');
        assert(d >= i - off);
        lemma_pow10_15();
        lemma_pow10_le((i - off) as nat, 15);
    }
    if i == n {
        proof {
            assert(d == body.len());
            assert(body.subrange(0, i - off) =~= body);
        }
        let millis = val * 1000;
        if neg {
            return Some(-millis);
        }
        return Some(millis);
    }
    // the point sits at body index i - off
    proof {
        assert(cs[i as int] == '.');
        assert(body[i - off] == '.');
        assert(d == i - off);
    }
    let ghost ip = body.subrange(0, d);
    let ghost fp = body.subrange(d + 1, body.len() as int);
    let fstart = i + 1;
    i = i + 1;
    let mut frac: i64 = 0;
    while i < n
        invariant
            cs == s@,
            n == cs.len(),
            off == if neg { 1int } else { 0int },
            body == if neg { cs.drop_first() } else { cs },
            (cs.len() > 0 && cs[0] == '-') == neg,
            forall|k: int| 0 <= k < body.len() ==> #[trigger] body[k] == cs[k + off],
            d == char_index(body, '.'),
            0 <= d < body.len(),
            ip == body.subrange(0, d),
            fp == body.subrange(d + 1, body.len() as int),
            1 <= ip.len() <= 15,
            all_digits(ip),
            val == digits_val(ip),
            0 <= val < 1000000000000000,
            fstart == off + d + 1,
            fstart <= i <= n,
            forall|j: int| 0 <= j < i - fstart ==> is_digit(#[trigger] fp[j]),
            frac == frac_millis(fp.subrange(0, i - fstart)),
            0 <= frac <= 999,
        decreases n - i,
    {
        let c = s.get_char(i);
        let v = c as u32;
        proof {
            assert(fp[i - fstart] == body[i - off]);
            assert(body[i - off] == cs[i as int]);
        }
        if v < 48 || v > 57 {
            proof {
                assert(!is_digit(fp[i - fstart]));
                assert(!all_digits(fp));
            }
            return None;
        }
        let m = i - fstart;
        proof {
            let pre = fp.subrange(0, i - fstart);
            let cur = fp.subrange(0, i + 1 - fstart);
            assert(forall|j: int| 0 <= j < pre.len() ==> #[trigger] cur[j] == pre[j]);
            assert(cur[i - fstart] == fp[i - fstart]);
        }
        if m == 0 {
            frac = ((v - 48) as i64) * 100;
        } else if m == 1 {
            frac = frac + ((v - 48) as i64) * 10;
        } else if m == 2 {
            frac = frac + ((v - 48) as i64);
        }
        i = i + 1;
    }
    proof {
        assert(fp.subrange(0, n - fstart) =~= fp);
        assert(all_digits(fp));
    }
    let millis = val * 1000 + frac;
    if neg {
        Some(-millis)
    } else {
        Some(millis)
    }
}

/// Whether a newly parsed position (`parsed`, `None` when unreadable)
/// is forwarded given the last forwarded position.
pub open spec fn should_forward(last: Option<int>, parsed: Option<int>) -> bool {
    match parsed {
        None => true,
        Some(v) => match last {
            None => true,
            Some(l) => v < l || v - l >= STEP_MILLIS as int,
        },
    }
}

/// The last forwarded position after a decision: it moves only on a
/// forwarded, readable position.
pub open spec fn next_last(last: Option<int>, parsed: Option<int>) -> Option<int> {
    match parsed {
        None => last,
        Some(v) => if should_forward(last, parsed) {
            Some(v)
        } else {
            last
        },
    }
}

/// Per-property update suppression state: the position value last
/// forwarded to the sessions, in milli-units.
pub struct Coalescer {
    last: Option<i64>,
}

impl Coalescer {
    /// The last forwarded position, if any.
    pub closed spec fn last_millis(&self) -> Option<int> {
        match self.last {
            Some(v) => Some(v as int),
            None => None,
        }
    }

    /// Any held position is a parsed numeral, so it sits inside the
    /// fixed-point bound.
    pub open spec fn wf(&self) -> bool {
        match self.last_millis() {
            Some(l) => -(FIXED_BOUND as int) < l < FIXED_BOUND as int,
            None => true,
        }
    }

    /// A coalescer that has forwarded nothing yet: the first position
    /// always goes out.
    pub fn new() -> (c: Coalescer)
        ensures
            c.wf(),
            c.last_millis() is None,
    {
        Coalescer { last: None }
    }

    /// Decide whether `value` for `property` is forwarded to the
    /// sessions. Only the coalesced property is ever suppressed: a
    /// position is held back exactly when it advanced by less than the
    /// forwarding step, while seeks (moves backwards) and unreadable
    /// values always pass. Suppressed values leave the bookkeeping
    /// untouched.
    pub fn decide(&mut self, property: &str, value: &str) -> (forward: bool)
        requires
            old(self).wf(),
        ensures
            final(self).wf(),
            property@ != coalesced_property() ==> forward && final(self).last_millis()
                == old(self).last_millis(),
            property@ == coalesced_property() ==> forward == should_forward(
                old(self).last_millis(),
                fixed_of(value@),
            ) && final(self).last_millis() == next_last(
                old(self).last_millis(),
                fixed_of(value@),
            ),
    {
        if !str_eq(property, "playback-time") {
            return true;
        }
        match parse_fixed_millis(value) {
            None => true,
            Some(v) => {
                match self.last {
                    None => {
                        self.last = Some(v);
                        true
                    }
                    Some(l) => {
                        if v < l || v - l >= STEP_MILLIS {
                            self.last = Some(v);
                            true
                        } else {
                            false
                        }
                    }
                }
            }
        }
    }
}

/// Law: a backward seek is never suppressed. Whatever position was
/// forwarded last, a smaller new position is forwarded.
pub proof fn lemma_backward_seek_forwards(last: int, v: int)
    requires
        v < last,
    ensures
        should_forward(Some(last), Some(v)),
{
}

/// Law: suppression loses only immaterial restatements. A position
/// that is held back lies at, or less than the forwarding step above,
/// the last forwarded one, so no materially different value is lost.
pub proof fn lemma_suppressed_is_immaterial(last: int, v: int)
    requires
        !should_forward(Some(last), Some(v)),
    ensures
        0 <= v - last < STEP_MILLIS as int,
{
}

} // verus!
