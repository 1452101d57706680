//! Human-friendly durations on the command line: `500ms`, `1s`, `2.5s`, `5m`,
//! `1h`, or bare seconds.
//!
//! The number is read as the exact decimal it spells; the span is that many
//! units, rounded to the nearest whole nanosecond (halves rounded up).

use vstd::prelude::*;
use vstd::arithmetic::div_mod::{lemma_div_denominator, lemma_hoist_over_denominator};
use std::time::Duration;
use crate::shutdown::{duration_new, duration_whole_secs, duration_subsec_nanos};
use crate::text::{
    trim, trim_class, CharClass, debug_str, debug_quoted, split_once, split_once_char,
    lemma_split_once, trim_start_by, trim_end_by, is_ws,
};
use crate::report::str_eq;

verus! {

/// The characters of a duration's number: ASCII digits and the decimal point.
pub open spec fn is_number_char(c: char) -> bool {
    ('0' <= c && c <= '9') || c == '.'
}

/// Length of the leading run of digits and points.
pub open spec fn number_len(s: Seq<char>) -> nat
    decreases s.len(),
{
    if s.len() > 0 && is_number_char(s[0]) {
        1 + number_len(s.drop_first())
    } else {
        0
    }
}

/// `10` to the power `n`.
pub open spec fn pow10(n: nat) -> nat
    decreases n,
{
    if n == 0 {
        1
    } else {
        10 * pow10((n - 1) as nat)
    }
}

/// The value of a string of decimal digits (0 for the empty string).
pub open spec fn digits_value(d: Seq<char>) -> nat
    decreases d.len(),
{
    if d.len() == 0 {
        0
    } else {
        digits_value(d.drop_last()) * 10 + (d.last() as int - 48) as nat
    }
}

/// The digits before and after the point of a number made of digits and
/// points, when it is a float literal: at most one point, at least one digit
/// (what `f64`'s parser accepts of such text).
pub open spec fn number_digits(num: Seq<char>) -> Option<(Seq<char>, Seq<char>)> {
    match split_once(num, '.') {
        None => if num.len() > 0 {
            Some((num, Seq::<char>::empty()))
        } else {
            None
        },
        Some((ip, fp)) => if split_once(fp, '.') is None && ip.len() + fp.len() > 0 {
            Some((ip, fp))
        } else {
            None
        },
    }
}

/// Nanoseconds in one of each unit: seconds (also for no unit), `ms`, `m`, `h`.
pub open spec fn unit_nanos(u: Seq<char>) -> Option<nat> {
    if u == ""@ || u == "s"@ {
        Some(1_000_000_000)
    } else if u == "ms"@ {
        Some(1_000_000)
    } else if u == "m"@ {
        Some(60_000_000_000)
    } else if u == "h"@ {
        Some(3_600_000_000_000)
    } else {
        None
    }
}

/// `0.fp` units of `m` nanoseconds, rounded to the nearest whole
/// nanosecond, halves up: half of `10^|fp|` is added before dividing.
pub open spec fn rounded_fraction(fp: Seq<char>, m: nat) -> nat {
    if fp.len() == 0 {
        0
    } else {
        (digits_value(fp) * m + 5 * pow10((fp.len() - 1) as nat)) / pow10(fp.len())
    }
}

/// Nanoseconds in `ip.fp` units of `m` nanoseconds, to the nearest whole
/// nanosecond (halves up).
pub open spec fn scaled_nanos(ip: Seq<char>, fp: Seq<char>, m: nat) -> nat {
    digits_value(ip) * m + rounded_fraction(fp, m)
}

/// Nanoseconds in 2^64 seconds, the shortest span a `Duration` cannot hold.
pub open spec fn nanos_limit() -> nat {
    18_446_744_073_709_551_616_000_000_000
}

/// A duration argument: surrounding whitespace is ignored; the number is the
/// leading run of digits and points, the unit the rest. `Ok(Some(n))` is a
/// span of `n` nanoseconds; `Ok(None)` one of 2^64 seconds or more.
/// The messages quote the number as `{:?}` does, which leaves digits and
/// points as they are, and the unit by its `Debug` text.
pub open spec fn spec_parse_duration(s: Seq<char>) -> Result<Option<nat>, Seq<char>> {
    let t = trim(s);
    let num = t.take(number_len(t) as int);
    let unit = t.skip(number_len(t) as int);
    if t.len() == 0 {
        Err("empty duration"@)
    } else {
        match number_digits(num) {
            None => Err(
                "invalid number \""@ + num + "\": "@ + (if num.len() == 0 {
                    "cannot parse float from empty string"@
                } else {
                    "invalid float literal"@
                }),
            ),
            Some((ip, fp)) => match unit_nanos(unit) {
                None => Err("unknown unit "@ + debug_str(unit) + " (expected ms, s, m, h)"@),
                Some(m) => if scaled_nanos(ip, fp, m) >= nanos_limit() {
                    Ok(None)
                } else {
                    Ok(Some(scaled_nanos(ip, fp, m)))
                },
            },
        }
    }
}

/// A bare number is a number of seconds: `n` reads exactly as `ns` does.
pub proof fn law_bare_number_is_seconds(num: Seq<char>)
    requires
        num.len() > 0,
        forall|j: int| 0 <= j < num.len() ==> is_number_char(#[trigger] num[j]),
    ensures
        spec_parse_duration(num) == spec_parse_duration(num + "s"@),
{
    reveal_strlit("s");
    reveal_strlit("");
    let with_unit = num + "s"@;
    let k = num.len() as int;
    assert(is_number_char(num[0]) && is_number_char(num[k - 1]));
    assert(!is_ws(num[0]) && !is_ws(num.last()));
    assert(trim_start_by(num, CharClass::Whitespace) == num);
    assert(trim_end_by(num, CharClass::Whitespace) == num);
    assert(with_unit[0] == num[0]);
    assert(with_unit.last() == 's');
    assert(trim_start_by(with_unit, CharClass::Whitespace) == with_unit);
    assert(trim_end_by(with_unit, CharClass::Whitespace) == with_unit);
    lemma_number_len_at(num, k);
    assert forall|j: int| 0 <= j < k implies is_number_char(with_unit[j]) by {
        assert(with_unit[j] == num[j]);
    }
    lemma_number_len_at(with_unit, k);
    assert(with_unit.take(k) =~= num);
    assert(num.take(k) =~= num);
    assert(with_unit.skip(k) =~= "s"@);
    assert(num.skip(k) =~= ""@);
}

proof fn lemma_number_len_at(s: Seq<char>, k: int)
    requires
        0 <= k <= s.len(),
        forall|j: int| 0 <= j < k ==> is_number_char(s[j]),
        k < s.len() ==> !is_number_char(s[k]),
    ensures
        number_len(s) == k,
    decreases k,
{
    if k > 0 {
        let t = s.drop_first();
        assert forall|j: int| 0 <= j < k - 1 implies is_number_char(t[j]) by {
            assert(t[j] == s[j + 1]);
        }
        if k < s.len() {
            assert(t[k - 1] == s[k]);
        }
        lemma_number_len_at(t, k - 1);
    }
}

/// A digit string's value does not fall when digits are appended.
proof fn lemma_digits_prefix_le(d: Seq<char>, i: int)
    requires
        0 <= i <= d.len(),
    ensures
        digits_value(d.take(i)) <= digits_value(d),
    decreases d.len() - i,
{
    if i < d.len() {
        lemma_digits_prefix_le(d, i + 1);
        assert(d.take(i + 1).drop_last() =~= d.take(i));
    } else {
        assert(d.take(i) =~= d);
    }
}

/// A leading digit adds its weight: `value(c r) == digit(c) * 10^|r| + value(r)`.
proof fn lemma_digits_prepend(c: char, r: Seq<char>)
    ensures
        digits_value(seq![c] + r) == (c as int - 48) as nat * pow10(r.len()) + digits_value(r),
    decreases r.len(),
{
    let d = (c as int - 48) as nat;
    if r.len() == 0 {
        assert(seq![c] + r =~= seq![c]);
        assert(seq![c].drop_last() =~= Seq::<char>::empty());
        assert(digits_value(Seq::<char>::empty()) == 0);
        assert(digits_value(seq![c]) == d);
        assert(pow10(0) == 1);
        assert(digits_value(r) == 0);
        assert(d * pow10(r.len()) == d);
    } else {
        let r0 = r.drop_last();
        lemma_digits_prepend(c, r0);
        assert((seq![c] + r).drop_last() =~= seq![c] + r0);
        assert((seq![c] + r).last() == r.last());
        let p = pow10(r0.len());
        assert(pow10(r.len()) == 10 * p);
        assert((d * p + digits_value(r0)) * 10 == d * (10 * p) + digits_value(r0) * 10)
            by (nonlinear_arith);
        assert(digits_value(r) == digits_value(r0) * 10 + (r.last() as int - 48) as nat);
        assert(digits_value(seq![c] + r) == digits_value(seq![c] + r0) * 10 + (r.last() as int - 48) as nat);
        assert(digits_value(seq![c] + r) == d * pow10(r.len()) + digits_value(r));
    }
}

/// One step of the right-to-left carry: `(value(c r) * m + e * 10^|r|) /
/// 10^(|r|+1)` follows from the quotient `value(r) * m / 10^|r|`.
proof fn lemma_carry_step(c: char, r: Seq<char>, m: nat, e: nat)
    requires
        '0' <= c <= '9',
    ensures
        (digits_value(seq![c] + r) * m + e * pow10(r.len())) / pow10(r.len() + 1)
            == ((c as int - 48) * m + e + digits_value(r) * m / pow10(r.len())) / 10,
{
    let d = (c as int - 48) as nat;
    let p = pow10(r.len());
    let v = digits_value(r);
    lemma_digits_prepend(c, r);
    assert(p > 0) by {
        lemma_pow10_positive(r.len());
    }
    assert(pow10(r.len() + 1) == 10 * p);
    assert((d * p + v) * m + e * p == v * m + (d * m + e) * p) by (nonlinear_arith);
    lemma_hoist_over_denominator((v * m) as int, (d * m + e) as int, p);
    lemma_div_denominator(((d * p + v) * m + e * p) as int, p as int, 10);
    assert(p * 10 == 10 * p);
}

proof fn lemma_pow10_positive(n: nat)
    ensures
        pow10(n) > 0,
    decreases n,
{
    if n > 0 {
        lemma_pow10_positive((n - 1) as nat);
    }
}

/// The leading digits-and-points run of `t`, and its length.
fn number_prefix(t: &str) -> (k: usize)
    ensures
        k == number_len(t@),
        k <= t@.len(),
        forall|j: int| 0 <= j < k ==> is_number_char(t@[j]),
{
    let n = t.unicode_len();
    let mut k: usize = 0;
    loop
        invariant
            n == t@.len(),
            k <= n,
            forall|j: int| 0 <= j < k ==> is_number_char(t@[j]),
        ensures
            k <= n,
            forall|j: int| 0 <= j < k ==> is_number_char(t@[j]),
            k < n ==> !is_number_char(t@[k as int]),
        decreases n - k,
    {
        if k >= n {
            break;
        }
        let c = t.get_char(k);
        if !(('0' <= c && c <= '9') || c == '.') {
            break;
        }
        k = k + 1;
    }
    proof {
        lemma_number_len_at(t@, k as int);
    }
    k
}

/// Nanoseconds in one `unit`, or `None` for an unknown unit.
fn unit_value(unit: &str) -> (m: Option<u64>)
    ensures
        match unit_nanos(unit@) {
            Some(v) => m == Some(v as u64),
            None => m is None,
        },
{
    if str_eq(unit, "") || str_eq(unit, "s") {
        Some(1_000_000_000)
    } else if str_eq(unit, "ms") {
        Some(1_000_000)
    } else if str_eq(unit, "m") {
        Some(60_000_000_000)
    } else if str_eq(unit, "h") {
        Some(3_600_000_000_000)
    } else {
        None
    }
}

/// `digits_value(ip) * m + digits_value(fp) * m / 10^|fp|`, or `None` when
/// that reaches 2^64 seconds.
fn scale(ip: &str, fp: &str, m: u64) -> (r: Option<u128>)
    requires
        1_000_000 <= m <= 3_600_000_000_000,
        forall|j: int| 0 <= j < ip@.len() ==> '0' <= #[trigger] ip@[j] <= '9',
        forall|j: int| 0 <= j < fp@.len() ==> '0' <= #[trigger] fp@[j] <= '9',
    ensures
        scaled_nanos(ip@, fp@, m as nat) >= nanos_limit() ==> r is None,
        scaled_nanos(ip@, fp@, m as nat) < nanos_limit() ==> r == Some(
            scaled_nanos(ip@, fp@, m as nat) as u128,
        ),
{
    let limit: u128 = 18_446_744_073_709_551_616_000_000_000;
    let mm = m as u128;
    let ipn = ip.unicode_len();
    let mut acc: u128 = 0;
    let mut i: usize = 0;
    assert(ip@.take(0) =~= Seq::<char>::empty());
    while i < ipn
        invariant
            ipn == ip@.len(),
            i <= ipn,
            mm == m,
            1_000_000 <= m <= 3_600_000_000_000,
            limit == nanos_limit(),
            forall|j: int| 0 <= j < ip@.len() ==> '0' <= #[trigger] ip@[j] <= '9',
            acc == digits_value(ip@.take(i as int)),
            acc * m < limit,
        decreases ipn - i,
    {
        let c = ip.get_char(i);
        assert(ip@[i as int] == c);
        let d = ((c as u32) - 48) as u128;
        assert(acc < 18_446_744_073_709_551_616_000) by (nonlinear_arith)
            requires
                acc * m < 18_446_744_073_709_551_616_000_000_000,
                m >= 1_000_000,
        ;
        let next = acc * 10 + d;
        assert(next * m < 340_282_366_920_938_463_463_374_607_431_768_211_455) by (nonlinear_arith)
            requires
                next < 184_467_440_737_095_516_160_010,
                m <= 3_600_000_000_000,
        ;
        proof {
            assert(ip@.take(i + 1).drop_last() =~= ip@.take(i as int));
            assert(ip@.take(i + 1).last() == c);
            assert(next == digits_value(ip@.take(i + 1)));
        }
        if next * mm >= limit {
            proof {
                lemma_digits_prefix_le(ip@, i + 1);
                let full = digits_value(ip@);
                assert(full * m >= next * m) by (nonlinear_arith)
                    requires
                        full >= next,
                ;
                lemma_pow10_positive(fp@.len());
                assert(digits_value(fp@) * (m as nat) / pow10(fp@.len()) >= 0);
                assert(scaled_nanos(ip@, fp@, m as nat) >= full * m);
            }
            return None;
        }
        acc = next;
        i = i + 1;
    }
    assert(ip@.take(ipn as int) =~= ip@);
    let fpn = fp.unicode_len();
    let mut carry: u128 = 0;
    let mut j: usize = fpn;
    assert(fp@.skip(fpn as int) =~= Seq::<char>::empty());
    while j > 0
        invariant
            fpn == fp@.len(),
            j <= fpn,
            mm == m,
            1_000_000 <= m <= 3_600_000_000_000,
            forall|k: int| 0 <= k < fp@.len() ==> '0' <= #[trigger] fp@[k] <= '9',
            j > 0 ==> carry == digits_value(fp@.skip(j as int)) * (m as nat) / pow10(
                (fpn - j) as nat,
            ),
            j == 0 ==> carry == rounded_fraction(fp@, m as nat),
            carry <= m,
        decreases j,
    {
        j = j - 1;
        let c = fp.get_char(j);
        assert(fp@[j as int] == c);
        let d = ((c as u32) - 48) as u128;
        // half a nanosecond is added with the leading digit: rounding to nearest
        let half: u128 = if j == 0 {
            5
        } else {
            0
        };
        proof {
            let r = fp@.skip(j + 1);
            assert(fp@.skip(j as int) =~= seq![c] + r);
            lemma_carry_step(c, r, m as nat, half as nat);
            lemma_carry_step(c, r, m as nat, 0);
            if j == 0 {
                assert(fp@.skip(0) =~= fp@);
            }
            assert(d * m <= 9 * m) by (nonlinear_arith)
                requires
                    d <= 9,
            ;
        }
        carry = (d * mm + half + carry) / 10;
    }
    let total = acc * mm + carry;
    if total >= limit {
        None
    } else {
        Some(total)
    }
}

/// Parses a duration argument into nanoseconds (see `spec_parse_duration`).
pub fn parse_duration_nanos(s: &str) -> (r: Result<Option<u128>, String>)
    ensures
        match spec_parse_duration(s@) {
            Ok(Some(n)) => r == Ok::<Option<u128>, String>(Some(n as u128)),
            Ok(None) => r == Ok::<Option<u128>, String>(None),
            Err(e) => r matches Err(m) && m@ == e,
        },
{
    let t = trim_class(s, CharClass::Whitespace);
    let n = t.unicode_len();
    if n == 0 {
        let mut m = String::new();
        m.append("empty duration");
        return Err(m);
    }
    let k = number_prefix(t);
    let num = t.substring_char(0, k);
    let unit = t.substring_char(k, n);
    assert(num@ =~= t@.take(k as int));
    assert(unit@ =~= t@.skip(k as int));
    proof {
        lemma_split_once(num@, '.');
        reveal_strlit("");
    }
    let (ip, fp, well_formed) = match split_once_char(num, '.') {
        None => (num, "", k > 0),
        Some((a, b)) => {
            proof {
                lemma_split_once(b@, '.');
            }
            let second = split_once_char(b, '.');
            (a, b, second.is_none() && a.unicode_len() + b.unicode_len() > 0)
        },
    };
    if !well_formed {
        let mut m = String::new();
        m.append("invalid number \"");
        m.append(num);
        m.append("\": ");
        if k == 0 {
            m.append("cannot parse float from empty string");
        } else {
            m.append("invalid float literal");
        }
        return Err(m);
    }
    assert(number_digits(num@) == Some((ip@, fp@)));
    proof {
        assert forall|j: int| 0 <= j < ip@.len() implies '0' <= #[trigger] ip@[j] <= '9' by {
            assert(num@[j] == ip@[j]);
            assert(is_number_char(t@[j]));
        }
        assert forall|j: int| 0 <= j < fp@.len() implies '0' <= #[trigger] fp@[j] <= '9' by {
            if fp@.len() > 0 {
                let at = ip@.len() + 1 + j;
                assert(num@[at] == fp@[j]);
                assert(is_number_char(t@[at]));
            }
        }
    }
    match unit_value(unit) {
        None => {
            let mut m = String::new();
            m.append("unknown unit ");
            let q = debug_quoted(unit);
            m.append(q.as_str());
            m.append(" (expected ms, s, m, h)");
            Err(m)
        },
        Some(mult) => Ok(scale(ip, fp, mult)),
    }
}

/// Parses a duration argument. Spans of 2^64 seconds or more are left out:
/// `Duration` cannot hold them. The number is read as the exact decimal it
/// spells and the span rounded to the nearest whole nanosecond (halves up),
/// with no floating point. A reading through `f64` arithmetic and
/// `Duration::from_secs_f64` rounds the same way except where `f64` itself
/// rounds: numbers with more significant digits than an `f64` holds, the
/// scaling of `ms`, `m` and `h`, and spans just below 2^64 seconds that an
/// `f64` rounds up to 2^64.
pub fn parse_duration_arg(s: &str) -> (r: Result<Duration, String>)
    requires
        spec_parse_duration(s@) != Ok::<Option<nat>, Seq<char>>(None),
    ensures
        match spec_parse_duration(s@) {
            Ok(Some(n)) => r matches Ok(d) && duration_whole_secs(d) == n / 1_000_000_000
                && duration_subsec_nanos(d) == n % 1_000_000_000,
            Ok(None) => true,
            Err(e) => r matches Err(m) && m@ == e,
        },
{
    match parse_duration_nanos(s) {
        Err(m) => Err(m),
        Ok(Some(n)) => {
            let secs = (n / 1_000_000_000) as u64;
            let nanos = (n % 1_000_000_000) as u32;
            Ok(duration_new(secs, nanos))
        },
        Ok(None) => {
            proof {
                // ruled out by the precondition
                assert(false);
            }
            Err(String::new())
        },
    }
}

} // verus!
