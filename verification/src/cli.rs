//! Decisions of the `gcups` command-line tool: argument parsing, exit codes,
//! and the description of register changes in `watch` output.

use vstd::prelude::*;
use crate::status::{StatusFlags, spec_from_register};
use crate::text::{push_char, parse_uint, parse_uint_str, int_error_message, int_error_text, IntErrorKind};
use crate::report::str_starts_with;

verus! {

/// Exit code when the UPS could not be reached or read.
pub const EXIT_DEVICE_ERROR: u8 = 10;

/// Exit code for a status: 3 on a UPS fault, else 2 on a low battery, else 1
/// when mains failed, else 0.
pub open spec fn spec_exit_code(f: StatusFlags) -> u8 {
    if f.ups_fault {
        3
    } else if f.battery_low {
        2
    } else if f.utility_fail {
        1
    } else {
        0
    }
}

/// The exit code follows the documented priority: 3 on a UPS fault; else 2
/// on a low battery, whether or not mains failed; else 1 when mains failed;
/// 0 exactly when none of the three holds.
pub proof fn law_exit_code_priority(f: StatusFlags)
    ensures
        f.ups_fault ==> spec_exit_code(f) == 3,
        !f.ups_fault && f.battery_low ==> spec_exit_code(f) == 2,
        !f.ups_fault && !f.battery_low && f.utility_fail ==> spec_exit_code(f) == 1,
        spec_exit_code(f) == 0 <==> !f.ups_fault && !f.battery_low && !f.utility_fail,
{
}

/// The exit code of a status register, by its bits: bit 4 (fault) gives 3,
/// else bit 6 (battery low) gives 2, else bit 7 (mains failed) gives 1, else
/// 0; the other bits never matter.
pub proof fn law_exit_code_from_register(reg: u8)
    ensures
        spec_exit_code(spec_from_register(reg)) == (if reg & 0x10 != 0 {
            3u8
        } else if reg & 0x40 != 0 {
            2u8
        } else if reg & 0x80 != 0 {
            1u8
        } else {
            0u8
        }),
{
    assert(((reg >> 4u8) & 1u8 == 1u8) == (reg & 0x10 != 0)) by (bit_vector);
    assert(((reg >> 6u8) & 1u8 == 1u8) == (reg & 0x40 != 0)) by (bit_vector);
    assert(((reg >> 7u8) & 1u8 == 1u8) == (reg & 0x80 != 0)) by (bit_vector);
}

/// The exit code that reports a status to scripts.
pub fn status_exit_code(flags: &StatusFlags) -> (code: u8)
    ensures
        code == spec_exit_code(*flags),
{
    if flags.ups_fault {
        3
    } else if flags.battery_low {
        2
    } else if flags.utility_fail {
        1
    } else {
        0
    }
}

/// A report index on the command line: `0x`/`0X` and hexadecimal digits, or
/// decimal digits; at most 255.
pub open spec fn spec_parse_u8(s: Seq<char>) -> Result<u8, Seq<char>> {
    if s.len() >= 2 && (s.take(2) == "0x"@ || s.take(2) == "0X"@) {
        match parse_uint(s.skip(2), 16, 255) {
            Ok(v) => Ok(v as u8),
            Err(k) => Err("invalid hex: "@ + int_error_message(k)),
        }
    } else {
        match parse_uint(s, 10, 255) {
            Ok(v) => Ok(v as u8),
            Err(k) => Err("invalid number: "@ + int_error_message(k)),
        }
    }
}

/// Parses a report index argument.
pub fn parse_u8(s: &str) -> (r: Result<u8, String>)
    ensures
        match spec_parse_u8(s@) {
            Ok(v) => r == Ok::<u8, String>(v),
            Err(e) => r matches Err(m) && m@ == e,
        },
{
    proof {
        reveal_strlit("0x");
        reveal_strlit("0X");
    }
    if str_starts_with(s, "0x") || str_starts_with(s, "0X") {
        let hex = s.substring_char(2, s.unicode_len());
        assert(hex@ =~= s@.skip(2));
        match parse_uint_str(hex, 16, 255) {
            Ok(v) => Ok(v as u8),
            Err(k) => {
                let mut m = String::new();
                m.append("invalid hex: ");
                m.append(int_error_text(k));
                Err(m)
            },
        }
    } else {
        match parse_uint_str(s, 10, 255) {
            Ok(v) => Ok(v as u8),
            Err(k) => {
                let mut m = String::new();
                m.append("invalid number: ");
                m.append(int_error_text(k));
                Err(m)
            },
        }
    }
}

/// Name of register bit `k` in change descriptions.
pub open spec fn bit_name(k: int) -> Seq<char> {
    if k == 0 {
        "beeper_on"@
    } else if k == 1 {
        "shutdown_active"@
    } else if k == 2 {
        "test_in_progress"@
    } else if k == 3 {
        "offline"@
    } else if k == 4 {
        "ups_fault"@
    } else if k == 5 {
        "bypass_boost"@
    } else if k == 6 {
        "battery_low"@
    } else {
        "utility_fail"@
    }
}

fn bit_name_text(k: u8) -> (s: &'static str)
    ensures
        s@ == bit_name(k as int),
{
    if k == 0 {
        "beeper_on"
    } else if k == 1 {
        "shutdown_active"
    } else if k == 2 {
        "test_in_progress"
    } else if k == 3 {
        "offline"
    } else if k == 4 {
        "ups_fault"
    } else if k == 5 {
        "bypass_boost"
    } else if k == 6 {
        "battery_low"
    } else {
        "utility_fail"
    }
}

/// Bit `k` of `r` (0 or 1).
pub open spec fn bit_of(r: u8, k: u8) -> u8 {
    (r >> k) & 1u8
}

/// `name old→new` for a flipped bit.
pub open spec fn bit_change(prev: u8, cur: u8, k: u8) -> Seq<char> {
    bit_name(k as int) + seq![' ', (bit_of(prev, k) + 48) as char, '\u{2192}', (bit_of(cur, k) + 48) as char]
}

/// The changes of bits `0..k`, joined by `, `.
pub open spec fn bit_changes(prev: u8, cur: u8, k: u8) -> Seq<char>
    decreases k,
{
    if k == 0 {
        Seq::empty()
    } else {
        let before = bit_changes(prev, cur, (k - 1) as u8);
        if bit_of(prev, (k - 1) as u8) == bit_of(cur, (k - 1) as u8) {
            before
        } else if before.len() == 0 {
            bit_change(prev, cur, (k - 1) as u8)
        } else {
            before + ", "@ + bit_change(prev, cur, (k - 1) as u8)
        }
    }
}

/// What `watch` appends to a sample whose register changed: nothing for the
/// first sample or an unchanged register, else `  [changes]`.
pub open spec fn spec_bit_diff(prev: Option<u8>, cur: u8) -> Seq<char> {
    match prev {
        None => Seq::empty(),
        Some(p) => if p == cur {
            Seq::empty()
        } else {
            "  ["@ + bit_changes(p, cur, 8) + "]"@
        },
    }
}

/// Describes which register bits flipped, e.g. `  [utility_fail 0→1]`.
pub fn bit_diff(prev: Option<u8>, cur: u8) -> (s: String)
    ensures
        s@ == spec_bit_diff(prev, cur),
{
    let prev = match prev {
        None => {
            return String::new();
        },
        Some(p) => p,
    };
    if prev == cur {
        return String::new();
    }
    let mut parts = String::new();
    let mut bit: u8 = 0;
    while bit < 8
        invariant
            bit <= 8,
            parts@ == bit_changes(prev, cur, bit),
        decreases 8 - bit,
    {
        let old = (prev >> bit) & 1;
        let new = (cur >> bit) & 1;
        assert(old <= 1 && new <= 1) by (bit_vector)
            requires
                old == (prev >> bit) & 1u8,
                new == (cur >> bit) & 1u8,
        ;
        if old != new {
            let ghost before = parts@;
            if parts.as_str().unicode_len() > 0 {
                parts.append(", ");
            }
            parts.append(bit_name_text(bit));
            push_char(&mut parts, ' ');
            push_char(&mut parts, (old + 48) as char);
            push_char(&mut parts, '\u{2192}');
            push_char(&mut parts, (new + 48) as char);
            assert(parts@ =~= bit_changes(prev, cur, (bit + 1) as u8));
        }
        bit = bit + 1;
    }
    let mut s = String::new();
    s.append("  [");
    s.append(parts.as_str());
    s.append("]");
    s
}

} // verus!
