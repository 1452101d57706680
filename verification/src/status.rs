//! The 8-bit status register that the live-readings reports carry.

use vstd::prelude::*;

verus! {

/// Decoded status register (bit 0 is `beeper_on`, bit 7 `utility_fail`).
#[derive(Clone, Copy, Debug, PartialEq, Eq, Structural)]
pub struct StatusFlags {
    /// Bit 0: the beeper is active.
    pub beeper_on: bool,
    /// Bit 1: a shutdown countdown is in progress.
    pub shutdown_active: bool,
    /// Bit 2: a battery self-test is running.
    pub test_in_progress: bool,
    /// Bit 3: line-interactive (offline) topology; not "on battery".
    pub offline: bool,
    /// Bit 4: internal fault.
    pub ups_fault: bool,
    /// Bit 5: bypass or boost mode.
    pub bypass_or_boost: bool,
    /// Bit 6: battery critically low.
    pub battery_low: bool,
    /// Bit 7: mains failed, running on battery.
    pub utility_fail: bool,
}

/// The flags that register `reg` encodes (bit 0 first).
pub open spec fn spec_from_register(reg: u8) -> StatusFlags {
    StatusFlags {
        beeper_on: reg & 1u8 == 1u8,
        shutdown_active: (reg >> 1u8) & 1u8 == 1u8,
        test_in_progress: (reg >> 2u8) & 1u8 == 1u8,
        offline: (reg >> 3u8) & 1u8 == 1u8,
        ups_fault: (reg >> 4u8) & 1u8 == 1u8,
        bypass_or_boost: (reg >> 5u8) & 1u8 == 1u8,
        battery_low: (reg >> 6u8) & 1u8 == 1u8,
        utility_fail: (reg >> 7u8) & 1u8 == 1u8,
    }
}

/// The register whose bits are the given flags, bit 0 first.
pub open spec fn bits_to_register(
    b0: bool,
    b1: bool,
    b2: bool,
    b3: bool,
    b4: bool,
    b5: bool,
    b6: bool,
    b7: bool,
) -> u8 {
    (if b0 { 1u8 } else { 0u8 }) | (if b1 { 2u8 } else { 0u8 }) | (if b2 { 4u8 } else { 0u8 }) | (
    if b3 { 8u8 } else { 0u8 }) | (if b4 { 16u8 } else { 0u8 }) | (if b5 { 32u8 } else { 0u8 }) | (
    if b6 { 64u8 } else { 0u8 }) | (if b7 { 128u8 } else { 0u8 })
}

/// The register that encodes `f`.
pub open spec fn spec_register(f: StatusFlags) -> u8 {
    bits_to_register(
        f.beeper_on,
        f.shutdown_active,
        f.test_in_progress,
        f.offline,
        f.ups_fault,
        f.bypass_or_boost,
        f.battery_low,
        f.utility_fail,
    )
}

impl StatusFlags {
    /// Decodes a status register.
    pub fn from_register(reg: u8) -> (f: Self)
        ensures
            f == spec_from_register(reg),
    {
        StatusFlags {
            beeper_on: reg & 1 == 1,
            shutdown_active: (reg >> 1u8) & 1 == 1,
            test_in_progress: (reg >> 2u8) & 1 == 1,
            offline: (reg >> 3u8) & 1 == 1,
            ups_fault: (reg >> 4u8) & 1 == 1,
            bypass_or_boost: (reg >> 5u8) & 1 == 1,
            battery_low: (reg >> 6u8) & 1 == 1,
            utility_fail: (reg >> 7u8) & 1 == 1,
        }
    }

    /// Rebuilds the raw register from the flags.
    pub fn register_byte(&self) -> (reg: u8)
        ensures
            reg == spec_register(*self),
    {
        (if self.beeper_on { 1u8 } else { 0u8 }) | (if self.shutdown_active { 2u8 } else { 0u8 }) | (
        if self.test_in_progress { 4u8 } else { 0u8 }) | (if self.offline { 8u8 } else { 0u8 }) | (
        if self.ups_fault { 16u8 } else { 0u8 }) | (if self.bypass_or_boost { 32u8 } else { 0u8 }) | (
        if self.battery_low { 64u8 } else { 0u8 }) | (if self.utility_fail { 128u8 } else { 0u8 })
    }
}

proof fn lemma_register_bits(reg: u8)
    by (bit_vector)
    ensures
        reg == (if reg & 1u8 == 1u8 { 1u8 } else { 0u8 }) | (if (reg >> 1u8) & 1u8 == 1u8 { 2u8 } else { 0u8 })
            | (if (reg >> 2u8) & 1u8 == 1u8 { 4u8 } else { 0u8 }) | (if (reg >> 3u8) & 1u8 == 1u8 { 8u8 } else { 0u8 })
            | (if (reg >> 4u8) & 1u8 == 1u8 { 16u8 } else { 0u8 }) | (if (reg >> 5u8) & 1u8 == 1u8 { 32u8 } else { 0u8 })
            | (if (reg >> 6u8) & 1u8 == 1u8 { 64u8 } else { 0u8 }) | (if (reg >> 7u8) & 1u8 == 1u8 { 128u8 } else { 0u8 }),
{
}

proof fn lemma_bits_decode(b0: bool, b1: bool, b2: bool, b3: bool, b4: bool, b5: bool, b6: bool, b7: bool, r: u8)
    by (bit_vector)
    requires
        r == (if b0 { 1u8 } else { 0u8 }) | (if b1 { 2u8 } else { 0u8 }) | (if b2 { 4u8 } else { 0u8 })
            | (if b3 { 8u8 } else { 0u8 }) | (if b4 { 16u8 } else { 0u8 }) | (if b5 { 32u8 } else { 0u8 })
            | (if b6 { 64u8 } else { 0u8 }) | (if b7 { 128u8 } else { 0u8 }),
    ensures
        (r & 1u8 == 1u8) == b0,
        ((r >> 1u8) & 1u8 == 1u8) == b1,
        ((r >> 2u8) & 1u8 == 1u8) == b2,
        ((r >> 3u8) & 1u8 == 1u8) == b3,
        ((r >> 4u8) & 1u8 == 1u8) == b4,
        ((r >> 5u8) & 1u8 == 1u8) == b5,
        ((r >> 6u8) & 1u8 == 1u8) == b6,
        ((r >> 7u8) & 1u8 == 1u8) == b7,
{
}

/// Rebuilding the register from its decoded flags gives the register back.
pub proof fn law_register_round_trip(reg: u8)
    ensures
        spec_register(spec_from_register(reg)) == reg,
{
    lemma_register_bits(reg);
}

/// Decoding the register built from some flags gives the same flags.
pub proof fn law_flags_round_trip(f: StatusFlags)
    ensures
        spec_from_register(spec_register(f)) == f,
{
    lemma_bits_decode(
        f.beeper_on,
        f.shutdown_active,
        f.test_in_progress,
        f.offline,
        f.ups_fault,
        f.bypass_or_boost,
        f.battery_low,
        f.utility_fail,
        spec_register(f),
    );
}

} // verus!
