//! Decisions of `gcups watch`: which samples are printed, when polling stops,
//! how long to wait before the next poll, and the exit code it ends with.
//! The polling, the clock and the printing are the caller's.

use vstd::prelude::*;
use crate::status::{StatusFlags, spec_from_register};
use crate::cli::{spec_exit_code, status_exit_code};

verus! {

/// What `watch` remembers between polls.
#[derive(Clone, Copy, Debug, PartialEq, Eq, Structural)]
pub struct WatchState {
    /// Status register of the most recent successful reading.
    pub prev_reg: Option<u8>,
    /// Number of successful readings so far.
    pub polled: usize,
}

impl WatchState {
    /// Before the first poll: no reading yet.
    pub fn new() -> (s: Self)
        ensures
            s == (WatchState { prev_reg: None, polled: 0 }),
    {
        WatchState { prev_reg: None, polled: 0 }
    }

    /// Records one poll: `Some(reg)` is a reading whose status register is
    /// `reg`, `None` a sample that failed (it is skipped). The result says
    /// whether to print the reading: always, unless only changes are asked
    /// for; then the first reading and each whose register differs from the
    /// reading before it.
    pub fn record(&mut self, sample: Option<u8>, changes_only: bool) -> (print: bool)
        requires
            sample is Some ==> old(self).polled < usize::MAX,
        ensures
            match sample {
                None => *final(self) == *old(self) && !print,
                Some(reg) => final(self).prev_reg == Some(reg) && final(self).polled == old(
                    self,
                ).polled + 1 && print == (!changes_only || old(self).prev_reg != Some(reg)),
            },
    {
        match sample {
            None => false,
            Some(reg) => {
                let changed = match self.prev_reg {
                    None => true,
                    Some(p) => p != reg,
                };
                self.polled = self.polled + 1;
                self.prev_reg = Some(reg);
                !changes_only || changed
            },
        }
    }

    /// Whether polling ends after this poll: `count` readings were taken, or
    /// `duration` (in nanoseconds) has elapsed since the start.
    pub fn finished(&self, count: Option<usize>, duration: Option<u128>, elapsed: u128) -> (stop: bool)
        ensures
            stop == ((count matches Some(n) && self.polled >= n) || (duration matches Some(d)
                && elapsed >= d)),
    {
        let by_count = match count {
            Some(n) => self.polled >= n,
            None => false,
        };
        let by_time = match duration {
            Some(d) => elapsed >= d,
            None => false,
        };
        by_count || by_time
    }

    /// The exit code `watch` ends with: that of the most recent reading's
    /// status (as for a one-shot status), or 0 when no reading succeeded.
    pub fn exit_code(&self) -> (code: u8)
        ensures
            code == match self.prev_reg {
                Some(r) => spec_exit_code(spec_from_register(r)),
                None => 0u8,
            },
    {
        match self.prev_reg {
            Some(r) => status_exit_code(&StatusFlags::from_register(r)),
            None => 0,
        }
    }
}

/// The wait before the next poll, in nanoseconds: what is left of the
/// interval after the time this poll took, or nothing.
pub fn watch_wait(interval: u128, spent: u128) -> (w: u128)
    ensures
        w == if interval > spent {
            interval - spent
        } else {
            0
        },
{
    if interval > spent {
        interval - spent
    } else {
        0
    }
}

} // verus!
