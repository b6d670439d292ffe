//! A snapshot of a transfer's progress, and what follows from it: the bytes
//! that remain, the part that is done, the rates, and the time at which the
//! transfer should end.
//!
//! Times are readings of a monotonic clock, in nanoseconds from an origin
//! that the caller has chosen. The snapshot holds two of them; the time at
//! which a metric is asked for is handed in.

use vstd::prelude::*;
use crate::arith::{capped, mul_div, mul_div_capped};
use crate::human_bytes::{Fraction, BYTES_LIMIT, NANOS_PER_SECOND};

verus! {

/// The nanoseconds from `from` to `now`; none where `now` is the earlier.
pub open spec fn elapsed(from: u64, now: u64) -> nat {
    if now >= from {
        (now - from) as nat
    } else {
        0
    }
}

/// The rate at which `bytes` bytes went by in `nanos` nanoseconds, in whole
/// bytes per second, rounded down and capped at `u128::MAX`. Over no time at
/// all the rate is 0.
pub open spec fn rate(bytes: u128, nanos: nat) -> u128 {
    if nanos == 0 {
        0
    } else {
        capped(mul_div(bytes as nat, NANOS_PER_SECOND as nat, nanos))
    }
}

/// The nanoseconds that `bytes` bytes take at the rate at which `moved`
/// bytes went by in `nanos` nanoseconds, rounded down and capped at
/// `u128::MAX`.
pub open spec fn time_for(bytes: u128, moved: u128, nanos: nat) -> u128
    recommends
        moved > 0,
{
    capped(mul_div(bytes as nat, nanos, moved as nat))
}

/// The progress of a transfer at one point in time.
#[derive(Clone, Copy, Debug, PartialEq, Eq)]
pub struct ProgressStats {
    /// The bytes moved since the transfer began.
    pub bytes_processed: u128,
    /// The bytes that the transfer is expected to move, where that is known.
    /// A size of zero stands for an unknown one.
    pub expected_size: Option<u128>,
    /// When the transfer began.
    pub start_time: u64,
    /// When progress was last shown; the start, before the first time.
    pub last_display: u64,
    /// The bytes moved since progress was last shown.
    pub bytes_processed_since_last_display: u128,
}

impl ProgressStats {
    /// What holds of every snapshot that a transfer gives: no more bytes
    /// since the last display than in all, and no display before the start.
    pub open spec fn wf(&self) -> bool {
        &&& self.bytes_processed_since_last_display <= self.bytes_processed
        &&& self.start_time <= self.last_display
    }

    /// The expected size, where one is known: a size of zero is unknown.
    pub open spec fn known_size(&self) -> Option<u128> {
        match self.expected_size {
            Some(size) if size > 0 => Some(size),
            _ => None,
        }
    }

    /// The bytes that are still to come: none where more were moved than
    /// expected.
    pub open spec fn remaining_bytes_spec(&self) -> Option<u128> {
        match self.known_size() {
            Some(size) => Some(
                if size >= self.bytes_processed {
                    (size - self.bytes_processed) as u128
                } else {
                    0
                },
            ),
            None => None,
        }
    }

    /// The part of the expected size that is done.
    pub open spec fn progress_percentage_spec(&self) -> Option<Fraction> {
        match self.known_size() {
            Some(size) => Some(Fraction { numerator: self.bytes_processed, denominator: size }),
            None => None,
        }
    }

    /// The rate since progress was last shown, at the time `now`.
    pub open spec fn transfer_rate_spec(&self, now: u64) -> u128 {
        rate(self.bytes_processed_since_last_display, elapsed(self.last_display, now))
    }

    /// The rate since the start, at the time `now`.
    pub open spec fn average_transfer_rate_spec(&self, now: u64) -> u128 {
        rate(self.bytes_processed, elapsed(self.start_time, now))
    }

    /// Whether the rate since progress was last shown is above zero at the
    /// time `now`: bytes went by since then, and time has. Bytes that go by
    /// at less than one a second are moving, though `transfer_rate`, in
    /// whole bytes per second, is 0 for them.
    pub open spec fn moving(&self, now: u64) -> bool {
        self.bytes_processed_since_last_display > 0 && elapsed(self.last_display, now) > 0
    }

    /// The time at which the remaining bytes are through, if the rate at the
    /// time `now` holds: the last display and the time that they take at
    /// the rate since then, capped at `u64::MAX`. With nothing remaining, or
    /// at no rate, it is the last display.
    pub open spec fn eta_spec(&self, now: u64) -> Option<u64> {
        match self.remaining_bytes_spec() {
            Some(remaining) => {
                if remaining > 0 && self.moving(now) {
                    let end = self.last_display + time_for(
                        remaining,
                        self.bytes_processed_since_last_display,
                        elapsed(self.last_display, now),
                    );
                    Some(
                        if end > u64::MAX {
                            u64::MAX
                        } else {
                            end as u64
                        },
                    )
                } else {
                    Some(self.last_display)
                }
            },
            None => None,
        }
    }

    /// The nanoseconds from `now` to the estimated end; negative where the
    /// estimate lies in the past.
    pub open spec fn time_remaining_spec(&self, now: u64) -> Option<int> {
        match self.eta_spec(now) {
            Some(eta) => Some(eta - now),
            None => None,
        }
    }

    /// Whether the byte counts can be shown: the bytes moved, and the
    /// expected size where it is known, are below `BYTES_LIMIT`.
    pub open spec fn counts_showable(&self) -> bool {
        &&& self.bytes_processed < BYTES_LIMIT
        &&& self.known_size() matches Some(size) ==> size < BYTES_LIMIT
    }

    /// The nanoseconds from the start to `now`.
    pub open spec fn elapsed_spec(&self, now: u64) -> nat {
        elapsed(self.start_time, now)
    }

    /// The expected size, where one is known: a size of zero is unknown.
    pub fn size(&self) -> (size: Option<u128>)
        ensures
            size == self.known_size(),
    {
        match self.expected_size {
            Some(size) => if size > 0 {
                Some(size)
            } else {
                None
            },
            None => None,
        }
    }

    /// Whether the byte counts can be shown.
    pub fn has_showable_counts(&self) -> (showable: bool)
        ensures
            showable == self.counts_showable(),
    {
        self.bytes_processed < BYTES_LIMIT && match self.size() {
            Some(size) => size < BYTES_LIMIT,
            None => true,
        }
    }

    /// The nanoseconds from the start to `now`; none where `now` is the
    /// earlier.
    pub fn elapsed(&self, now: u64) -> (nanos: u64)
        ensures
            nanos == self.elapsed_spec(now),
    {
        now.saturating_sub(self.start_time)
    }

    /// The bytes that are still to come, where the size is known; none where
    /// more were moved than expected.
    pub fn remaining_bytes(&self) -> (remaining: Option<u128>)
        ensures
            remaining == self.remaining_bytes_spec(),
            self.expected_size is None ==> remaining is None,
    {
        match self.size() {
            Some(size) => Some(size.saturating_sub(self.bytes_processed)),
            None => None,
        }
    }

    /// The part of the expected size that is done, where the size is known.
    /// It is above one where more bytes were moved than expected.
    pub fn progress_percentage(&self) -> (percentage: Option<Fraction>)
        ensures
            percentage == self.progress_percentage_spec(),
            self.expected_size is None ==> percentage is None,
            percentage matches Some(p) ==> p.denominator > 0,
    {
        match self.size() {
            Some(size) => Some(Fraction { numerator: self.bytes_processed, denominator: size }),
            None => None,
        }
    }

    /// The rate since progress was last shown, in bytes per second, at the
    /// time `now`; 0 where no time has gone by.
    pub fn transfer_rate(&self, now: u64) -> (rate: u128)
        ensures
            rate == self.transfer_rate_spec(now),
    {
        rate_over(self.bytes_processed_since_last_display, now.saturating_sub(self.last_display))
    }

    /// The rate since the start, in bytes per second, at the time `now`; 0
    /// where no time has gone by.
    pub fn average_transfer_rate(&self, now: u64) -> (rate: u128)
        ensures
            rate == self.average_transfer_rate_spec(now),
    {
        rate_over(self.bytes_processed, now.saturating_sub(self.start_time))
    }

    /// The time at which the transfer ends if the rate at the time `now`
    /// holds, where the size is known: the last display, and the time that
    /// the remaining bytes take at the rate since then, taken exactly and
    /// not in whole bytes per second. With nothing left to move, or at no
    /// rate, it is the time of the last display.
    pub fn eta(&self, now: u64) -> (eta: Option<u64>)
        ensures
            eta == self.eta_spec(now),
            self.expected_size is None ==> eta is None,
            self.known_size() is Some && !self.moving(now) ==> eta == Some(self.last_display),
    {
        match self.remaining_bytes() {
            Some(remaining) => {
                let nanos = now.saturating_sub(self.last_display);
                let moved = self.bytes_processed_since_last_display;
                if remaining > 0 && moved > 0 && nanos > 0 {
                    let needed = mul_div_capped(remaining, nanos, moved);
                    if needed > (u64::MAX - self.last_display) as u128 {
                        Some(u64::MAX)
                    } else {
                        Some(self.last_display + needed as u64)
                    }
                } else {
                    Some(self.last_display)
                }
            },
            None => None,
        }
    }

    /// The nanoseconds from `now` to the estimated end, where the size is
    /// known. It is negative where the estimate lies in the past: what shows
    /// it takes 0 then.
    pub fn time_remaining(&self, now: u64) -> (remaining: Option<i128>)
        ensures
            remaining matches Some(nanos) ==> self.time_remaining_spec(now) == Some(nanos as int),
            remaining is None ==> self.time_remaining_spec(now) is None,
            self.expected_size is None ==> remaining is None,
    {
        match self.eta(now) {
            Some(eta) => Some(eta as i128 - now as i128),
            None => None,
        }
    }
}

/// The rate at which `bytes` bytes went by in `nanos` nanoseconds, in whole
/// bytes per second.
pub fn rate_over(bytes: u128, nanos: u64) -> (r: u128)
    ensures
        r == rate(bytes, nanos as nat),
{
    if nanos == 0 {
        0
    } else {
        mul_div_capped(bytes, NANOS_PER_SECOND, nanos as u128)
    }
}

/// Without a rate there is no forecast: where the size is known and, at
/// the time `now`, no byte or no time has gone by since progress was last
/// shown, the rate is 0 and the estimated end is the time of the last
/// display.
pub proof fn lemma_eta_without_rate(stats: ProgressStats, now: u64)
    requires
        stats.known_size() is Some,
        !stats.moving(now),
    ensures
        stats.transfer_rate_spec(now) == 0,
        stats.eta_spec(now) == Some(stats.last_display),
        stats.time_remaining_spec(now) == Some(stats.last_display - now),
{
    let nanos = elapsed(stats.last_display, now);
    if nanos > 0 {
        assert(stats.bytes_processed_since_last_display == 0);
        assert(mul_div(0, NANOS_PER_SECOND as nat, nanos) == 0) by (nonlinear_arith)
            requires
                nanos > 0,
        ;
    }
}

/// A rate of at least one byte per second is a rate above zero: where
/// `transfer_rate` is not 0, bytes are moving.
pub proof fn lemma_rate_means_moving(stats: ProgressStats, now: u64)
    requires
        stats.transfer_rate_spec(now) > 0,
    ensures
        stats.moving(now),
{
    if !stats.moving(now) {
        let nanos = elapsed(stats.last_display, now);
        if nanos > 0 {
            assert(mul_div(0, NANOS_PER_SECOND as nat, nanos) == 0) by (nonlinear_arith)
                requires
                    nanos > 0,
            ;
        }
    }
}

/// Without an expected size nothing is known of the end: no remaining
/// bytes, no part done, no estimated end and no time to it.
pub proof fn lemma_unknown_size(stats: ProgressStats, now: u64)
    requires
        stats.expected_size is None,
    ensures
        stats.remaining_bytes_spec() is None,
        stats.progress_percentage_spec() is None,
        stats.eta_spec(now) is None,
        stats.time_remaining_spec(now) is None,
{
}

} // verus!
