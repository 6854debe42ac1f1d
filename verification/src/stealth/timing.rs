use vstd::prelude::*;
use crate::config::profiles::StealthProfile;

verus! {

/// Adds profile jitter to the delay before a packet is sent.
#[derive(Debug, Clone, Copy, PartialEq, Eq)]
pub struct TimingShaper {
    min_jitter_ms: u16,
    max_jitter_ms: u16,
}

/// `a + b`, held at `u64::MAX` where it would exceed it.
pub open spec fn sat_add(a: u64, b: int) -> u64 {
    if a + b > u64::MAX {
        u64::MAX
    } else {
        (a + b) as u64
    }
}

/// The packet size, in bytes, from which a packet gets the whole jitter range: that of a
/// full Ethernet frame.
pub const FULL_JITTER_SIZE: usize = 1500;

/// The packet size that counts for jitter: the size, capped at `FULL_JITTER_SIZE`.
pub open spec fn jitter_size(packet_size: usize) -> int {
    if packet_size < FULL_JITTER_SIZE {
        packet_size as int
    } else {
        FULL_JITTER_SIZE as int
    }
}

/// The jitter a packet of this size receives: `min` plus the share of the span that the
/// packet's size is of a full frame, rounded down, so that larger packets never wait less;
/// `min` when the span is empty.
pub open spec fn jitter_for(min: u16, max: u16, packet_size: usize) -> int {
    if max <= min {
        min as int
    } else {
        min + (max - min) * jitter_size(packet_size) / (FULL_JITTER_SIZE as int)
    }
}

/// The delay that `shape_delay_ms` gives.
pub open spec fn shaped_delay(min: u16, max: u16, base: u64, packet_size: usize) -> u64 {
    sat_add(base, jitter_for(min, max, packet_size))
}

/// Whether a delay lies within the base delay plus the jitter range, saturating.
pub open spec fn delay_within(min: u16, max: u16, delay: u64, base: u64) -> bool {
    sat_add(base, min as int) <= delay <= sat_add(base, max as int)
}

impl TimingShaper {
    pub closed spec fn spec_min(&self) -> u16 {
        self.min_jitter_ms
    }

    pub closed spec fn spec_max(&self) -> u16 {
        self.max_jitter_ms
    }

    pub fn from_profile(profile: &StealthProfile) -> (r: Self)
        ensures
            r.spec_min() == profile.min_jitter_ms,
            r.spec_max() == profile.max_jitter_ms,
    {
        TimingShaper { min_jitter_ms: profile.min_jitter_ms, max_jitter_ms: profile.max_jitter_ms }
    }

    /// The base delay plus the jitter for a packet of this size, held at `u64::MAX`.
    pub fn shape_delay_ms(&self, base_delay_ms: u64, packet_size: usize) -> (r: u64)
        ensures
            r == shaped_delay(self.spec_min(), self.spec_max(), base_delay_ms, packet_size),
    {
        let jitter: u64 = if self.max_jitter_ms <= self.min_jitter_ms {
            self.min_jitter_ms as u64
        } else {
            let span: u64 = (self.max_jitter_ms - self.min_jitter_ms) as u64;
            let size: u64 = if packet_size < FULL_JITTER_SIZE {
                packet_size as u64
            } else {
                FULL_JITTER_SIZE as u64
            };
            proof {
                lemma_share_bounds(span as int, size as int);
            }
            self.min_jitter_ms as u64 + span * size / (FULL_JITTER_SIZE as u64)
        };
        base_delay_ms.saturating_add(jitter)
    }

    pub fn is_within_bounds(&self, delay_ms: u64, base_delay_ms: u64) -> (r: bool)
        ensures
            r == delay_within(self.spec_min(), self.spec_max(), delay_ms, base_delay_ms),
    {
        let min = base_delay_ms.saturating_add(self.min_jitter_ms as u64);
        let max = base_delay_ms.saturating_add(self.max_jitter_ms as u64);
        min <= delay_ms && delay_ms <= max
    }
}

/// The share of a span that a size of at most a full frame is: between nothing and the span.
proof fn lemma_share_bounds(span: int, size: int)
    requires
        0 <= span <= 65535,
        0 <= size <= 1500,
    ensures
        0 <= span * size <= 65535 * 1500,
        0 <= span * size / 1500 <= span,
{
    assert(0 <= span * size <= span * 1500) by (nonlinear_arith)
        requires
            0 <= span <= 65535,
            0 <= size <= 1500,
    ;
    assert(span * size <= 65535 * 1500) by (nonlinear_arith)
        requires
            0 <= span <= 65535,
            0 <= size <= 1500,
    ;
    assert(span * size / 1500 <= span) by (nonlinear_arith)
        requires
            0 <= span * size <= span * 1500,
            0 <= span,
    ;
}

/// For a jitter range that is not inverted, every shaped delay lies within the bounds
/// that `is_within_bounds` checks.
pub proof fn lemma_shaped_delay_within_bounds(min: u16, max: u16, base: u64, packet_size: usize)
    requires
        min <= max,
    ensures
        delay_within(min, max, shaped_delay(min, max, base, packet_size), base),
{
    if max > min {
        lemma_share_bounds(max - min, jitter_size(packet_size));
    }
}

/// Jitter only ever adds: a shaped delay is never shorter than the base delay.
pub proof fn lemma_shaped_delay_not_below_base(min: u16, max: u16, base: u64, packet_size: usize)
    ensures
        shaped_delay(min, max, base, packet_size) >= base,
{
    if max > min {
        lemma_share_bounds(max - min, jitter_size(packet_size));
    }
}

/// A larger packet never waits less than a smaller one after the same base delay.
pub proof fn lemma_shaped_delay_monotone(min: u16, max: u16, base: u64, smaller: usize, larger: usize)
    requires
        smaller <= larger,
    ensures
        shaped_delay(min, max, base, smaller) <= shaped_delay(min, max, base, larger),
{
    if max > min {
        let span = max - min;
        let a = jitter_size(smaller);
        let b = jitter_size(larger);
        lemma_share_bounds(span, a);
        lemma_share_bounds(span, b);
        assert(span * a <= span * b) by (nonlinear_arith)
            requires
                0 <= span,
                a <= b,
        ;
        vstd::arithmetic::div_mod::lemma_div_is_ordered(span * a, span * b, 1500);
    }
}

} // verus!
