use vstd::prelude::*;
use crate::stealth::entropy::EntropySource;

verus! {

/// Whether an interval suits a session lifetime drawn between the two bounds, in seconds.
///
/// The draw spans at most 65535 seconds above the lower bound.
pub open spec fn rotation_interval_fits(min_secs: u32, max_secs: u32, interval_ms: u64) -> bool {
    if max_secs > min_secs {
        &&& interval_ms % 1000 == 0
        &&& min_secs * 1000 <= interval_ms
        &&& interval_ms <= (min_secs + (max_secs - min_secs) % 65536) * 1000
    } else {
        interval_ms == min_secs * 1000
    }
}

/// The longest interval a lifetime between the two bounds can give.
pub open spec fn longest_interval(min_secs: u32, max_secs: u32) -> int {
    if max_secs > min_secs {
        max_secs * 1000
    } else {
        min_secs * 1000
    }
}

/// Decides when a session has lived long enough to be replaced by a new one.
pub struct SessionRotator {
    entropy: EntropySource,
    rotation_interval_ms: u64,
    session_started_at_ms: u64,
    next_rotation_at_ms: u64,
    rotations: u32,
}

impl SessionRotator {
    /// How long the current session is to last.
    pub closed spec fn spec_interval(&self) -> u64 {
        self.rotation_interval_ms
    }

    /// When the current session started.
    pub closed spec fn spec_started_at(&self) -> u64 {
        self.session_started_at_ms
    }

    /// When the current session is due to be replaced.
    pub closed spec fn spec_next_rotation(&self) -> u64 {
        self.next_rotation_at_ms
    }

    /// How many sessions have been replaced so far.
    pub closed spec fn spec_rotations(&self) -> u32 {
        self.rotations
    }

    /// A lifetime in milliseconds drawn between the bounds, in whole seconds.
    fn draw_interval(entropy: &mut EntropySource, min_secs: u32, max_secs: u32) -> (r: u64)
        ensures
            rotation_interval_fits(min_secs, max_secs, r),
            r <= longest_interval(min_secs, max_secs),
    {
        let lifetime_secs: u32 = if max_secs > min_secs {
            let span: u16 = ((max_secs - min_secs) % 65536) as u16;
            let extra = entropy.random_in_range(0, span);
            min_secs + extra as u32
        } else {
            min_secs
        };
        (lifetime_secs as u64) * 1000
    }

    /// A rotator whose first session starts at time zero.
    pub fn new(min_lifetime_secs: u32, max_lifetime_secs: u32) -> (r: Self)
        ensures
            rotation_interval_fits(min_lifetime_secs, max_lifetime_secs, r.spec_interval()),
            r.spec_started_at() == 0,
            r.spec_next_rotation() == r.spec_interval(),
            r.spec_rotations() == 0,
    {
        let mut entropy = EntropySource::new();
        let rotation_interval_ms = Self::draw_interval(
            &mut entropy,
            min_lifetime_secs,
            max_lifetime_secs,
        );
        SessionRotator {
            entropy,
            rotation_interval_ms,
            session_started_at_ms: 0,
            next_rotation_at_ms: rotation_interval_ms,
            rotations: 0,
        }
    }

    /// Starts the current session at `now_ms`.
    pub fn start(&mut self, now_ms: u64)
        requires
            now_ms + old(self).spec_interval() <= u64::MAX,
        ensures
            final(self).spec_interval() == old(self).spec_interval(),
            final(self).spec_started_at() == now_ms,
            final(self).spec_next_rotation() == now_ms + old(self).spec_interval(),
            final(self).spec_rotations() == old(self).spec_rotations(),
    {
        self.session_started_at_ms = now_ms;
        self.next_rotation_at_ms = now_ms + self.rotation_interval_ms;
    }

    /// Whether the current session is due to be replaced at `now_ms`.
    pub fn should_rotate(&self, now_ms: u64) -> (r: bool)
        ensures
            r == (now_ms >= self.spec_next_rotation()),
    {
        now_ms >= self.next_rotation_at_ms
    }

    /// Records that the session was replaced at `now_ms`, and draws the new one's lifetime.
    pub fn on_rotated(&mut self, now_ms: u64, min_lifetime_secs: u32, max_lifetime_secs: u32)
        requires
            old(self).spec_rotations() < u32::MAX,
            now_ms + longest_interval(min_lifetime_secs, max_lifetime_secs) <= u64::MAX,
        ensures
            final(self).spec_rotations() == old(self).spec_rotations() + 1,
            final(self).spec_started_at() == now_ms,
            rotation_interval_fits(min_lifetime_secs, max_lifetime_secs, final(self).spec_interval()),
            final(self).spec_next_rotation() == now_ms + final(self).spec_interval(),
    {
        self.rotations = self.rotations + 1;
        self.session_started_at_ms = now_ms;
        let interval = Self::draw_interval(&mut self.entropy, min_lifetime_secs, max_lifetime_secs);
        self.rotation_interval_ms = interval;
        self.next_rotation_at_ms = now_ms + interval;
    }

    pub fn rotation_count(&self) -> (r: u32)
        ensures
            r == self.spec_rotations(),
    {
        self.rotations
    }

    /// How long the current session has lasted at `now_ms`; zero before it started.
    pub fn session_age_ms(&self, now_ms: u64) -> (r: u64)
        ensures
            r == if now_ms >= self.spec_started_at() {
                now_ms - self.spec_started_at()
            } else {
                0
            },
    {
        now_ms.saturating_sub(self.session_started_at_ms)
    }
}

} // verus!
