use vstd::prelude::*;
use crate::crypto::rng::{fill_random_bytes, next_u32, next_u64, os_seeded_rng, SeededRng};

verus! {

/// The number that a random word `raw` picks from `min` to `max`, both included: `min` plus
/// `raw` modulo the size of the range; `min` itself when the range is empty.
pub open spec fn range_pick(min: u16, max: u16, raw: u32) -> int {
    if min >= max {
        min as int
    } else {
        min + (raw as int) % (max - min + 1)
    }
}

/// The delay that a random word `raw` picks from `min_us` to `max_us`, both included:
/// `min_us` plus `raw` modulo the size of the range; `min_us` itself when it is empty.
pub open spec fn delay_pick(min_us: u64, max_us: u64, raw: u64) -> int {
    if min_us >= max_us {
        min_us as int
    } else {
        min_us + (raw as int) % (max_us - min_us + 1)
    }
}

/// The number from `min` to `max` that the random word `raw` picks.
pub fn value_in_range(min: u16, max: u16, raw: u32) -> (r: u16)
    ensures
        r == range_pick(min, max, raw),
        min >= max ==> r == min,
        min < max ==> min <= r <= max,
{
    if min >= max {
        return min;
    }
    let range: u32 = (max - min) as u32 + 1;
    min + (raw % range) as u16
}

/// The delay from `min_us` to `max_us` that the random word `raw` picks.
pub fn delay_in_range(min_us: u64, max_us: u64, raw: u64) -> (r: u64)
    requires
        !(min_us == 0 && max_us == u64::MAX),
    ensures
        r == delay_pick(min_us, max_us, raw),
        min_us >= max_us ==> r == min_us,
        min_us < max_us ==> min_us <= r <= max_us,
{
    if min_us >= max_us {
        return min_us;
    }
    let range = max_us - min_us + 1;
    min_us + (raw % range)
}

/// A source of random bytes and numbers for shaping traffic.
pub struct EntropySource {
    rng: SeededRng,
}

impl EntropySource {
    /// A source whose generator is seeded with `os_seed`.
    pub fn new() -> Self {
        EntropySource { rng: os_seeded_rng() }
    }

    /// Overwrites the buffer with random bytes.
    pub fn fill_padding(&mut self, buf: &mut [u8])
        ensures
            final(buf)@.len() == old(buf)@.len(),
    {
        fill_random_bytes(&mut self.rng, buf);
    }

    /// The random word a pick from `min` to `max` needs: none (zero) where the range is
    /// empty, the next word of the generator otherwise.
    pub fn range_word(&mut self, min: u16, max: u16) -> (raw: u32)
        ensures
            min >= max ==> raw == 0,
    {
        if min >= max {
            0
        } else {
            next_u32(&mut self.rng)
        }
    }

    /// The random word a delay from `min_us` to `max_us` needs: none (zero) where the range
    /// is empty, the next two words of the generator otherwise.
    pub fn delay_word(&mut self, min_us: u64, max_us: u64) -> (raw: u64)
        ensures
            min_us >= max_us ==> raw == 0,
    {
        if min_us >= max_us {
            0
        } else {
            next_u64(&mut self.rng)
        }
    }

    /// A number from `min` to `max`, both included, picked by a random word; `min` itself
    /// when the range is empty.
    pub fn random_in_range(&mut self, min: u16, max: u16) -> (r: u16)
        ensures
            exists|raw: u32| r == #[trigger] range_pick(min, max, raw),
            min >= max ==> r == min,
            min < max ==> min <= r <= max,
    {
        let raw = self.range_word(min, max);
        value_in_range(min, max, raw)
    }

    /// A delay from `min_us` to `max_us`, both included, picked by a random word; `min_us`
    /// itself when the range is empty.
    pub fn random_delay_us(&mut self, min_us: u64, max_us: u64) -> (r: u64)
        requires
            !(min_us == 0 && max_us == u64::MAX),
        ensures
            exists|raw: u64| r == #[trigger] delay_pick(min_us, max_us, raw),
            min_us >= max_us ==> r == min_us,
            min_us < max_us ==> min_us <= r <= max_us,
    {
        let raw = self.delay_word(min_us, max_us);
        delay_in_range(min_us, max_us, raw)
    }
}

} // verus!
