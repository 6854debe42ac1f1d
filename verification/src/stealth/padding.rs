use vstd::prelude::*;
use crate::config::profiles::StealthProfile;
use crate::stealth::entropy::EntropySource;

verus! {

/// The way a packet travels.
#[derive(Debug, Clone, Copy, PartialEq, Eq, Structural)]
pub enum PacketDirection {
    Upload,
    Download,
}

/// Pads packets to profile sizes in blocks of 16 bytes, more for downloads than uploads.
#[derive(Debug, Clone, Copy, PartialEq, Eq)]
pub struct PaddingShaper {
    min_size: usize,
    max_size: usize,
    download_pad_pct: u8,
    upload_pad_pct: u8,
}

#[derive(Debug, Clone, Copy, PartialEq, Eq, Structural)]
pub enum PaddingError {
    PacketTooLarge,
}

/// `n` rounded up to a multiple of 16.
pub open spec fn round16(n: int) -> int {
    if n % 16 == 0 {
        n
    } else {
        n + (16 - n % 16)
    }
}

/// The size that a payload of `len` bytes is padded to, with `pct` percent extra.
pub open spec fn padded_len(len: int, min: int, max: int, pct: int) -> int {
    let base = round16(if len > min {
        len
    } else {
        min
    });
    let grown = if pct > 0 {
        round16(base + base * pct / 100)
    } else {
        base
    };
    if grown > max {
        max
    } else {
        grown
    }
}

impl PaddingShaper {
    #[verifier::type_invariant]
    spec fn inv(&self) -> bool {
        &&& self.min_size <= 65535
        &&& self.max_size <= 65535
        &&& self.download_pad_pct <= 100
        &&& self.upload_pad_pct <= 100
    }

    pub closed spec fn spec_min(&self) -> usize {
        self.min_size
    }

    pub closed spec fn spec_max(&self) -> usize {
        self.max_size
    }

    /// The extra percentage for a direction.
    pub closed spec fn spec_pct(&self, direction: PacketDirection) -> u8 {
        match direction {
            PacketDirection::Download => self.download_pad_pct,
            PacketDirection::Upload => self.upload_pad_pct,
        }
    }

    pub fn from_profile(profile: &StealthProfile) -> (r: Self)
        ensures
            r.spec_min() == profile.min_packet_size,
            r.spec_max() == profile.max_packet_size,
            r.spec_pct(PacketDirection::Download) == 60,
            r.spec_pct(PacketDirection::Upload) == 10,
    {
        PaddingShaper {
            min_size: profile.min_packet_size as usize,
            max_size: profile.max_packet_size as usize,
            download_pad_pct: 60,
            upload_pad_pct: 10,
        }
    }

    /// Pads an upload packet.
    pub fn shape(&self, payload: &[u8]) -> (r: Result<Vec<u8>, PaddingError>)
        ensures
            r is Ok <==> payload@.len() <= self.spec_max(),
            r matches Ok(v) ==> v@.len() == padded_len(
                payload@.len() as int,
                self.spec_min() as int,
                self.spec_max() as int,
                self.spec_pct(PacketDirection::Upload) as int,
            ) && v@.take(payload@.len() as int) == payload@,
            r matches Err(e) ==> e == PaddingError::PacketTooLarge,
    {
        self.shape_directed(payload, PacketDirection::Upload)
    }

    /// Pads a packet to the size for its direction; the payload stays at the front and the
    /// rest is random.
    pub fn shape_directed(&self, payload: &[u8], direction: PacketDirection) -> (r: Result<
        Vec<u8>,
        PaddingError,
    >)
        ensures
            r is Ok <==> payload@.len() <= self.spec_max(),
            r matches Ok(v) ==> v@.len() == padded_len(
                payload@.len() as int,
                self.spec_min() as int,
                self.spec_max() as int,
                self.spec_pct(direction) as int,
            ) && v@.take(payload@.len() as int) == payload@,
            r matches Err(e) ==> e == PaddingError::PacketTooLarge,
    {
        proof {
            use_type_invariant(self);
        }
        if payload.len() > self.max_size {
            return Err(PaddingError::PacketTooLarge);
        }
        let mut target_size = if payload.len() > self.min_size {
            payload.len()
        } else {
            self.min_size
        };
        if target_size % 16 != 0 {
            target_size = target_size + (16 - target_size % 16);
        }
        let extra_pct = match direction {
            PacketDirection::Download => self.download_pad_pct,
            PacketDirection::Upload => self.upload_pad_pct,
        };
        if extra_pct > 0 {
            assert(target_size * extra_pct <= 65550 * 100) by (nonlinear_arith)
                requires
                    target_size <= 65550,
                    extra_pct <= 100,
            ;
            let extra = target_size * (extra_pct as usize) / 100;
            assert(extra <= target_size) by (nonlinear_arith)
                requires
                    extra == target_size * (extra_pct as usize) / 100,
                    extra_pct <= 100,
            ;
            target_size = target_size + extra;
            if target_size % 16 != 0 {
                target_size = target_size + (16 - target_size % 16);
            }
        }
        if target_size > self.max_size {
            target_size = self.max_size;
        }
        if target_size < payload.len() {
            return Err(PaddingError::PacketTooLarge);
        }
        let mut shaped: Vec<u8> = Vec::new();
        let mut i: usize = 0;
        while i < payload.len()
            invariant
                i <= payload@.len(),
                shaped@ == payload@.take(i as int),
            decreases payload@.len() - i,
        {
            shaped.push(payload[i]);
            assert(payload@.take(i + 1) =~= payload@.take(i as int).push(payload@[i as int]));
            i = i + 1;
        }
        if shaped.len() < target_size {
            let mut pad: Vec<u8> = Vec::new();
            let mut k: usize = shaped.len();
            while k < target_size
                invariant
                    shaped@.len() <= k <= target_size,
                    pad@.len() == k - shaped@.len(),
                decreases target_size - k,
            {
                pad.push(0u8);
                k = k + 1;
            }
            let mut entropy = EntropySource::new();
            entropy.fill_padding(pad.as_mut_slice());
            let mut j: usize = 0;
            let ghost prefix = shaped@;
            while j < pad.len()
                invariant
                    j <= pad@.len(),
                    shaped@.len() == prefix.len() + j,
                    shaped@.take(prefix.len() as int) == prefix,
                decreases pad@.len() - j,
            {
                shaped.push(pad[j]);
                assert(shaped@.take(prefix.len() as int) =~= prefix);
                j = j + 1;
            }
        }
        assert(payload@.take(payload@.len() as int) =~= payload@);
        Ok(shaped)
    }
}

/// Downloads are padded at least as much as uploads of the same payload.
pub proof fn lemma_download_padding_not_smaller(len: int, min: int, max: int)
    requires
        0 <= len,
        0 <= min,
    ensures
        padded_len(len, min, max, 60) >= padded_len(len, min, max, 10),
{
    let base = round16(if len > min {
        len
    } else {
        min
    });
    assert(base * 60 / 100 >= base * 10 / 100) by (nonlinear_arith)
        requires
            base >= 0,
    ;
}

/// A payload that fits is padded to at least the profile minimum (when the profile's
/// minimum does not exceed its maximum) and never beyond the maximum.
pub proof fn lemma_padded_len_bounds(len: int, min: int, max: int, pct: int)
    requires
        0 <= len <= max,
        0 <= min <= max,
        0 <= pct <= 100,
    ensures
        len <= padded_len(len, min, max, pct) <= max,
        min <= padded_len(len, min, max, pct),
{
    let base = round16(if len > min {
        len
    } else {
        min
    });
    if pct > 0 {
        assert(base * pct / 100 >= 0) by (nonlinear_arith)
            requires
                base >= 0,
                pct >= 0,
        ;
    }
}

/// With a positive percentage, a payload is padded to its block-rounded size grown by that
/// percentage of it, rounded up to a block again and cut at the maximum.
pub proof fn lemma_padding_adds_percentage(len: int, min: int, max: int, pct: int)
    requires
        0 <= len,
        0 <= min,
        0 < pct <= 100,
    ensures
        ({
            let b = round16(if len > min { len } else { min });
            let g = round16(b + b * pct / 100);
            padded_len(len, min, max, pct) == if g > max { max } else { g }
        }),
{
}

/// Where the extra percentage amounts to at least a byte and there is room below the
/// maximum, the padded size is strictly larger than the block-rounded payload.
pub proof fn lemma_padding_grows_below_max(len: int, min: int, max: int, pct: int)
    requires
        0 <= len,
        0 <= min,
        0 < pct <= 100,
        round16(if len > min { len } else { min }) * pct >= 100,
        round16(if len > min { len } else { min }) < max,
    ensures
        padded_len(len, min, max, pct) > round16(if len > min { len } else { min }),
{
    let b = round16(if len > min { len } else { min });
    assert(b * pct / 100 >= 1) by (nonlinear_arith)
        requires
            b * pct >= 100,
    ;
    let u = b + b * pct / 100;
    assert(round16(u) >= u);
}

/// Downloads are padded strictly more than uploads of the same payload, wherever the
/// block-rounded payload is at least two blocks and the upload size leaves room below the
/// maximum.
pub proof fn lemma_download_padded_more(len: int, min: int, max: int)
    requires
        0 <= len,
        0 <= min,
        round16(if len > min { len } else { min }) >= 32,
        ({
            let b = round16(if len > min { len } else { min });
            round16(b + b * 10 / 100) < max
        }),
    ensures
        padded_len(len, min, max, 60) > padded_len(len, min, max, 10),
{
    let b = round16(if len > min { len } else { min });
    assert(b * 60 / 100 >= b * 10 / 100 + 16) by (nonlinear_arith)
        requires
            b >= 32,
    ;
    let u = b + b * 10 / 100;
    let d = b + b * 60 / 100;
    assert(round16(u) < u + 16);
    assert(round16(d) >= d);
}

/// Rounding up to a block gives the least multiple of 16 that is not below the number.
pub proof fn lemma_round16_least_block(n: int)
    requires
        0 <= n,
    ensures
        round16(n) % 16 == 0,
        n <= round16(n) < n + 16,
{
}

} // verus!
