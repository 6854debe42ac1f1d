use vstd::prelude::*;
use rand_chacha::ChaCha20Rng;
use vstd::slice::SliceAdditionalExecFns;
use rand_chacha::rand_core::{Rng, SeedableRng};

verus! {

#[verifier::external_type_specification]
#[verifier::external_body]
pub struct ExChaCha20Rng(ChaCha20Rng);

/// `RandomState::new`: a hasher builder with keys drawn from the operating system's
/// randomness when the process first asks for them. Nothing is known of the keys.
#[verifier::external_body]
fn random_state() -> std::collections::hash_map::RandomState {
    std::collections::hash_map::RandomState::new()
}

/// `BuildHasher::hash_one` of a single zero byte under the builder's keys. Nothing is known
/// of the value.
#[verifier::external_body]
fn hash_zero_byte(state: &std::collections::hash_map::RandomState) -> u64 {
    std::hash::BuildHasher::hash_one(state, 0u8)
}

/// `OsRng::try_fill_bytes` (rand_core, as `chacha20poly1305::aead` hands it on): fills `buf`
/// from the operating system's random source (`getrandom`) and says whether that succeeded.
/// The length of `buf` stays; nothing is known of the bytes, nor of them after a failure.
#[verifier::external_body]
fn os_try_fill(buf: &mut [u8]) -> (ok: bool)
    ensures
        final(buf)@.len() == old(buf)@.len(),
{
    chacha20poly1305::aead::rand_core::RngCore::try_fill_bytes(
        &mut chacha20poly1305::aead::OsRng,
        buf,
    ).is_ok()
}

/// A hard-to-guess word: a zero byte hashed under a fresh builder's keys. The standard
/// library seeds each thread's hashing keys from the operating system once and steps them
/// for every new builder, so the words differ from call to call; they are not drawn from
/// the operating system each time.
fn os_random_u64() -> u64 {
    let state = random_state();
    hash_zero_byte(&state)
}

/// A word after `k` of its low bytes have been taken off.
pub open spec fn word_shifted(word: u64, k: nat) -> u64
    decreases k,
{
    if k == 0 {
        word
    } else {
        word_shifted(word, (k - 1) as nat) / 256
    }
}

/// Byte `k` of a word, lowest first.
pub open spec fn word_byte(word: u64, k: nat) -> u8 {
    (word_shifted(word, k) % 256) as u8
}

/// Writes the bytes of `word`, lowest first, into `buf` from `start` on, as many as fit of
/// the eight, and gives the position after the last one written; the rest is left alone.
pub fn spread_word(buf: &mut [u8], start: usize, word: u64) -> (end: usize)
    requires
        start < old(buf)@.len(),
    ensures
        end == vstd::math::min(start + 8, old(buf)@.len() as int),
        final(buf)@.len() == old(buf)@.len(),
        forall|i: int|
            start <= i < end ==> #[trigger] final(buf)@[i] == word_byte(word, (i - start) as nat),
        forall|i: int|
            0 <= i < old(buf)@.len() && !(start <= i < end) ==> #[trigger] final(buf)@[i]
                == old(buf)@[i],
{
    let n = buf.len();
    let mut w = word;
    let mut k: usize = 0;
    let mut i: usize = start;
    while k < 8 && i < n
        invariant
            buf@.len() == n,
            n == old(buf)@.len(),
            start < n,
            i <= n,
            i == start + k,
            k <= 8,
            w == word_shifted(word, k as nat),
            forall|j: int|
                start <= j < i ==> #[trigger] buf@[j] == word_byte(word, (j - start) as nat),
            forall|j: int|
                0 <= j < n && !(start <= j < i) ==> #[trigger] buf@[j] == old(buf)@[j],
        decreases n - i,
    {
        buf.set(i, (w % 256) as u8);
        w = w / 256;
        k = k + 1;
        i = i + 1;
    }
    i
}

/// Fills `buf` from the operating system's random source; where that source fails, with
/// the bytes of hard-to-guess words (see `os_random_u64`), eight at a time.
pub fn os_fill(buf: &mut [u8])
    ensures
        final(buf)@.len() == old(buf)@.len(),
{
    if os_try_fill(buf) {
        return;
    }
    let n = buf.len();
    let mut i: usize = 0;
    while i < n
        invariant
            buf@.len() == n,
            i <= n,
        decreases n - i,
    {
        let word = os_random_u64();
        i = spread_word(buf, i, word);
    }
}

/// A seed of 32 hard-to-guess bytes (see `os_fill`).
pub fn os_seed() -> [u8; 32] {
    let mut seed = [0u8; 32];
    os_fill(&mut seed);
    seed
}

/// Word `pos` of the ChaCha20 key stream (stream 0, block counter from 0) for a 32-byte
/// seed: what a `ChaCha20Rng` made from that seed hands out as its `pos`-th 32-bit word.
pub uninterp spec fn chacha20_word(seed: Seq<u8>, pos: nat) -> u32;

/// Byte `k` (0 to 3) of a word, lowest first.
pub open spec fn le_byte(w: u32, k: int) -> u8 {
    if k == 0 {
        (w % 256) as u8
    } else if k == 1 {
        ((w / 256) % 256) as u8
    } else if k == 2 {
        ((w / 65536) % 256) as u8
    } else {
        ((w / 16777216) % 256) as u8
    }
}

/// The first `len` bytes of the key stream from word `pos` on, each word lowest byte first.
pub open spec fn chacha20_bytes(seed: Seq<u8>, pos: nat, len: nat) -> Seq<u8> {
    Seq::new(len, |i: int| le_byte(chacha20_word(seed, (pos + i / 4) as nat), i % 4))
}

/// The words that `len` bytes take from the stream: a partly used word is used up.
pub open spec fn words_for(len: nat) -> nat {
    (len + 3) / 4
}

/// A ChaCha20 generator, with the seed it was made from and how many words of its key
/// stream it has handed out.
pub struct SeededRng {
    rng: ChaCha20Rng,
    seed: Ghost<Seq<u8>>,
    pos: Ghost<nat>,
}

impl SeededRng {
    /// The seed the generator was made from.
    pub closed spec fn spec_seed(&self) -> Seq<u8> {
        self.seed@
    }

    /// The words of the key stream handed out so far.
    pub closed spec fn spec_pos(&self) -> nat {
        self.pos@
    }
}

/// `ChaCha20Rng::from_seed`: a generator at the start of the seed's key stream.
#[verifier::external_body]
pub fn seeded_rng(seed: [u8; 32]) -> (r: SeededRng)
    ensures
        r.spec_seed() == seed@,
        r.spec_pos() == 0,
{
    SeededRng { rng: ChaCha20Rng::from_seed(seed), seed: Ghost(seed@), pos: Ghost(0) }
}

/// A ChaCha20 generator seeded with `os_seed`, at the start of its key stream.
pub fn os_seeded_rng() -> (r: SeededRng)
    ensures
        r.spec_pos() == 0,
        r.spec_seed().len() == 32,
{
    seeded_rng(os_seed())
}

/// `Rng::fill_bytes`: the next bytes of the key stream, each word lowest byte first; a word
/// of which only some bytes are needed is used up.
#[verifier::external_body]
pub fn fill_random_bytes(rng: &mut SeededRng, out: &mut [u8])
    ensures
        final(out)@ == chacha20_bytes(old(rng).spec_seed(), old(rng).spec_pos(), old(out)@.len()),
        final(rng).spec_seed() == old(rng).spec_seed(),
        final(rng).spec_pos() == old(rng).spec_pos() + words_for(old(out)@.len()),
{
    rng.rng.fill_bytes(out);
}

/// `Rng::next_u32`: the next word of the key stream.
#[verifier::external_body]
pub fn next_u32(rng: &mut SeededRng) -> (r: u32)
    ensures
        r == chacha20_word(old(rng).spec_seed(), old(rng).spec_pos()),
        final(rng).spec_seed() == old(rng).spec_seed(),
        final(rng).spec_pos() == old(rng).spec_pos() + 1,
{
    rng.rng.next_u32()
}

/// `Rng::next_u64`: the next two words of the key stream, the first as the low half.
#[verifier::external_body]
pub fn next_u64(rng: &mut SeededRng) -> (r: u64)
    ensures
        r == chacha20_word(old(rng).spec_seed(), old(rng).spec_pos()) + chacha20_word(
            old(rng).spec_seed(),
            old(rng).spec_pos() + 1,
        ) * 0x1_0000_0000,
        final(rng).spec_seed() == old(rng).spec_seed(),
        final(rng).spec_pos() == old(rng).spec_pos() + 2,
{
    rng.rng.next_u64()
}

/// The next twelve bytes of the key stream, for a nonce: generators made from one seed and
/// at one position give the same nonce.
pub fn next_nonce(rng: &mut SeededRng) -> (r: [u8; 12])
    ensures
        r@ == chacha20_bytes(old(rng).spec_seed(), old(rng).spec_pos(), 12),
        final(rng).spec_seed() == old(rng).spec_seed(),
        final(rng).spec_pos() == old(rng).spec_pos() + 3,
{
    let mut nonce = [0u8; 12];
    fill_random_bytes(rng, &mut nonce);
    nonce
}

/// Generators made from one seed and at one position hand out the same bytes.
pub proof fn lemma_same_seed_same_stream(a: SeededRng, b: SeededRng, len: nat)
    requires
        a.spec_seed() == b.spec_seed(),
        a.spec_pos() == b.spec_pos(),
    ensures
        chacha20_bytes(a.spec_seed(), a.spec_pos(), len) == chacha20_bytes(
            b.spec_seed(),
            b.spec_pos(),
            len,
        ),
{
}

} // verus!
