use vstd::prelude::*;
use crate::auth::AuthError;
use crate::text::string_from_chars;

verus! {

/// The 32-byte BLAKE3 keyed hash of the data under a 32-byte key.
pub uninterp spec fn blake3_keyed_hash(key: Seq<u8>, data: Seq<u8>) -> [u8; 32];

/// The bytes of the BLAKE3 keyed hash of the data under a key.
pub open spec fn blake3_keyed(key: Seq<u8>, data: Seq<u8>) -> Seq<u8> {
    blake3_keyed_hash(key, data)@
}

/// `blake3::keyed_hash`: the 32-byte keyed BLAKE3 hash, used as the signature of a payload.
#[verifier::external_body]
pub fn sign_payload(signing_key: &[u8; 32], payload: &[u8]) -> (r: [u8; 32])
    ensures
        r == blake3_keyed_hash(signing_key@, payload@),
{
    *blake3::keyed_hash(signing_key, payload).as_bytes()
}

/// `subtle::ConstantTimeEq::ct_eq` on byte slices: equal exactly when the lengths and all
/// bytes agree.
#[verifier::external_body]
pub fn ct_eq_bytes(a: &[u8], b: &[u8]) -> (r: bool)
    ensures
        r == (a@ == b@),
{
    subtle::ConstantTimeEq::ct_eq(a, b).into()
}

/// The lowercase hexadecimal digit for a value below 16.
pub open spec fn hex_char(d: nat) -> char {
    if d < 10 {
        ((d + 48) as u8) as char
    } else {
        ((d + 87) as u8) as char
    }
}

/// The lowercase hexadecimal spelling of bytes, two digits per byte, high digit first.
pub open spec fn hex_encode(bytes: Seq<u8>) -> Seq<char> {
    Seq::new(
        2 * bytes.len(),
        |i: int|
            if i % 2 == 0 {
                hex_char((bytes[i / 2] / 16) as nat)
            } else {
                hex_char((bytes[i / 2] % 16) as nat)
            },
    )
}

/// The value of a hexadecimal digit of either case.
pub open spec fn hex_value(c: char) -> Option<nat> {
    if '0' <= c && c <= '9' {
        Some((c as u32 - 48) as nat)
    } else if 'a' <= c && c <= 'f' {
        Some((c as u32 - 87) as nat)
    } else if 'A' <= c && c <= 'F' {
        Some((c as u32 - 55) as nat)
    } else {
        None
    }
}

/// The 32 bytes that 64 hexadecimal digits spell, if the text is exactly that.
pub open spec fn hex32_decode(s: Seq<char>) -> Option<Seq<u8>> {
    if s.len() == 64 && (forall|i: int| 0 <= i < 64 ==> #[trigger] hex_value(s[i]) is Some) {
        Some(
            Seq::new(
                32,
                |i: int| (hex_value(s[2 * i])->0 * 16 + hex_value(s[2 * i + 1])->0) as u8,
            ),
        )
    } else {
        None
    }
}

fn hex_char_exec(d: u8) -> (c: char)
    requires
        d < 16,
    ensures
        c == hex_char(d as nat),
{
    if d < 10 {
        (d + 48) as char
    } else {
        (d + 87) as char
    }
}

/// Appends the lowercase hexadecimal spelling of `bytes`.
pub fn push_hex(out: &mut Vec<char>, bytes: &[u8])
    ensures
        final(out)@ == old(out)@ + hex_encode(bytes@),
{
    let ghost start = out@;
    let mut i: usize = 0;
    while i < bytes.len()
        invariant
            i <= bytes@.len(),
            out@ == start + hex_encode(bytes@.take(i as int)),
        decreases bytes@.len() - i,
    {
        let b = bytes[i];
        out.push(hex_char_exec(b / 16));
        out.push(hex_char_exec(b % 16));
        assert(hex_encode(bytes@.take(i + 1)) =~= hex_encode(bytes@.take(i as int)).push(
            hex_char((b / 16) as nat),
        ).push(hex_char((b % 16) as nat)));
        i = i + 1;
    }
    assert(bytes@.take(bytes@.len() as int) =~= bytes@);
}

/// The lowercase hexadecimal spelling of `bytes`.
pub fn encode_hex(bytes: &[u8]) -> (r: String)
    ensures
        r@ == hex_encode(bytes@),
{
    let mut out: Vec<char> = Vec::new();
    push_hex(&mut out, bytes);
    string_from_chars(&out)
}

/// The value of one hexadecimal digit.
pub fn from_hex(c: char) -> (r: Result<u8, AuthError>)
    ensures
        r matches Ok(v) ==> hex_value(c) == Some(v as nat),
        r is Err ==> hex_value(c) is None,
        r matches Err(e) ==> e == AuthError::Rejected,
{
    if '0' <= c && c <= '9' {
        Ok((c as u32 - 48) as u8)
    } else if 'a' <= c && c <= 'f' {
        Ok((c as u32 - 87) as u8)
    } else if 'A' <= c && c <= 'F' {
        Ok((c as u32 - 55) as u8)
    } else {
        Err(AuthError::Rejected)
    }
}

/// The 32 bytes that a text of 64 hexadecimal digits spells.
pub fn decode_hex_32(value: &[char]) -> (r: Result<[u8; 32], AuthError>)
    ensures
        r matches Ok(b) ==> hex32_decode(value@) == Some(b@),
        r is Err ==> hex32_decode(value@) is None,
        r matches Err(e) ==> e == AuthError::Rejected,
{
    if value.len() != 64 {
        return Err(AuthError::Rejected);
    }
    let mut output = [0u8; 32];
    let mut index: usize = 0;
    while index < 32
        invariant
            value@.len() == 64,
            index <= 32,
            output@.len() == 32,
            forall|j: int| 0 <= j < 2 * index ==> #[trigger] hex_value(value@[j]) is Some,
            forall|j: int|
                0 <= j < index ==> #[trigger] output@[j] == (hex_value(value@[2 * j])->0 * 16
                    + hex_value(value@[2 * j + 1])->0) as u8,
        decreases 32 - index,
    {
        let high = match from_hex(value[2 * index]) {
            Ok(v) => v,
            Err(e) => {
                assert(hex_value(value@[2 * index as int]) is None);
                return Err(e);
            },
        };
        let low = match from_hex(value[2 * index + 1]) {
            Ok(v) => v,
            Err(e) => {
                assert(hex_value(value@[2 * index + 1]) is None);
                return Err(e);
            },
        };
        output.set(index, high * 16 + low);
        index = index + 1;
    }
    assert(output@ =~= hex32_decode(value@)->0);
    Ok(output)
}

/// Reading a hexadecimal digit back gives its value.
pub proof fn lemma_hex_char_value(d: nat)
    requires
        d < 16,
    ensures
        hex_value(hex_char(d)) == Some(d),
{
}

/// Decoding the hexadecimal spelling of 32 bytes gives the bytes back.
pub proof fn lemma_hex32_roundtrip(bytes: Seq<u8>)
    requires
        bytes.len() == 32,
    ensures
        hex32_decode(hex_encode(bytes)) == Some(bytes),
{
    let s = hex_encode(bytes);
    assert forall|i: int| 0 <= i < 64 implies #[trigger] hex_value(s[i]) is Some by {
        if i % 2 == 0 {
            lemma_hex_char_value((bytes[i / 2] / 16) as nat);
        } else {
            lemma_hex_char_value((bytes[i / 2] % 16) as nat);
        }
    }
    assert forall|i: int| 0 <= i < 32 implies (hex_value(s[2 * i])->0 * 16 + hex_value(
        s[2 * i + 1],
    )->0) as u8 == bytes[i] by {
        lemma_hex_char_value((bytes[i] / 16) as nat);
        lemma_hex_char_value((bytes[i] % 16) as nat);
        assert((2 * i) / 2 == i);
        assert((2 * i + 1) / 2 == i);
        assert((2 * i) % 2 == 0);
        assert((2 * i + 1) % 2 == 1);
    }
    assert(hex32_decode(s)->0 =~= bytes);
}

/// The hexadecimal spelling holds only hex digits, so no other character.
pub proof fn lemma_hex_encode_lacks(bytes: Seq<u8>, c: char)
    requires
        hex_value(c) is None,
    ensures
        crate::text::lacks(hex_encode(bytes), c),
{
    assert forall|k: int| 0 <= k < hex_encode(bytes).len() implies hex_encode(bytes)[k] != c by {
        let b = bytes[k / 2];
        if k % 2 == 0 {
            lemma_hex_char_value((b / 16) as nat);
        } else {
            lemma_hex_char_value((b % 16) as nat);
        }
    }
}

} // verus!
