use vstd::prelude::*;
use vstd::utf8::encode_utf8;
use crate::config::profiles::StealthProfile;
use crate::stealth::tls_camouflage::TlsCamouflageError;
use crate::stealth::server_hello::alpn_fits;
use crate::text::{be16_all, push_be16_all};
use crate::crypto::kdf::extend_bytes;

verus! {

/// The fields of a camouflaged client hello.
#[derive(Debug, Clone, PartialEq, Eq)]
pub struct ClientHelloSpec {
    pub alpn: String,
    pub session_id: [u8; 32],
    pub cipher_suites: Vec<u16>,
    pub extensions: Vec<u16>,
}

/// The session identifier drawn from a profile name: its first 32 bytes, zero-filled.
pub open spec fn session_id_for(name: Seq<char>) -> Seq<u8> {
    Seq::new(
        32,
        |i: int|
            if i < encode_utf8(name).len() {
                encode_utf8(name)[i]
            } else {
                0u8
            },
    )
}

/// The encoding of a client hello.
pub open spec fn client_hello_bytes(
    alpn: Seq<char>,
    session_id: Seq<u8>,
    ciphers: Seq<u16>,
    extensions: Seq<u16>,
) -> Seq<u8> {
    seq![encode_utf8(alpn).len() as u8] + encode_utf8(alpn) + session_id + seq![ciphers.len() as u8]
        + be16_all(ciphers) + seq![extensions.len() as u8] + be16_all(extensions)
}

fn copy_u16s(s: &Vec<u16>) -> (r: Vec<u16>)
    ensures
        r@ == s@,
{
    let mut out: Vec<u16> = Vec::new();
    let mut i: usize = 0;
    while i < s.len()
        invariant
            i <= s@.len(),
            out@ == s@.take(i as int),
        decreases s@.len() - i,
    {
        out.push(s[i]);
        assert(s@.take(i + 1) =~= s@.take(i as int).push(s@[i as int]));
        i = i + 1;
    }
    assert(s@.take(s@.len() as int) =~= s@);
    out
}

impl ClientHelloSpec {
    pub fn from_profile(profile: &StealthProfile) -> (r: Self)
        ensures
            r.alpn@ == profile.alpn@,
            r.session_id@ == session_id_for(profile.name@),
            r.cipher_suites@ == profile.cipher_suites@,
            r.extensions@ == profile.extensions@,
    {
        let name = profile.name.as_str().as_bytes();
        let mut session_id = [0u8; 32];
        let mut index: usize = 0;
        while index < 32 && index < name.len()
            invariant
                index <= 32,
                index <= name@.len(),
                name@ == encode_utf8(profile.name@),
                session_id@.len() == 32,
                forall|j: int|
                    0 <= j < 32 ==> #[trigger] session_id@[j] == (if j < index {
                        name@[j]
                    } else {
                        0u8
                    }),
            decreases 32 - index,
        {
            session_id[index] = name[index];
            index = index + 1;
        }
        assert forall|j: int| 0 <= j < 32 implies #[trigger] session_id@[j] == session_id_for(
            profile.name@,
        )[j] by {
            if j >= index {
                assert(index == 32 || index >= name@.len());
            }
        }
        assert(session_id@ =~= session_id_for(profile.name@));
        ClientHelloSpec {
            alpn: profile.alpn.clone(),
            session_id,
            cipher_suites: copy_u16s(&profile.cipher_suites),
            extensions: copy_u16s(&profile.extensions),
        }
    }

    pub fn encode(&self) -> (r: Result<Vec<u8>, TlsCamouflageError>)
        ensures
            r is Ok <==> alpn_fits(self.alpn@) && self.cipher_suites@.len() <= 255
                && self.extensions@.len() <= 255,
            r matches Ok(v) ==> v@ == client_hello_bytes(
                self.alpn@,
                self.session_id@,
                self.cipher_suites@,
                self.extensions@,
            ),
            r matches Err(e) ==> e == TlsCamouflageError::InvalidHelloField,
    {
        let alpn = self.alpn.as_str().as_bytes();
        if alpn.len() == 0 || alpn.len() > 16 {
            return Err(TlsCamouflageError::InvalidHelloField);
        }
        if self.cipher_suites.len() > 255 {
            return Err(TlsCamouflageError::InvalidHelloField);
        }
        if self.extensions.len() > 255 {
            return Err(TlsCamouflageError::InvalidHelloField);
        }
        let mut encoded: Vec<u8> = Vec::new();
        encoded.push(alpn.len() as u8);
        extend_bytes(&mut encoded, alpn);
        extend_bytes(&mut encoded, &self.session_id);
        encoded.push(self.cipher_suites.len() as u8);
        push_be16_all(&mut encoded, self.cipher_suites.as_slice());
        encoded.push(self.extensions.len() as u8);
        push_be16_all(&mut encoded, self.extensions.as_slice());
        Ok(encoded)
    }
}

} // verus!
