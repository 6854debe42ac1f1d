use vstd::prelude::*;
use vstd::utf8::encode_utf8;
use crate::stealth::tls_camouflage::TlsCamouflageError;
use crate::text::{be16, copy_bytes, push_be16};
use crate::crypto::kdf::extend_bytes;

verus! {

/// The parameters a camouflaged server hello announces.
#[derive(Debug, Clone, PartialEq, Eq)]
pub struct ServerHelloSpec {
    pub selected_cipher: u16,
    pub selected_extension: u16,
    pub alpn: String,
}

/// The encoding of a server hello: cipher, extension, then the protocol name with its length.
pub open spec fn server_hello_bytes(cipher: u16, extension: u16, alpn: Seq<char>) -> Seq<u8> {
    be16(cipher) + be16(extension) + seq![encode_utf8(alpn).len() as u8] + encode_utf8(alpn)
}

/// Whether a protocol name fits a hello: one to sixteen bytes.
pub open spec fn alpn_fits(alpn: Seq<char>) -> bool {
    0 < encode_utf8(alpn).len() <= 16
}

impl ServerHelloSpec {
    pub fn new(alpn: String, selected_cipher: u16, selected_extension: u16) -> (r: Self)
        ensures
            r.alpn == alpn,
            r.selected_cipher == selected_cipher,
            r.selected_extension == selected_extension,
    {
        ServerHelloSpec { selected_cipher, selected_extension, alpn }
    }

    pub fn encode(&self) -> (r: Result<Vec<u8>, TlsCamouflageError>)
        ensures
            r is Ok <==> alpn_fits(self.alpn@),
            r matches Ok(v) ==> v@ == server_hello_bytes(
                self.selected_cipher,
                self.selected_extension,
                self.alpn@,
            ),
            r matches Err(e) ==> e == TlsCamouflageError::InvalidHelloField,
    {
        let alpn = self.alpn.as_str().as_bytes();
        if alpn.len() == 0 || alpn.len() > 16 {
            return Err(TlsCamouflageError::InvalidHelloField);
        }
        let mut encoded: Vec<u8> = Vec::new();
        push_be16(&mut encoded, self.selected_cipher);
        push_be16(&mut encoded, self.selected_extension);
        encoded.push(alpn.len() as u8);
        extend_bytes(&mut encoded, alpn);
        Ok(encoded)
    }
}

} // verus!
