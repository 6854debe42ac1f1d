use vstd::prelude::*;
use crate::config::profiles::StealthProfile;
use crate::stealth::client_hello::{ClientHelloSpec, client_hello_bytes, session_id_for};
use crate::stealth::server_hello::{ServerHelloSpec, alpn_fits, server_hello_bytes};
use crate::text::{be16, copy_bytes, from_be16, push_be16};
use crate::crypto::kdf::extend_bytes;

verus! {

pub const TLS_VERSION_1_2: u16 = 0x0303;

pub const MAX_TLS_RECORD_PAYLOAD: usize = 16384;

/// The kinds of TLS record the camouflage writes.
#[derive(Debug, Clone, Copy, PartialEq, Eq, Structural)]
pub enum TlsRecordType {
    Handshake,
    ApplicationData,
}

/// The content-type byte of a record kind.
pub open spec fn record_type_byte(t: TlsRecordType) -> u8 {
    match t {
        TlsRecordType::Handshake => 22,
        TlsRecordType::ApplicationData => 23,
    }
}

/// The record kind of a content-type byte.
pub open spec fn record_type_of(b: u8) -> Option<TlsRecordType> {
    if b == 22 {
        Some(TlsRecordType::Handshake)
    } else if b == 23 {
        Some(TlsRecordType::ApplicationData)
    } else {
        None
    }
}

#[derive(Debug, Clone, Copy, PartialEq, Eq, Structural)]
pub enum TlsCamouflageError {
    InvalidRecordType,
    RecordTooLarge,
    MalformedRecord,
    InvalidHelloField,
}

impl TlsRecordType {
    pub fn as_byte(self) -> (r: u8)
        ensures
            r == record_type_byte(self),
    {
        match self {
            TlsRecordType::Handshake => 22,
            TlsRecordType::ApplicationData => 23,
        }
    }

    fn from_byte(byte: u8) -> (r: Result<Self, TlsCamouflageError>)
        ensures
            r matches Ok(t) ==> record_type_of(byte) == Some(t),
            r is Err ==> record_type_of(byte) is None,
            r matches Err(e) ==> e == TlsCamouflageError::InvalidRecordType,
    {
        if byte == 22 {
            Ok(TlsRecordType::Handshake)
        } else if byte == 23 {
            Ok(TlsRecordType::ApplicationData)
        } else {
            Err(TlsCamouflageError::InvalidRecordType)
        }
    }
}

/// A TLS record: kind, version and payload.
#[derive(Debug, Clone, PartialEq, Eq)]
pub struct TlsRecord {
    pub record_type: TlsRecordType,
    pub version: u16,
    pub payload: Vec<u8>,
}

/// The wire form of a record: kind, version, payload length, payload.
pub open spec fn record_bytes(t: TlsRecordType, version: u16, payload: Seq<u8>) -> Seq<u8> {
    seq![record_type_byte(t)] + be16(version) + be16(payload.len() as u16) + payload
}

/// The record that the bytes hold, if they are one whole well-formed record.
pub open spec fn decode_record_spec(input: Seq<u8>) -> Result<(TlsRecordType, u16, Seq<u8>), TlsCamouflageError> {
    if input.len() < 5 {
        Err(TlsCamouflageError::MalformedRecord)
    } else {
        match record_type_of(input[0]) {
            None => Err(TlsCamouflageError::InvalidRecordType),
            Some(t) => {
                let len = from_be16(input[3], input[4]) as int;
                if len > 16384 || input.len() != len + 5 {
                    Err(TlsCamouflageError::MalformedRecord)
                } else {
                    Ok((t, from_be16(input[1], input[2]), input.skip(5)))
                }
            },
        }
    }
}

impl TlsRecord {
    pub fn new(record_type: TlsRecordType, payload: Vec<u8>) -> (r: Result<Self, TlsCamouflageError>)
        ensures
            r is Ok <==> payload@.len() <= 16384,
            r matches Ok(rec) ==> rec.record_type == record_type && rec.version == 0x0303
                && rec.payload@ == payload@,
            r matches Err(e) ==> e == TlsCamouflageError::RecordTooLarge,
    {
        if payload.len() > MAX_TLS_RECORD_PAYLOAD {
            return Err(TlsCamouflageError::RecordTooLarge);
        }
        Ok(TlsRecord { record_type, version: TLS_VERSION_1_2, payload })
    }

    pub fn encode(&self) -> (r: Result<Vec<u8>, TlsCamouflageError>)
        ensures
            r is Ok <==> self.payload@.len() <= 16384,
            r matches Ok(v) ==> v@ == record_bytes(self.record_type, self.version, self.payload@),
            r matches Err(e) ==> e == TlsCamouflageError::RecordTooLarge,
    {
        if self.payload.len() > MAX_TLS_RECORD_PAYLOAD {
            return Err(TlsCamouflageError::RecordTooLarge);
        }
        let mut encoded: Vec<u8> = Vec::new();
        encoded.push(self.record_type.as_byte());
        push_be16(&mut encoded, self.version);
        push_be16(&mut encoded, self.payload.len() as u16);
        extend_bytes(&mut encoded, self.payload.as_slice());
        Ok(encoded)
    }

    pub fn decode(input: &[u8]) -> (r: Result<Self, TlsCamouflageError>)
        ensures
            r matches Ok(rec) ==> decode_record_spec(input@) == Ok::<
                (TlsRecordType, u16, Seq<u8>),
                TlsCamouflageError,
            >((rec.record_type, rec.version, rec.payload@)),
            r matches Err(e) ==> decode_record_spec(input@) == Err::<
                (TlsRecordType, u16, Seq<u8>),
                TlsCamouflageError,
            >(e),
    {
        if input.len() < 5 {
            return Err(TlsCamouflageError::MalformedRecord);
        }
        let record_type = TlsRecordType::from_byte(input[0])?;
        let version: u16 = (input[1] as u16) * 256 + (input[2] as u16);
        let payload_len: usize = ((input[3] as u16) * 256 + (input[4] as u16)) as usize;
        if payload_len > MAX_TLS_RECORD_PAYLOAD || input.len() != payload_len + 5 {
            return Err(TlsCamouflageError::MalformedRecord);
        }
        let mut payload: Vec<u8> = Vec::new();
        let mut i: usize = 5;
        while i < input.len()
            invariant
                5 <= i <= input@.len(),
                payload@ == input@.subrange(5, i as int),
            decreases input@.len() - i,
        {
            payload.push(input[i]);
            assert(payload@ =~= input@.subrange(5, i + 1));
            i = i + 1;
        }
        assert(payload@ =~= input@.skip(5));
        Ok(TlsRecord { record_type, version, payload })
    }
}

/// Decoding an encoded record gives the record back.
pub proof fn lemma_record_roundtrip(t: TlsRecordType, version: u16, payload: Seq<u8>)
    requires
        payload.len() <= 16384,
    ensures
        decode_record_spec(record_bytes(t, version, payload)) == Ok::<
            (TlsRecordType, u16, Seq<u8>),
            TlsCamouflageError,
        >((t, version, payload)),
{
    let b = record_bytes(t, version, payload);
    assert(b[0] == record_type_byte(t));
    assert(b[1] == be16(version)[0] && b[2] == be16(version)[1]);
    assert(b[3] == be16(payload.len() as u16)[0] && b[4] == be16(payload.len() as u16)[1]);
    assert(b.skip(5) =~= payload);
}

/// An encoded record starts with its TLS content type: 22 for a handshake record, 23 for an
/// application-data record; its length is the payload's plus five header bytes.
pub proof fn lemma_record_content_type(t: TlsRecordType, version: u16, payload: Seq<u8>)
    ensures
        record_bytes(t, version, payload).len() == payload.len() + 5,
        t == TlsRecordType::Handshake ==> record_bytes(t, version, payload)[0] == 22u8,
        t == TlsRecordType::ApplicationData ==> record_bytes(t, version, payload)[0] == 23u8,
{
}

/// Decoding reads the record kind from the first byte: 22 is a handshake record, 23 an
/// application-data record, and any other first byte is refused as an invalid record type.
pub proof fn lemma_decode_content_type(input: Seq<u8>)
    requires
        input.len() >= 5,
    ensures
        input[0] == 22u8 ==> (decode_record_spec(input) is Ok ==> decode_record_spec(input)->Ok_0.0
            == TlsRecordType::Handshake),
        input[0] == 23u8 ==> (decode_record_spec(input) is Ok ==> decode_record_spec(input)->Ok_0.0
            == TlsRecordType::ApplicationData),
        input[0] != 22u8 && input[0] != 23u8 ==> decode_record_spec(input) == Err::<
            (TlsRecordType, u16, Seq<u8>),
            TlsCamouflageError,
        >(TlsCamouflageError::InvalidRecordType),
        (input[0] == 22u8 || input[0] == 23u8) ==> (decode_record_spec(input) is Ok <==> (
        input[3] as int * 256 + input[4] as int <= 16384 && input.len() == input[3] as int * 256
            + input[4] as int + 5)),
{
}

/// The handshake record that carries the client hello of a profile.
pub fn build_client_hello_record(profile: &StealthProfile) -> (r: Result<TlsRecord, TlsCamouflageError>)
    ensures
        r is Ok <==> alpn_fits(profile.alpn@) && profile.cipher_suites@.len() <= 255
            && profile.extensions@.len() <= 255,
        r matches Ok(rec) ==> rec.record_type == TlsRecordType::Handshake && rec.version == 0x0303
            && rec.payload@ == client_hello_bytes(
            profile.alpn@,
            session_id_for(profile.name@),
            profile.cipher_suites@,
            profile.extensions@,
        ),
        r matches Err(e) ==> e == TlsCamouflageError::InvalidHelloField,
{
    let hello = ClientHelloSpec::from_profile(profile);
    let payload = hello.encode()?;
    proof {
        crate::text::lemma_be16_all_len(profile.cipher_suites@);
        crate::text::lemma_be16_all_len(profile.extensions@);
    }
    TlsRecord::new(TlsRecordType::Handshake, payload)
}

/// The handshake record that carries a server hello.
pub fn build_server_hello_record(alpn: String, selected_cipher: u16, selected_extension: u16) -> (r: Result<
    TlsRecord,
    TlsCamouflageError,
>)
    ensures
        r is Ok <==> alpn_fits(alpn@),
        r matches Ok(rec) ==> rec.record_type == TlsRecordType::Handshake && rec.version == 0x0303
            && rec.payload@ == server_hello_bytes(selected_cipher, selected_extension, alpn@),
        r matches Err(e) ==> e == TlsCamouflageError::InvalidHelloField,
{
    let hello = ServerHelloSpec::new(alpn, selected_cipher, selected_extension);
    let payload = hello.encode()?;
    TlsRecord::new(TlsRecordType::Handshake, payload)
}

} // verus!
