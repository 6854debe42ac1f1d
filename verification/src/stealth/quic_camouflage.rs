use vstd::prelude::*;
use crate::text::{be16, be32, from_be16, lemma_be16_roundtrip, push_be16, push_be32};

verus! {

pub const QUIC_MASK_FLAGS: u8 = 0xC0;

const HEADER_LEN: usize = 7;

/// A payload carried in a packet that looks like QUIC, its bytes masked.
#[derive(Debug, Clone, PartialEq, Eq)]
pub struct QuicCamouflagePacket {
    pub connection_id: u32,
    pub packet_number: u16,
    pub payload: Vec<u8>,
}

#[derive(Debug, Clone, Copy, PartialEq, Eq, Structural)]
pub enum QuicCamouflageError {
    InvalidPayloadLength,
    MalformedPacket,
}

/// The mask byte of a packet: the XOR of the bytes of its connection id and packet number.
pub open spec fn mask_key(connection_id: u32, packet_number: u16) -> u8 {
    ((connection_id % 256) as u8) ^ (((connection_id / 256) % 256) as u8) ^ (((connection_id
        / 0x1_0000) % 256) as u8) ^ ((connection_id / 0x100_0000) as u8) ^ ((packet_number % 256) as u8)
        ^ ((packet_number / 256) as u8)
}

/// The bytes masked with a key that grows by one per position.
pub open spec fn masked(payload: Seq<u8>, key: u8) -> Seq<u8> {
    Seq::new(payload.len(), |i: int| payload[i] ^ (((key + i) % 256) as u8))
}

/// The wire form of a packet.
pub open spec fn quic_packet_bytes(connection_id: u32, packet_number: u16, payload: Seq<u8>) -> Seq<u8> {
    seq![0xC0u8] + be32(connection_id) + be16(packet_number) + be16(payload.len() as u16) + masked(
        payload,
        mask_key(connection_id, packet_number),
    )
}

/// The number that four bytes spell, high byte first.
pub open spec fn from_be32(b0: u8, b1: u8, b2: u8, b3: u8) -> u32 {
    (b0 * 0x100_0000 + b1 * 0x1_0000 + b2 * 256 + b3) as u32
}

/// The packet that the bytes hold, if they are one whole well-formed packet.
pub open spec fn decode_quic_spec(packet: Seq<u8>) -> Result<(u32, u16, Seq<u8>), QuicCamouflageError> {
    if packet.len() < 9 || packet[0] != 0xC0 {
        Err(QuicCamouflageError::MalformedPacket)
    } else {
        let cid = from_be32(packet[1], packet[2], packet[3], packet[4]);
        let pn = from_be16(packet[5], packet[6]);
        let len = from_be16(packet[7], packet[8]) as int;
        if packet.len() != 9 + len {
            Err(QuicCamouflageError::MalformedPacket)
        } else {
            Ok((cid, pn, masked(packet.skip(9), mask_key(cid, pn))))
        }
    }
}

fn derive_mask_key(connection_id: u32, packet_number: u16) -> (r: u8)
    ensures
        r == mask_key(connection_id, packet_number),
{
    let cid_fold = ((connection_id % 256) as u8) ^ (((connection_id / 256) % 256) as u8) ^ (((
    connection_id / 0x1_0000) % 256) as u8) ^ ((connection_id / 0x100_0000) as u8);
    cid_fold ^ ((packet_number % 256) as u8) ^ ((packet_number / 256) as u8)
}

fn mask_bytes(input: &[u8], key: u8) -> (r: Vec<u8>)
    ensures
        r@ == masked(input@, key),
{
    let mut out: Vec<u8> = Vec::new();
    let mut i: usize = 0;
    while i < input.len()
        invariant
            i <= input@.len(),
            out@.len() == i,
            forall|j: int| 0 <= j < i ==> #[trigger] out@[j] == input@[j] ^ (((key + j) % 256) as u8),
        decreases input@.len() - i,
    {
        let k: u8 = ((key as usize + i % 256) % 256) as u8;
        assert(((key + i % 256) % 256) == ((key + i) % 256)) by (nonlinear_arith);
        out.push(input[i] ^ k);
        i = i + 1;
    }
    assert(out@ =~= masked(input@, key));
    out
}

impl QuicCamouflagePacket {
    pub fn encode_masked(&self) -> (r: Result<Vec<u8>, QuicCamouflageError>)
        ensures
            r is Ok <==> 0 < self.payload@.len() <= 65535,
            r matches Ok(v) ==> v@ == quic_packet_bytes(
                self.connection_id,
                self.packet_number,
                self.payload@,
            ),
            r matches Err(e) ==> e == QuicCamouflageError::InvalidPayloadLength,
    {
        if self.payload.len() == 0 || self.payload.len() > 65535 {
            return Err(QuicCamouflageError::InvalidPayloadLength);
        }
        let payload_len = self.payload.len() as u16;
        let mut packet: Vec<u8> = Vec::new();
        packet.push(QUIC_MASK_FLAGS);
        push_be32(&mut packet, self.connection_id);
        push_be16(&mut packet, self.packet_number);
        let key = derive_mask_key(self.connection_id, self.packet_number);
        let masked_payload = mask_bytes(self.payload.as_slice(), key);
        push_be16(&mut packet, payload_len);
        crate::crypto::kdf::extend_bytes(&mut packet, masked_payload.as_slice());
        Ok(packet)
    }

    pub fn decode_masked(packet: &[u8]) -> (r: Result<Self, QuicCamouflageError>)
        ensures
            r matches Ok(p) ==> decode_quic_spec(packet@) == Ok::<
                (u32, u16, Seq<u8>),
                QuicCamouflageError,
            >((p.connection_id, p.packet_number, p.payload@)),
            r matches Err(e) ==> decode_quic_spec(packet@) == Err::<
                (u32, u16, Seq<u8>),
                QuicCamouflageError,
            >(e),
    {
        if packet.len() < HEADER_LEN + 2 {
            return Err(QuicCamouflageError::MalformedPacket);
        }
        if packet[0] != QUIC_MASK_FLAGS {
            return Err(QuicCamouflageError::MalformedPacket);
        }
        let connection_id: u32 = (packet[1] as u32) * 0x100_0000 + (packet[2] as u32) * 0x1_0000
            + (packet[3] as u32) * 256 + (packet[4] as u32);
        let packet_number: u16 = (packet[5] as u16) * 256 + (packet[6] as u16);
        let payload_len: usize = ((packet[7] as u16) * 256 + (packet[8] as u16)) as usize;
        if packet.len() != HEADER_LEN + 2 + payload_len {
            return Err(QuicCamouflageError::MalformedPacket);
        }
        let key = derive_mask_key(connection_id, packet_number);
        let mut rest: Vec<u8> = Vec::new();
        let mut i: usize = 9;
        while i < packet.len()
            invariant
                9 <= i <= packet@.len(),
                rest@ == packet@.subrange(9, i as int),
            decreases packet@.len() - i,
        {
            rest.push(packet[i]);
            assert(rest@ =~= packet@.subrange(9, i + 1));
            i = i + 1;
        }
        assert(rest@ =~= packet@.skip(9));
        let payload = mask_bytes(rest.as_slice(), key);
        Ok(QuicCamouflagePacket { connection_id, packet_number, payload })
    }
}

proof fn lemma_xor_twice(a: u8, b: u8)
    ensures
        (a ^ b) ^ b == a,
{
    assert((a ^ b) ^ b == a) by (bit_vector);
}

proof fn lemma_be32_roundtrip(x: u32)
    ensures
        from_be32(be32(x)[0], be32(x)[1], be32(x)[2], be32(x)[3]) == x,
{
}

proof fn lemma_unmask(payload: Seq<u8>, key: u8)
    ensures
        masked(masked(payload, key), key) == payload,
{
    assert forall|i: int| 0 <= i < payload.len() implies #[trigger] masked(masked(payload, key), key)[i]
        == payload[i] by {
        lemma_xor_twice(payload[i], ((key + i) % 256) as u8);
    }
    assert(masked(masked(payload, key), key) =~= payload);
}

/// Decoding an encoded packet gives the packet back.
pub proof fn lemma_quic_roundtrip(connection_id: u32, packet_number: u16, payload: Seq<u8>)
    requires
        0 < payload.len() <= 65535,
    ensures
        decode_quic_spec(quic_packet_bytes(connection_id, packet_number, payload)) == Ok::<
            (u32, u16, Seq<u8>),
            QuicCamouflageError,
        >((connection_id, packet_number, payload)),
{
    let b = quic_packet_bytes(connection_id, packet_number, payload);
    let key = mask_key(connection_id, packet_number);
    let c = be32(connection_id);
    let p = be16(packet_number);
    let l = be16(payload.len() as u16);
    let m = masked(payload, key);
    assert(b == seq![0xC0u8] + c + p + l + m);
    assert(b.len() == 9 + payload.len());
    assert(b[0] == 0xC0u8);
    assert(b[1] == c[0] && b[2] == c[1] && b[3] == c[2] && b[4] == c[3]);
    assert(b[5] == p[0] && b[6] == p[1]);
    assert(b[7] == l[0] && b[8] == l[1]);
    lemma_be32_roundtrip(connection_id);
    lemma_be16_roundtrip(packet_number);
    lemma_be16_roundtrip(payload.len() as u16);
    assert(b.skip(9) =~= m);
    lemma_unmask(payload, key);
}

} // verus!
