use vstd::prelude::*;
use vstd::string::*;
use vstd::utf8::encode_utf8;
use crate::config::profiles::byte_len;
use crate::text::{
    be16, chars_of, from_be16, has_prefix, lemma_be16_roundtrip, push_be16, split_chars, split_on,
    starts_with, trim, trim_chars, utf8_bytes,
};
use crate::crypto::kdf::extend_bytes;

verus! {

/// Why a DNS-over-HTTPS request could not be made or read.
#[derive(Debug, Clone, Copy, PartialEq, Eq, Structural)]
pub enum DohError {
    InvalidEndpoint,
    InvalidDomain,
    InvalidRecordType,
    MalformedResponse,
}

/// The text with which a DNS-over-HTTPS error is reported.
pub open spec fn doh_error_message(e: DohError) -> Seq<char> {
    match e {
        DohError::InvalidEndpoint => "invalid doh endpoint"@,
        DohError::InvalidDomain => "invalid dns domain"@,
        DohError::InvalidRecordType => "invalid dns record type"@,
        DohError::MalformedResponse => "malformed dns response"@,
    }
}

impl DohError {
    /// The text with which this error is reported.
    pub fn message(&self) -> (r: &'static str)
        ensures
            r@ == doh_error_message(*self),
    {
        match self {
            DohError::InvalidEndpoint => "invalid doh endpoint",
            DohError::InvalidDomain => "invalid dns domain",
            DohError::InvalidRecordType => "invalid dns record type",
            DohError::MalformedResponse => "malformed dns response",
        }
    }
}

/// The header fields of a DNS response that the forwarder reads.
#[derive(Debug, Clone, Copy, PartialEq, Eq, Structural)]
pub struct DohResponse {
    pub request_id: u16,
    pub answer_count: u16,
    pub rcode: u8,
}

/// Sends DNS queries to a resolver over HTTPS.
#[derive(Debug, Clone, PartialEq, Eq)]
pub struct DohForwarder {
    endpoint: String,
}

/// Whether a character is an ASCII letter or digit.
pub open spec fn ascii_alnum(c: char) -> bool {
    ('a' <= c && c <= 'z') || ('A' <= c && c <= 'Z') || ('0' <= c && c <= '9')
}

/// Whether a label of a domain name is acceptable: one to 63 bytes of ASCII letters, digits
/// and hyphens, not starting or ending with a hyphen.
pub open spec fn label_ok(l: Seq<char>) -> bool {
    &&& l.len() > 0
    &&& byte_len(l) <= 63
    &&& l[0] != '-'
    &&& l.last() != '-'
    &&& forall|i: int| 0 <= i < l.len() ==> ascii_alnum(#[trigger] l[i]) || l[i] == '-'
}

/// Whether a domain name is acceptable: up to 253 bytes, every dot-separated label acceptable.
pub open spec fn domain_ok(d: Seq<char>) -> bool {
    &&& d.len() > 0
    &&& byte_len(d) <= 253
    &&& forall|i: int| 0 <= i < split_on(d, '.').len() ==> label_ok(#[trigger] split_on(d, '.')[i])
}

/// The wire form of the labels: each as its length in a byte, then its bytes.
pub open spec fn labels_wire(ls: Seq<Seq<char>>) -> Seq<u8>
    decreases ls.len(),
{
    if ls.len() == 0 {
        Seq::empty()
    } else {
        labels_wire(ls.drop_last()) + seq![encode_utf8(ls.last()).len() as u8] + encode_utf8(ls.last())
    }
}

/// A recursion-desired DNS query for one record of the domain, in the Internet class.
pub open spec fn dns_query_bytes(domain: Seq<char>, record_type: u16, request_id: u16) -> Seq<u8> {
    be16(request_id) + be16(0x0100) + be16(1) + be16(0) + be16(0) + be16(0) + labels_wire(
        split_on(domain, '.'),
    ) + seq![0u8] + be16(record_type) + be16(1)
}

/// The header of a DNS response: its id, answer count and response code, if it is long
/// enough to hold a header.
pub open spec fn parse_response_spec(response: Seq<u8>) -> Result<DohResponse, DohError> {
    if response.len() < 12 {
        Err(DohError::MalformedResponse)
    } else {
        Ok(
            DohResponse {
                request_id: from_be16(response[0], response[1]),
                answer_count: from_be16(response[6], response[7]),
                rcode: (from_be16(response[2], response[3]) % 16) as u8,
            },
        )
    }
}

fn is_label_char(c: char) -> (r: bool)
    ensures
        r == (ascii_alnum(c) || c == '-'),
{
    ('a' <= c && c <= 'z') || ('A' <= c && c <= 'Z') || ('0' <= c && c <= '9') || c == '-'
}

fn label_ok_exec(l: &[char]) -> (r: bool)
    ensures
        r == label_ok(l@),
{
    if l.len() == 0 {
        return false;
    }
    if utf8_bytes(l).len() > 63 {
        return false;
    }
    if l[0] == '-' || l[l.len() - 1] == '-' {
        return false;
    }
    let mut i: usize = 0;
    while i < l.len()
        invariant
            i <= l@.len(),
            forall|j: int| 0 <= j < i ==> ascii_alnum(#[trigger] l@[j]) || l@[j] == '-',
        decreases l@.len() - i,
    {
        if !is_label_char(l[i]) {
            return false;
        }
        i = i + 1;
    }
    true
}

/// Checks a domain name.
fn validate_domain(domain: &str) -> (r: Result<(), DohError>)
    ensures
        r is Ok <==> domain_ok(domain@),
        r matches Err(e) ==> e == DohError::InvalidDomain,
{
    let d = chars_of(domain);
    if d.len() == 0 || utf8_bytes(&d).len() > 253 {
        return Err(DohError::InvalidDomain);
    }
    let labels = split_chars(&d, '.');
    let ghost all = split_on(domain@, '.');
    let mut i: usize = 0;
    while i < labels.len()
        invariant
            i <= labels@.len(),
            labels@.len() == all.len(),
            all == split_on(domain@, '.'),
            forall|j: int| 0 <= j < labels@.len() ==> #[trigger] labels@[j]@ == all[j],
            forall|j: int| 0 <= j < i ==> label_ok(#[trigger] all[j]),
        decreases labels@.len() - i,
    {
        if !label_ok_exec(labels[i].as_slice()) {
            assert(!label_ok(all[i as int]));
            return Err(DohError::InvalidDomain);
        }
        i = i + 1;
    }
    Ok(())
}

impl DohForwarder {
    pub closed spec fn spec_endpoint(&self) -> Seq<char> {
        self.endpoint@
    }

    /// A forwarder for an `https://` endpoint with something after the scheme.
    pub fn new(endpoint: String) -> (r: Result<Self, DohError>)
        ensures
            r is Ok <==> starts_with(endpoint@, "https://"@) && byte_len(trim(endpoint@)) > 8,
            r matches Ok(f) ==> f.spec_endpoint() == endpoint@,
            r matches Err(e) ==> e == DohError::InvalidEndpoint,
    {
        let e = chars_of(endpoint.as_str());
        let scheme = chars_of("https://");
        proof {
            reveal_strlit("https://");
        }
        if !has_prefix(&e, &scheme) || utf8_bytes(&trim_chars(&e)).len() <= 8 {
            return Err(DohError::InvalidEndpoint);
        }
        Ok(DohForwarder { endpoint })
    }

    pub fn endpoint(&self) -> (r: &str)
        ensures
            r@ == self.spec_endpoint(),
    {
        self.endpoint.as_str()
    }

    /// A DNS query for one record of the domain, as wire bytes.
    pub fn build_query(&self, domain: &str, record_type: u16, request_id: u16) -> (r: Result<
        Vec<u8>,
        DohError,
    >)
        ensures
            r is Ok <==> domain_ok(domain@) && record_type != 0,
            r matches Ok(q) ==> q@ == dns_query_bytes(domain@, record_type, request_id),
            r matches Err(e) ==> e == if !domain_ok(domain@) {
                DohError::InvalidDomain
            } else {
                DohError::InvalidRecordType
            },
    {
        validate_domain(domain)?;
        if record_type == 0 {
            return Err(DohError::InvalidRecordType);
        }
        let mut query: Vec<u8> = Vec::new();
        push_be16(&mut query, request_id);
        push_be16(&mut query, 0x0100);
        push_be16(&mut query, 1);
        push_be16(&mut query, 0);
        push_be16(&mut query, 0);
        push_be16(&mut query, 0);
        let d = chars_of(domain);
        let labels = split_chars(&d, '.');
        let ghost all = split_on(domain@, '.');
        let ghost start = query@;
        let mut i: usize = 0;
        while i < labels.len()
            invariant
                i <= labels@.len(),
                labels@.len() == all.len(),
                all == split_on(domain@, '.'),
                domain_ok(domain@),
                forall|j: int| 0 <= j < labels@.len() ==> #[trigger] labels@[j]@ == all[j],
                query@ == start + labels_wire(all.take(i as int)),
            decreases labels@.len() - i,
        {
            let bytes = utf8_bytes(labels[i].as_slice());
            proof {
                assert(label_ok(all[i as int]));
                assert(all.take(i + 1).drop_last() =~= all.take(i as int));
                assert(all.take(i + 1).last() == all[i as int]);
            }
            let label_len: u8 = if bytes.len() <= 255 {
                bytes.len() as u8
            } else {
                return Err(DohError::InvalidDomain);
            };
            query.push(label_len);
            extend_bytes(&mut query, bytes.as_slice());
            proof {
                assert(query@ =~= start + labels_wire(all.take(i + 1)));
            }
            i = i + 1;
        }
        proof {
            assert(all.take(all.len() as int) =~= all);
        }
        query.push(0);
        push_be16(&mut query, record_type);
        push_be16(&mut query, 1);
        proof {
            assert(query@ =~= dns_query_bytes(domain@, record_type, request_id));
        }
        Ok(query)
    }

    /// Reads the header of a DNS response.
    pub fn parse_response(&self, response: &[u8]) -> (r: Result<DohResponse, DohError>)
        ensures
            r == parse_response_spec(response@),
    {
        if response.len() < 12 {
            return Err(DohError::MalformedResponse);
        }
        let request_id: u16 = (response[0] as u16) * 256 + (response[1] as u16);
        let flags: u16 = (response[2] as u16) * 256 + (response[3] as u16);
        let answer_count: u16 = (response[6] as u16) * 256 + (response[7] as u16);
        let rcode = (flags & 0x000F) as u8;
        assert(flags & 0x000F == flags % 16) by (bit_vector);
        Ok(DohResponse { request_id, answer_count, rcode })
    }
}

/// Reading the header of a query the forwarder built gives back its id, no answers and no
/// error code.
pub proof fn lemma_query_header_roundtrip(domain: Seq<char>, record_type: u16, request_id: u16)
    ensures
        parse_response_spec(dns_query_bytes(domain, record_type, request_id)) == Ok::<
            DohResponse,
            DohError,
        >(DohResponse { request_id, answer_count: 0, rcode: 0 }),
{
    let q = dns_query_bytes(domain, record_type, request_id);
    let h = be16(request_id) + be16(0x0100) + be16(1) + be16(0) + be16(0) + be16(0);
    assert(q == h + (labels_wire(split_on(domain, '.')) + seq![0u8] + be16(record_type) + be16(1)));
    assert(h.len() == 12);
    assert(q[0] == be16(request_id)[0] && q[1] == be16(request_id)[1]);
    assert(q[2] == 1u8 && q[3] == 0u8);
    assert(q[6] == 0u8 && q[7] == 0u8);
    lemma_be16_roundtrip(request_id);
}

/// The header fields of a response are read from fixed bytes: the id from bytes 0 and 1,
/// the answer count (ANCOUNT) from bytes 6 and 7 alone, big-endian, and the response code
/// from the low four bits of byte 3; a response shorter than a header is malformed.
pub proof fn lemma_response_header_fields(response: Seq<u8>)
    ensures
        response.len() < 12 ==> parse_response_spec(response) == Err::<DohResponse, DohError>(
            DohError::MalformedResponse,
        ),
        response.len() >= 12 ==> (parse_response_spec(response) matches Ok(h) && h.request_id as int
            == response[0] as int * 256 + response[1] as int && h.answer_count as int
            == response[6] as int * 256 + response[7] as int && h.rcode as int == response[3] as int
            % 16),
{
    if response.len() >= 12 {
        let hi = response[2] as int;
        let lo = response[3] as int;
        assert((hi * 256 + lo) % 16 == lo % 16) by (nonlinear_arith)
            requires
                0 <= hi < 256,
                0 <= lo < 256,
        ;
        assert(response[0] as int * 256 + response[1] as int <= 65535);
        assert(response[6] as int * 256 + response[7] as int <= 65535);
        assert(hi * 256 + lo <= 65535);
    }
}

/// The answer count of a response depends on bytes 6 and 7 only: two responses that agree
/// there have the same answer count, whatever their other bytes hold.
pub proof fn lemma_answer_count_reads_ancount_only(a: Seq<u8>, b: Seq<u8>)
    requires
        a.len() >= 12,
        b.len() >= 12,
        a[6] == b[6],
        a[7] == b[7],
    ensures
        parse_response_spec(a) matches Ok(ha) && parse_response_spec(b) matches Ok(hb)
            && ha.answer_count == hb.answer_count,
{
}

/// The bytes of a query: a 12-byte header with the request id, the recursion-desired flag,
/// one question and no other records; then the labels; then a zero byte, the record type
/// and the Internet class (1), the numbers big-endian.
pub proof fn lemma_query_layout(domain: Seq<char>, record_type: u16, request_id: u16)
    ensures
        ({
            let q = dns_query_bytes(domain, record_type, request_id);
            let n = q.len() as int;
            &&& n == 17 + labels_wire(split_on(domain, '.')).len()
            &&& q[0] as int * 256 + q[1] as int == request_id as int
            &&& q[2] == 1u8 && q[3] == 0u8
            &&& q[4] == 0u8 && q[5] == 1u8
            &&& q[6] == 0u8 && q[7] == 0u8 && q[8] == 0u8 && q[9] == 0u8 && q[10] == 0u8 && q[11]
                == 0u8
            &&& q.subrange(12, n - 5) == labels_wire(split_on(domain, '.'))
            &&& q[n - 5] == 0u8
            &&& q[n - 4] as int * 256 + q[n - 3] as int == record_type as int
            &&& q[n - 2] == 0u8 && q[n - 1] == 1u8
        }),
{
    let q = dns_query_bytes(domain, record_type, request_id);
    let l = labels_wire(split_on(domain, '.'));
    let h = be16(request_id) + be16(0x0100) + be16(1) + be16(0) + be16(0) + be16(0);
    let t = seq![0u8] + be16(record_type) + be16(1);
    assert(q =~= h + l + t);
    let n = q.len() as int;
    assert(q.subrange(12, n - 5) =~= l);
    assert(q[n - 4] == be16(record_type)[0] && q[n - 3] == be16(record_type)[1]);
    assert(q[0] == be16(request_id)[0] && q[1] == be16(request_id)[1]);
    let x = request_id as int;
    assert((x / 256) * 256 + x % 256 == x);
    let y = record_type as int;
    assert((y / 256) * 256 + y % 256 == y);
}

} // verus!
