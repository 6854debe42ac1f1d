use vstd::prelude::*;
use vstd::utf8::encode_utf8;
use crate::auth::common_crypto::{hex_encode, push_hex};
use crate::stealth::entropy::EntropySource;
use crate::text::{decimal, push_decimal, push_str, utf8_bytes};

verus! {

/// The kind of cover traffic a decoy imitates.
#[derive(Debug, Clone, Copy, PartialEq, Eq, Structural)]
pub enum DecoyKind {
    HttpGet,
    HttpPost,
    HttpResponse,
}

/// Bytes of cover traffic to send between real packets.
#[derive(Debug, Clone)]
pub struct DecoyPayload {
    pub data: Vec<u8>,
    pub kind: DecoyKind,
}

/// The paths that decoy requests ask for, by index.
pub open spec fn decoy_path(i: int) -> Seq<char> {
    if i == 0 {
        "/api/v1/status"@
    } else if i == 1 {
        "/assets/main.js"@
    } else if i == 2 {
        "/favicon.ico"@
    } else if i == 3 {
        "/api/metrics"@
    } else if i == 4 {
        "/.well-known/security.txt"@
    } else if i == 5 {
        "/robots.txt"@
    } else {
        "/sitemap.xml"@
    }
}

/// The text of a decoy request for the path.
pub open spec fn decoy_get_text(path: Seq<char>) -> Seq<char> {
    "GET "@ + path + " HTTP/1.1\r\nHost: cdn.example.com\r\nAccept: */*\r\nConnection: keep-alive\r\n\r\n"@
}

/// The text of a decoy upload carrying the body in hex.
pub open spec fn decoy_post_text(body: Seq<u8>) -> Seq<char> {
    "POST /api/v1/telemetry HTTP/1.1\r\nHost: cdn.example.com\r\nContent-Type: application/octet-stream\r\nContent-Length: "@
        + decimal(2 * body.len()) + "\r\n\r\n"@ + hex_encode(body)
}

/// The text of a decoy response carrying the body in hex.
pub open spec fn decoy_response_text(body: Seq<u8>) -> Seq<char> {
    "HTTP/1.1 200 OK\r\nContent-Type: application/json\r\nContent-Length: "@ + decimal(
        2 * body.len(),
    ) + "\r\n\r\n"@ + hex_encode(body)
}

/// Whether the payload is a well-formed decoy of its kind.
pub open spec fn is_decoy(p: DecoyPayload) -> bool {
    match p.kind {
        DecoyKind::HttpGet => exists|i: int|
            0 <= i < 7 && p.data@ == encode_utf8(#[trigger] decoy_get_text(decoy_path(i))),
        DecoyKind::HttpPost => exists|body: Seq<u8>|
            32 <= body.len() <= 256 && p.data@ == encode_utf8(#[trigger] decoy_post_text(body)),
        DecoyKind::HttpResponse => exists|body: Seq<u8>|
            64 <= body.len() <= 512 && p.data@ == encode_utf8(#[trigger] decoy_response_text(body)),
    }
}

/// Decides when to slip cover traffic between the packets of a stream, and makes it.
pub struct DecoyStreamGenerator {
    entropy: EntropySource,
    enabled: bool,
    /// How many packets go by between two decoys.
    pub next_decoy_at_packet: u32,
    /// Packets sent since the last decoy.
    pub packet_counter: u32,
}

impl DecoyStreamGenerator {
    /// Whether the generator makes decoys at all.
    pub closed spec fn spec_enabled(&self) -> bool {
        self.enabled
    }

    /// Packets sent since the last decoy.
    pub closed spec fn spec_counter(&self) -> u32 {
        self.packet_counter
    }

    /// How many packets go by between two decoys.
    pub closed spec fn spec_next(&self) -> u32 {
        self.next_decoy_at_packet
    }

    pub fn new(enabled: bool) -> (r: Self)
        ensures
            r.spec_enabled() == enabled,
            r.spec_counter() == 0,
            10 <= r.spec_next() <= 50,
    {
        let mut entropy = EntropySource::new();
        let next = entropy.random_in_range(10, 50) as u32;
        DecoyStreamGenerator { entropy, enabled, next_decoy_at_packet: next, packet_counter: 0 }
    }

    /// Counts a packet of the real stream.
    pub fn on_packet_sent(&mut self)
        requires
            old(self).spec_counter() < u32::MAX,
        ensures
            final(self).spec_counter() == old(self).spec_counter() + 1,
            final(self).spec_next() == old(self).spec_next(),
            final(self).spec_enabled() == old(self).spec_enabled(),
    {
        self.packet_counter = self.packet_counter + 1;
    }

    /// A decoy when one is due, which starts the count again; `None` otherwise.
    pub fn should_inject_decoy(&mut self) -> (r: Option<DecoyPayload>)
        ensures
            final(self).spec_enabled() == old(self).spec_enabled(),
            r is Some <==> old(self).spec_enabled() && old(self).spec_counter()
                >= old(self).spec_next(),
            r is None ==> final(self).spec_counter() == old(self).spec_counter()
                && final(self).spec_next() == old(self).spec_next(),
            r matches Some(p) ==> {
                &&& is_decoy(p)
                &&& final(self).spec_counter() == 0
                &&& 10 <= final(self).spec_next() <= 50
            },
    {
        if !self.enabled {
            return None;
        }
        if self.packet_counter < self.next_decoy_at_packet {
            return None;
        }
        self.packet_counter = 0;
        self.next_decoy_at_packet = self.entropy.random_in_range(10, 50) as u32;
        let decoy_type = self.entropy.random_in_range(0, 2);
        let payload = if decoy_type == 0 {
            self.generate_fake_get()
        } else if decoy_type == 1 {
            self.generate_fake_post()
        } else {
            self.generate_fake_response()
        };
        Some(payload)
    }

    fn generate_fake_get(&mut self) -> (r: DecoyPayload)
        ensures
            r.kind == DecoyKind::HttpGet,
            is_decoy(r),
            final(self).spec_enabled() == old(self).spec_enabled(),
            final(self).spec_counter() == old(self).spec_counter(),
            final(self).spec_next() == old(self).spec_next(),
    {
        let idx = self.entropy.random_in_range(0, 6);
        let path = if idx == 0 {
            "/api/v1/status"
        } else if idx == 1 {
            "/assets/main.js"
        } else if idx == 2 {
            "/favicon.ico"
        } else if idx == 3 {
            "/api/metrics"
        } else if idx == 4 {
            "/.well-known/security.txt"
        } else if idx == 5 {
            "/robots.txt"
        } else {
            "/sitemap.xml"
        };
        let mut text: Vec<char> = Vec::new();
        push_str(&mut text, "GET ");
        push_str(&mut text, path);
        push_str(
            &mut text,
            " HTTP/1.1\r\nHost: cdn.example.com\r\nAccept: */*\r\nConnection: keep-alive\r\n\r\n",
        );
        let data = utf8_bytes(&text);
        proof {
            assert(text@ == decoy_get_text(decoy_path(idx as int)));
        }
        DecoyPayload { data, kind: DecoyKind::HttpGet }
    }

    /// Random bytes, as many as drawn between the bounds.
    fn random_body(&mut self, min: u16, max: u16) -> (r: Vec<u8>)
        requires
            min < max,
        ensures
            min <= r@.len() <= max,
            final(self).spec_enabled() == old(self).spec_enabled(),
            final(self).spec_counter() == old(self).spec_counter(),
            final(self).spec_next() == old(self).spec_next(),
    {
        let body_size = self.entropy.random_in_range(min, max) as usize;
        let mut body: Vec<u8> = vec![0u8; body_size];
        self.entropy.fill_padding(body.as_mut_slice());
        body
    }

    fn generate_fake_post(&mut self) -> (r: DecoyPayload)
        ensures
            r.kind == DecoyKind::HttpPost,
            is_decoy(r),
            final(self).spec_enabled() == old(self).spec_enabled(),
            final(self).spec_counter() == old(self).spec_counter(),
            final(self).spec_next() == old(self).spec_next(),
    {
        let body = self.random_body(32, 256);
        let mut text: Vec<char> = Vec::new();
        push_str(
            &mut text,
            "POST /api/v1/telemetry HTTP/1.1\r\nHost: cdn.example.com\r\nContent-Type: application/octet-stream\r\nContent-Length: ",
        );
        push_decimal(&mut text, 2 * body.len() as u64);
        push_str(&mut text, "\r\n\r\n");
        push_hex(&mut text, body.as_slice());
        let data = utf8_bytes(&text);
        proof {
            assert(text@ == decoy_post_text(body@));
        }
        DecoyPayload { data, kind: DecoyKind::HttpPost }
    }

    fn generate_fake_response(&mut self) -> (r: DecoyPayload)
        ensures
            r.kind == DecoyKind::HttpResponse,
            is_decoy(r),
            final(self).spec_enabled() == old(self).spec_enabled(),
            final(self).spec_counter() == old(self).spec_counter(),
            final(self).spec_next() == old(self).spec_next(),
    {
        let body = self.random_body(64, 512);
        let mut text: Vec<char> = Vec::new();
        push_str(&mut text, "HTTP/1.1 200 OK\r\nContent-Type: application/json\r\nContent-Length: ");
        push_decimal(&mut text, 2 * body.len() as u64);
        push_str(&mut text, "\r\n\r\n");
        push_hex(&mut text, body.as_slice());
        let data = utf8_bytes(&text);
        proof {
            assert(text@ == decoy_response_text(body@));
        }
        DecoyPayload { data, kind: DecoyKind::HttpResponse }
    }
}

} // verus!
