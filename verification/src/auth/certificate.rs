use vstd::prelude::*;
use vstd::string::*;
use vstd::utf8::encode_utf8;
use crate::auth::{AuthBackend, AuthError, AuthIdentity, AuthIdentityView, AuthInput, AuthInputView};
use crate::auth::common_crypto::{
    blake3_keyed, ct_eq_bytes, decode_hex_32, hex32_decode, hex_encode, hex_value, lemma_hex32_roundtrip,
    lemma_hex_encode_lacks, push_hex, sign_payload,
};
use crate::text::{
    chars_of, decimal, join_chars, join_with, parse_unsigned, parse_unsigned_chars, push_decimal,
    push_str, seq_eq, split_chars, split_on, split_once, split_once_chars, string_from_chars,
    trim, trim_chars, utf8_bytes, utf8_chars, utf8_text, is_digit, lacks, lemma_decimal_parses,
    lemma_parse_decimal, lemma_split_on_join, lemma_split_once_concat,
};
use crate::util::AuthMethod;

verus! {

/// The time against which certificates are checked.
#[derive(Debug, Clone, PartialEq, Eq)]
pub struct CertificatePolicy {
    pub now_unix: u64,
}

impl Default for CertificatePolicy {
    fn default() -> (r: Self)
        ensures
            r.now_unix == 0,
    {
        CertificatePolicy { now_unix: 0 }
    }
}

/// An issuer whose signatures are trusted, with its signing key.
#[derive(Debug, Clone, PartialEq, Eq)]
pub struct TrustAnchor {
    pub issuer: String,
    pub key: [u8; 32],
}

pub struct TrustAnchorView {
    pub issuer: Seq<char>,
    pub key: Seq<u8>,
}

impl View for TrustAnchor {
    type V = TrustAnchorView;

    open spec fn view(&self) -> TrustAnchorView {
        TrustAnchorView { issuer: self.issuer@, key: self.key@ }
    }
}

/// What the lines of an anchor file set so far: the issuer and the key.
pub struct AnchorScan {
    pub issuer: Option<Seq<char>>,
    pub key: Option<Seq<u8>>,
}

/// The effect of one line of an anchor file; `None` rejects the file.
pub open spec fn anchor_scan_line(st: AnchorScan, raw: Seq<char>) -> Option<AnchorScan> {
    let line = trim(raw);
    if line.len() == 0 {
        Some(st)
    } else {
        match split_once(line, '=') {
            None => None,
            Some((field, value)) => if field == "issuer"@ {
                Some(AnchorScan { issuer: Some(value), ..st })
            } else if field == "key"@ {
                match hex32_decode(value) {
                    None => None,
                    Some(k) => Some(AnchorScan { key: Some(k), ..st }),
                }
            } else {
                None
            },
        }
    }
}

pub open spec fn anchor_scan_lines(st: AnchorScan, lines: Seq<Seq<char>>) -> Option<AnchorScan>
    decreases lines.len(),
{
    if lines.len() == 0 {
        Some(st)
    } else {
        match anchor_scan_line(st, lines[0]) {
            None => None,
            Some(next) => anchor_scan_lines(next, lines.drop_first()),
        }
    }
}

/// The anchor that an anchor file describes, if it is well formed and names both fields.
pub open spec fn parse_anchor_spec(source: Seq<char>) -> Option<TrustAnchorView> {
    match anchor_scan_lines(AnchorScan { issuer: None, key: None }, split_on(source, '\n')) {
        Some(st) => if st.issuer is Some && st.key is Some {
            Some(TrustAnchorView { issuer: st.issuer->0, key: st.key->0 })
        } else {
            None
        },
        None => None,
    }
}

impl TrustAnchor {
    /// Reads an anchor from `issuer=` and `key=` lines.
    pub fn parse(source: &str) -> (r: Result<Self, AuthError>)
        ensures
            r matches Ok(a) ==> parse_anchor_spec(source@) == Some(a@),
            r is Err ==> parse_anchor_spec(source@) is None,
            r matches Err(e) ==> e == AuthError::Rejected,
    {
        let src = chars_of(source);
        let lines = split_chars(&src, '\n');
        let ghost all = split_on(source@, '\n');
        let mut issuer: Option<Vec<char>> = None;
        let mut key: Option<[u8; 32]> = None;
        assert(all.skip(0) =~= all);
        let mut i: usize = 0;
        while i < lines.len()
            invariant
                lines@.len() == all.len(),
                all == split_on(source@, '\n'),
                forall|j: int| 0 <= j < lines@.len() ==> #[trigger] lines@[j]@ == all[j],
                i <= lines@.len(),
                anchor_scan_lines(AnchorScan { issuer: None, key: None }, all) == anchor_scan_lines(
                    AnchorScan {
                        issuer: match issuer {
                            Some(v) => Some(v@),
                            None => None,
                        },
                        key: match key {
                            Some(k) => Some(k@),
                            None => None,
                        },
                    },
                    all.skip(i as int),
                ),
            decreases lines@.len() - i,
        {
            assert(all.skip(i as int)[0] == all[i as int]);
            assert(all.skip(i as int).drop_first() =~= all.skip(i + 1));
            let line = trim_chars(&lines[i]);
            if line.len() > 0 {
                let (field, value) = match split_once_chars(&line, '=') {
                    None => {
                        return Err(AuthError::Rejected);
                    },
                    Some(fv) => fv,
                };
                if seq_eq(&field, &chars_of("issuer")) {
                    issuer = Some(value);
                } else if seq_eq(&field, &chars_of("key")) {
                    key = Some(decode_hex_32(&value)?);
                } else {
                    return Err(AuthError::Rejected);
                }
            }
            i = i + 1;
        }
        assert(all.skip(i as int) =~= Seq::<Seq<char>>::empty());
        let issuer = match issuer {
            Some(v) => v,
            None => {
                return Err(AuthError::Rejected);
            },
        };
        let key = match key {
            Some(k) => k,
            None => {
                return Err(AuthError::Rejected);
            },
        };
        Ok(TrustAnchor { issuer: string_from_chars(&issuer), key })
    }
}

/// What a certificate asserts about its holder.
#[derive(Debug, Clone, PartialEq, Eq)]
pub struct CertificateClaims {
    pub subject: String,
    pub issuer: String,
    pub serial: String,
    pub not_after_unix: u64,
    pub public_key: String,
}

pub struct CertificateClaimsView {
    pub subject: Seq<char>,
    pub issuer: Seq<char>,
    pub serial: Seq<char>,
    pub not_after_unix: u64,
    pub public_key: Seq<char>,
}

impl View for CertificateClaims {
    type V = CertificateClaimsView;

    open spec fn view(&self) -> CertificateClaimsView {
        CertificateClaimsView {
            subject: self.subject@,
            issuer: self.issuer@,
            serial: self.serial@,
            not_after_unix: self.not_after_unix,
            public_key: self.public_key@,
        }
    }
}

/// The signed part of a certificate.
pub open spec fn certificate_unsigned(c: CertificateClaimsView) -> Seq<char> {
    "sub="@ + c.subject + ";iss="@ + c.issuer + ";serial="@ + c.serial + ";not_after="@ + decimal(
        c.not_after_unix as nat,
    ) + ";pub="@ + c.public_key
}

/// A certificate: its signed part, then `;sig=` and the hexadecimal keyed hash of that part.
pub open spec fn certificate_encoding(c: CertificateClaimsView, key: Seq<u8>) -> Seq<char> {
    certificate_unsigned(c) + ";sig="@ + hex_encode(
        blake3_keyed(key, encode_utf8(certificate_unsigned(c))),
    )
}

impl CertificateClaims {
    /// The certificate that carries these claims, signed with the anchor's key.
    pub fn encode_signed(&self, trust_anchor_key: &[u8; 32]) -> (r: String)
        ensures
            r@ == certificate_encoding(self@, trust_anchor_key@),
    {
        let mut unsigned: Vec<char> = Vec::new();
        push_str(&mut unsigned, "sub=");
        push_str(&mut unsigned, self.subject.as_str());
        push_str(&mut unsigned, ";iss=");
        push_str(&mut unsigned, self.issuer.as_str());
        push_str(&mut unsigned, ";serial=");
        push_str(&mut unsigned, self.serial.as_str());
        push_str(&mut unsigned, ";not_after=");
        push_decimal(&mut unsigned, self.not_after_unix);
        push_str(&mut unsigned, ";pub=");
        push_str(&mut unsigned, self.public_key.as_str());
        assert(unsigned@ =~= certificate_unsigned(self@));
        let bytes = utf8_bytes(&unsigned);
        let signature = sign_payload(trust_anchor_key, bytes.as_slice());
        let mut out = unsigned;
        push_str(&mut out, ";sig=");
        push_hex(&mut out, &signature);
        string_from_chars(&out)
    }
}

/// What the fields of a certificate read so far hold.
pub struct CertificateScan {
    pub subject: Option<Seq<char>>,
    pub issuer: Option<Seq<char>>,
    pub serial: Option<Seq<char>>,
    pub not_after: Option<u64>,
    pub public_key: Option<Seq<char>>,
    pub signature: Option<Seq<u8>>,
    pub unsigned: Seq<Seq<char>>,
}

pub open spec fn empty_certificate_scan() -> CertificateScan {
    CertificateScan {
        subject: None,
        issuer: None,
        serial: None,
        not_after: None,
        public_key: None,
        signature: None,
        unsigned: Seq::empty(),
    }
}

/// The effect of one `;`-separated part of a certificate; `None` rejects it.
pub open spec fn certificate_scan_part(st: CertificateScan, part: Seq<char>) -> Option<CertificateScan> {
    if part.len() == 0 {
        Some(st)
    } else {
        match split_once(part, '=') {
            None => None,
            Some((field, value)) => {
                if field == "sub"@ {
                    Some(CertificateScan { subject: Some(value), unsigned: st.unsigned.push(part), ..st })
                } else if field == "iss"@ {
                    Some(CertificateScan { issuer: Some(value), unsigned: st.unsigned.push(part), ..st })
                } else if field == "serial"@ {
                    Some(CertificateScan { serial: Some(value), unsigned: st.unsigned.push(part), ..st })
                } else if field == "not_after"@ {
                    match parse_unsigned(value, u64::MAX as nat) {
                        None => None,
                        Some(v) => Some(
                            CertificateScan {
                                not_after: Some(v as u64),
                                unsigned: st.unsigned.push(part),
                                ..st
                            },
                        ),
                    }
                } else if field == "pub"@ {
                    Some(
                        CertificateScan { public_key: Some(value), unsigned: st.unsigned.push(part), ..st },
                    )
                } else if field == "sig"@ {
                    match hex32_decode(value) {
                        None => None,
                        Some(b) => Some(CertificateScan { signature: Some(b), ..st }),
                    }
                } else {
                    None
                }
            },
        }
    }
}

pub open spec fn certificate_scan_parts(st: CertificateScan, parts: Seq<Seq<char>>) -> Option<
    CertificateScan,
>
    decreases parts.len(),
{
    if parts.len() == 0 {
        Some(st)
    } else {
        match certificate_scan_part(st, parts[0]) {
            None => None,
            Some(next) => certificate_scan_parts(next, parts.drop_first()),
        }
    }
}

/// The claims, the signature and the signed text of a certificate, if it is well formed.
pub open spec fn parse_certificate_spec(text: Seq<char>) -> Option<
    (CertificateClaimsView, Seq<u8>, Seq<char>),
> {
    match certificate_scan_parts(empty_certificate_scan(), split_on(text, ';')) {
        None => None,
        Some(st) => if st.subject is Some && st.issuer is Some && st.serial is Some
            && st.not_after is Some && st.public_key is Some && st.signature is Some {
            Some(
                (
                    CertificateClaimsView {
                        subject: st.subject->0,
                        issuer: st.issuer->0,
                        serial: st.serial->0,
                        not_after_unix: st.not_after->0,
                        public_key: st.public_key->0,
                    },
                    st.signature->0,
                    join_with(st.unsigned, ';'),
                ),
            )
        } else {
            None
        },
    }
}

struct CertificateScanState {
    subject: Option<Vec<char>>,
    issuer: Option<Vec<char>>,
    serial: Option<Vec<char>>,
    not_after: Option<u64>,
    public_key: Option<Vec<char>>,
    signature: Option<[u8; 32]>,
    unsigned: Vec<Vec<char>>,
}

spec fn opt_chars_view(o: Option<Vec<char>>) -> Option<Seq<char>> {
    match o {
        Some(v) => Some(v@),
        None => None,
    }
}

impl CertificateScanState {
    spec fn view(&self) -> CertificateScan {
        CertificateScan {
            subject: opt_chars_view(self.subject),
            issuer: opt_chars_view(self.issuer),
            serial: opt_chars_view(self.serial),
            not_after: self.not_after,
            public_key: opt_chars_view(self.public_key),
            signature: match self.signature {
                Some(b) => Some(b@),
                None => None,
            },
            unsigned: self.unsigned@.map_values(|p: Vec<char>| p@),
        }
    }
}

fn scan_certificate_part(st: &mut CertificateScanState, part: &Vec<char>) -> (ok: bool)
    ensures
        ok ==> certificate_scan_part(old(st).view(), part@) == Some(final(st).view()),
        !ok ==> certificate_scan_part(old(st).view(), part@) is None,
{
    if part.len() == 0 {
        return true;
    }
    let (field, value) = match split_once_chars(part.as_slice(), '=') {
        None => {
            return false;
        },
        Some(kv) => kv,
    };
    let ghost old_unsigned = st.unsigned@.map_values(|p: Vec<char>| p@);
    if seq_eq(&field, &chars_of("sub")) {
        st.subject = Some(value);
        st.unsigned.push(part.clone());
    } else if seq_eq(&field, &chars_of("iss")) {
        st.issuer = Some(value);
        st.unsigned.push(part.clone());
    } else if seq_eq(&field, &chars_of("serial")) {
        st.serial = Some(value);
        st.unsigned.push(part.clone());
    } else if seq_eq(&field, &chars_of("not_after")) {
        match parse_unsigned_chars(&value, u64::MAX) {
            None => {
                return false;
            },
            Some(v) => {
                st.not_after = Some(v);
                st.unsigned.push(part.clone());
            },
        }
    } else if seq_eq(&field, &chars_of("pub")) {
        st.public_key = Some(value);
        st.unsigned.push(part.clone());
    } else if seq_eq(&field, &chars_of("sig")) {
        match decode_hex_32(&value) {
            Err(_) => {
                return false;
            },
            Ok(b) => {
                st.signature = Some(b);
            },
        }
    } else {
        return false;
    }
    assert(st.unsigned@.map_values(|p: Vec<char>| p@) =~= old_unsigned.push(part@)
        || st.unsigned@.map_values(|p: Vec<char>| p@) =~= old_unsigned);
    true
}

fn take_field(v: Option<Vec<char>>) -> (r: Result<String, AuthError>)
    ensures
        r matches Ok(s) ==> opt_chars_view(v) == Some(s@),
        r is Err ==> v is None,
        r matches Err(e) ==> e == AuthError::Rejected,
{
    match v {
        Some(c) => Ok(string_from_chars(&c)),
        None => Err(AuthError::Rejected),
    }
}

/// Reads a certificate's claims, its signature and the text that the signature covers.
pub fn parse_certificate(certificate: &[char]) -> (r: Result<
    (CertificateClaims, [u8; 32], Vec<char>),
    AuthError,
>)
    ensures
        r matches Ok((c, sig, unsigned)) ==> parse_certificate_spec(certificate@) == Some(
            (c@, sig@, unsigned@),
        ),
        r is Err ==> parse_certificate_spec(certificate@) is None,
        r matches Err(e) ==> e == AuthError::Rejected,
{
    let parts = split_chars(certificate, ';');
    let ghost all = split_on(certificate@, ';');
    let mut st = CertificateScanState {
        subject: None,
        issuer: None,
        serial: None,
        not_after: None,
        public_key: None,
        signature: None,
        unsigned: Vec::new(),
    };
    assert(st.view().unsigned =~= Seq::<Seq<char>>::empty());
    assert(all.skip(0) =~= all);
    let mut i: usize = 0;
    while i < parts.len()
        invariant
            parts@.len() == all.len(),
            all == split_on(certificate@, ';'),
            forall|j: int| 0 <= j < parts@.len() ==> #[trigger] parts@[j]@ == all[j],
            i <= parts@.len(),
            certificate_scan_parts(empty_certificate_scan(), all) == certificate_scan_parts(
                st.view(),
                all.skip(i as int),
            ),
        decreases parts@.len() - i,
    {
        assert(all.skip(i as int)[0] == all[i as int]);
        assert(all.skip(i as int).drop_first() =~= all.skip(i + 1));
        let ghost before = st.view();
        if !scan_certificate_part(&mut st, &parts[i]) {
            assert(certificate_scan_parts(before, all.skip(i as int)) is None);
            return Err(AuthError::Rejected);
        }
        i = i + 1;
    }
    assert(all.skip(i as int) =~= Seq::<Seq<char>>::empty());
    let ghost fin = st.view();
    let unsigned = join_chars(&st.unsigned, ';');
    let subject = take_field(st.subject)?;
    let issuer = take_field(st.issuer)?;
    let serial = take_field(st.serial)?;
    let not_after_unix = match st.not_after {
        Some(n) => n,
        None => {
            return Err(AuthError::Rejected);
        },
    };
    let public_key = take_field(st.public_key)?;
    let signature = match st.signature {
        Some(s) => s,
        None => {
            return Err(AuthError::Rejected);
        },
    };
    Ok((CertificateClaims { subject, issuer, serial, not_after_unix, public_key }, signature, unsigned))
}

/// Admits clients that present a certificate signed by a trusted issuer and not expired.
#[derive(Debug, Clone)]
pub struct CertificateBackend {
    anchors: Vec<TrustAnchor>,
    policy: CertificatePolicy,
}

/// The first anchor that names the issuer.
pub open spec fn first_anchor(anchors: Seq<TrustAnchorView>, issuer: Seq<char>, from: int) -> Option<int>
    decreases anchors.len() - from,
{
    if from < 0 || from >= anchors.len() {
        None
    } else if anchors[from].issuer == issuer {
        Some(from)
    } else {
        first_anchor(anchors, issuer, from + 1)
    }
}

/// The decision of a certificate backend with the given anchors and clock.
pub open spec fn certificate_decision(anchors: Seq<TrustAnchorView>, now_unix: u64, input: AuthInputView) -> Result<
    AuthIdentityView,
    AuthError,
> {
    if input.payload.len() == 0 {
        Err(AuthError::EmptyPayload)
    } else if input.method != AuthMethod::Certificate {
        Err(AuthError::UnsupportedBackend { method: input.method })
    } else {
        match utf8_text(input.payload) {
            None => Err(AuthError::Rejected),
            Some(text) => match parse_certificate_spec(text) {
                None => Err(AuthError::Rejected),
                Some((claims, sig, unsigned)) => match first_anchor(anchors, claims.issuer, 0) {
                    None => Err(AuthError::Rejected),
                    Some(i) => if sig != blake3_keyed(anchors[i].key, encode_utf8(unsigned)) {
                        Err(AuthError::Rejected)
                    } else if claims.not_after_unix <= now_unix {
                        Err(AuthError::Rejected)
                    } else {
                        Ok(
                            AuthIdentityView {
                                subject: claims.subject,
                                method: AuthMethod::Certificate,
                            },
                        )
                    },
                },
            },
        }
    }
}

fn find_anchor(anchors: &Vec<TrustAnchor>, issuer: &[char]) -> (r: Option<usize>)
    ensures
        r matches Some(k) ==> k < anchors@.len() && first_anchor(
            anchors@.map_values(|a: TrustAnchor| a@),
            issuer@,
            0,
        ) == Some(k as int),
        r is None ==> first_anchor(anchors@.map_values(|a: TrustAnchor| a@), issuer@, 0) is None,
{
    let ghost view = anchors@.map_values(|a: TrustAnchor| a@);
    let mut i: usize = 0;
    while i < anchors.len()
        invariant
            i <= anchors@.len(),
            view == anchors@.map_values(|a: TrustAnchor| a@),
            first_anchor(view, issuer@, 0) == first_anchor(view, issuer@, i as int),
        decreases anchors@.len() - i,
    {
        let candidate = chars_of(anchors[i].issuer.as_str());
        if seq_eq(&candidate, issuer) {
            return Some(i);
        }
        i = i + 1;
    }
    None
}

impl CertificateBackend {
    pub closed spec fn spec_anchors(&self) -> Seq<TrustAnchorView> {
        self.anchors@.map_values(|a: TrustAnchor| a@)
    }

    pub closed spec fn spec_now(&self) -> u64 {
        self.policy.now_unix
    }

    pub fn new(anchors: Vec<TrustAnchor>, policy: CertificatePolicy) -> (r: Self)
        ensures
            r.spec_anchors() == anchors@.map_values(|a: TrustAnchor| a@),
            r.spec_now() == policy.now_unix,
    {
        CertificateBackend { anchors, policy }
    }
}

impl AuthBackend for CertificateBackend {
    open spec fn spec_authenticate(&self, input: AuthInputView) -> Result<AuthIdentityView, AuthError> {
        certificate_decision(self.spec_anchors(), self.spec_now(), input)
    }

    fn authenticate(&self, input: AuthInput) -> (r: Result<AuthIdentity, AuthError>) {
        if input.payload.len() == 0 {
            return Err(AuthError::EmptyPayload);
        }
        if input.method != AuthMethod::Certificate {
            return Err(AuthError::UnsupportedBackend { method: input.method });
        }
        let text = match utf8_chars(input.payload.as_slice()) {
            Some(t) => t,
            None => {
                return Err(AuthError::Rejected);
            },
        };
        let (claims, signature, unsigned_payload) = parse_certificate(&text)?;
        let issuer = chars_of(claims.issuer.as_str());
        let index = match find_anchor(&self.anchors, &issuer) {
            Some(k) => k,
            None => {
                return Err(AuthError::Rejected);
            },
        };
        let bytes = utf8_bytes(&unsigned_payload);
        let expected_signature = sign_payload(&self.anchors[index].key, bytes.as_slice());
        if !ct_eq_bytes(&signature, &expected_signature) {
            return Err(AuthError::Rejected);
        }
        if claims.not_after_unix <= self.policy.now_unix {
            return Err(AuthError::Rejected);
        }
        Ok(AuthIdentity { subject: claims.subject, method: AuthMethod::Certificate })
    }
}

/// Whether the claims can travel in a certificate and be read back: no `;` in the subject,
/// issuer, serial or public key.
pub open spec fn certificate_claims_encodable(c: CertificateClaimsView) -> bool {
    &&& lacks(c.subject, ';')
    &&& lacks(c.issuer, ';')
    &&& lacks(c.serial, ';')
    &&& lacks(c.public_key, ';')
}

/// The `;`-separated fields of a certificate's signed part.
pub open spec fn certificate_units(c: CertificateClaimsView) -> Seq<Seq<char>> {
    seq![
        "sub="@ + c.subject,
        "iss="@ + c.issuer,
        "serial="@ + c.serial,
        "not_after="@ + decimal(c.not_after_unix as nat),
        "pub="@ + c.public_key,
    ]
}

proof fn lemma_certificate_literals()
    ensures
        "sub="@ == "sub"@ + seq!['='],
        "iss="@ == "iss"@ + seq!['='],
        "serial="@ == "serial"@ + seq!['='],
        "not_after="@ == "not_after"@ + seq!['='],
        "pub="@ == "pub"@ + seq!['='],
        "sig="@ == "sig"@ + seq!['='],
        ";iss="@ == seq![';'] + "iss="@,
        ";serial="@ == seq![';'] + "serial="@,
        ";not_after="@ == seq![';'] + "not_after="@,
        ";pub="@ == seq![';'] + "pub="@,
        ";sig="@ == seq![';'] + "sig="@,
        lacks("sub"@, '=') && lacks("iss"@, '=') && lacks("serial"@, '=') && lacks("not_after"@, '=')
            && lacks("pub"@, '=') && lacks("sig"@, '='),
        lacks("sub="@, ';') && lacks("iss="@, ';') && lacks("serial="@, ';') && lacks(
            "not_after="@,
            ';',
        ) && lacks("pub="@, ';') && lacks("sig="@, ';'),
        "iss"@ != "sub"@,
        "serial"@ != "sub"@ && "serial"@ != "iss"@,
        "not_after"@ != "sub"@ && "not_after"@ != "iss"@ && "not_after"@ != "serial"@,
        "pub"@ != "sub"@ && "pub"@ != "iss"@ && "pub"@ != "serial"@ && "pub"@ != "not_after"@,
        "sig"@ != "sub"@ && "sig"@ != "iss"@ && "sig"@ != "serial"@ && "sig"@ != "not_after"@
            && "sig"@ != "pub"@,
{
    reveal_strlit("sub=");
    reveal_strlit("iss=");
    reveal_strlit("serial=");
    reveal_strlit("not_after=");
    reveal_strlit("pub=");
    reveal_strlit("sig=");
    reveal_strlit(";iss=");
    reveal_strlit(";serial=");
    reveal_strlit(";not_after=");
    reveal_strlit(";pub=");
    reveal_strlit(";sig=");
    reveal_strlit("sub");
    reveal_strlit("iss");
    reveal_strlit("serial");
    reveal_strlit("not_after");
    reveal_strlit("pub");
    reveal_strlit("sig");
    assert("sub="@ =~= "sub"@ + seq!['=']);
    assert("iss="@ =~= "iss"@ + seq!['=']);
    assert("serial="@ =~= "serial"@ + seq!['=']);
    assert("not_after="@ =~= "not_after"@ + seq!['=']);
    assert("pub="@ =~= "pub"@ + seq!['=']);
    assert("sig="@ =~= "sig"@ + seq!['=']);
    assert(";iss="@ =~= seq![';'] + "iss="@);
    assert(";serial="@ =~= seq![';'] + "serial="@);
    assert(";not_after="@ =~= seq![';'] + "not_after="@);
    assert(";pub="@ =~= seq![';'] + "pub="@);
    assert(";sig="@ =~= seq![';'] + "sig="@);
    assert("iss"@[0] != "sub"@[0]);
    assert("pub"@[0] != "sub"@[0] && "pub"@[0] != "iss"@[0]);
    assert("sig"@[1] != "sub"@[1] && "sig"@[0] != "iss"@[0] && "sig"@[0] != "pub"@[0]);
}

proof fn lemma_lacks_concat(a: Seq<char>, b: Seq<char>, c: char)
    requires
        lacks(a, c),
        lacks(b, c),
    ensures
        lacks(a + b, c),
{
    assert forall|k: int| 0 <= k < (a + b).len() implies (a + b)[k] != c by {
        if k >= a.len() {
            assert((a + b)[k] == b[k - a.len()]);
        }
    }
}

/// A certificate is its fields and its signature field joined with `;`.
proof fn lemma_certificate_parts(c: CertificateClaimsView, key: Seq<u8>)
    ensures
        join_with(certificate_units(c), ';') == certificate_unsigned(c),
        certificate_encoding(c, key) == join_with(
            certificate_units(c).push(
                "sig="@ + hex_encode(blake3_keyed(key, encode_utf8(certificate_unsigned(c)))),
            ),
            ';',
        ),
{
    lemma_certificate_literals();
    let u = certificate_units(c);
    let j1 = u[0];
    assert(u.take(1) =~= seq![u[0]]);
    assert(join_with(u.take(1), ';') == j1);
    assert(u.take(2).drop_last() =~= u.take(1));
    assert(join_with(u.take(2), ';') =~= j1 + ";iss="@ + c.issuer);
    assert(u.take(3).drop_last() =~= u.take(2));
    assert(join_with(u.take(3), ';') =~= j1 + ";iss="@ + c.issuer + ";serial="@ + c.serial);
    assert(u.take(4).drop_last() =~= u.take(3));
    assert(join_with(u.take(4), ';') =~= j1 + ";iss="@ + c.issuer + ";serial="@ + c.serial
        + ";not_after="@ + decimal(c.not_after_unix as nat));
    assert(u.take(5).drop_last() =~= u.take(4));
    assert(u.take(5) =~= u);
    assert(join_with(u, ';') =~= certificate_unsigned(c));
    let last = "sig="@ + hex_encode(blake3_keyed(key, encode_utf8(certificate_unsigned(c))));
    let all = u.push(last);
    assert(all.drop_last() =~= u);
    assert(join_with(all, ';') =~= certificate_encoding(c, key));
}

/// Reading a certificate back gives the claims it was made from, its signature and its
/// signed part.
pub proof fn lemma_parse_certificate_roundtrip(c: CertificateClaimsView, key: Seq<u8>)
    requires
        certificate_claims_encodable(c),
    ensures
        parse_certificate_spec(certificate_encoding(c, key)) == Some(
            (c, blake3_keyed(key, encode_utf8(certificate_unsigned(c))), certificate_unsigned(c)),
        ),
{
    lemma_certificate_literals();
    lemma_certificate_parts(c, key);
    let sig = blake3_keyed(key, encode_utf8(certificate_unsigned(c)));
    let h = hex_encode(sig);
    let d = decimal(c.not_after_unix as nat);
    let units = certificate_units(c);
    let last = "sig="@ + h;
    let all = units.push(last);
    lemma_decimal_parses(c.not_after_unix as nat);
    lemma_parse_decimal(c.not_after_unix as nat, u64::MAX as nat);
    assert(lacks(d, ';')) by {
        assert forall|k: int| 0 <= k < d.len() implies d[k] != ';' by {
            assert(is_digit(d[k]));
        }
    }
    assert(hex_value(';') is None);
    lemma_hex_encode_lacks(sig, ';');
    lemma_hex32_roundtrip(sig);
    lemma_lacks_concat("sub="@, c.subject, ';');
    lemma_lacks_concat("iss="@, c.issuer, ';');
    lemma_lacks_concat("serial="@, c.serial, ';');
    lemma_lacks_concat("not_after="@, d, ';');
    lemma_lacks_concat("pub="@, c.public_key, ';');
    lemma_lacks_concat("sig="@, h, ';');
    assert forall|i: int| 0 <= i < all.len() implies lacks(#[trigger] all[i], ';') by {
        if i == all.len() - 1 {
            assert(all[i] == last);
        } else {
            assert(all[i] == units[i]);
        }
    }
    lemma_split_on_join(all, ';');
    lemma_split_once_concat("sub"@, c.subject, '=');
    lemma_split_once_concat("iss"@, c.issuer, '=');
    lemma_split_once_concat("serial"@, c.serial, '=');
    lemma_split_once_concat("not_after"@, d, '=');
    lemma_split_once_concat("pub"@, c.public_key, '=');
    lemma_split_once_concat("sig"@, h, '=');
    assert("sub="@ + c.subject == "sub"@ + seq!['='] + c.subject);
    assert("iss="@ + c.issuer == "iss"@ + seq!['='] + c.issuer);
    assert("serial="@ + c.serial == "serial"@ + seq!['='] + c.serial);
    assert("not_after="@ + d == "not_after"@ + seq!['='] + d);
    assert("pub="@ + c.public_key == "pub"@ + seq!['='] + c.public_key);
    assert("sig="@ + h == "sig"@ + seq!['='] + h);
    let st0 = empty_certificate_scan();
    let st1 = CertificateScan { subject: Some(c.subject), unsigned: units.take(1), ..st0 };
    let st2 = CertificateScan { issuer: Some(c.issuer), unsigned: units.take(2), ..st1 };
    let st3 = CertificateScan { serial: Some(c.serial), unsigned: units.take(3), ..st2 };
    let st4 = CertificateScan { not_after: Some(c.not_after_unix), unsigned: units.take(4), ..st3 };
    let st5 = CertificateScan { public_key: Some(c.public_key), unsigned: units, ..st4 };
    let st6 = CertificateScan { signature: Some(sig), ..st5 };
    assert(certificate_scan_part(st0, all[0]) == Some(st1)) by {
        assert(st0.unsigned.push(all[0]) =~= units.take(1));
    }
    assert(certificate_scan_part(st1, all[1]) == Some(st2)) by {
        assert(st1.unsigned.push(all[1]) =~= units.take(2));
    }
    assert(certificate_scan_part(st2, all[2]) == Some(st3)) by {
        assert(st2.unsigned.push(all[2]) =~= units.take(3));
    }
    assert(certificate_scan_part(st3, all[3]) == Some(st4)) by {
        assert(st3.unsigned.push(all[3]) =~= units.take(4));
    }
    assert(certificate_scan_part(st4, all[4]) == Some(st5)) by {
        assert(st4.unsigned.push(all[4]) =~= units);
    }
    assert(certificate_scan_part(st5, all[5]) == Some(st6)) by {
        assert(all[5] == last);
        assert(last.len() > 0);
    }
    let r1 = all.drop_first();
    let r2 = r1.drop_first();
    let r3 = r2.drop_first();
    let r4 = r3.drop_first();
    let r5 = r4.drop_first();
    let r6 = r5.drop_first();
    assert(r1[0] == all[1] && r2[0] == all[2] && r3[0] == all[3] && r4[0] == all[4] && r5[0]
        == all[5]);
    assert(r6.len() == 0);
    assert(certificate_scan_parts(st6, r6) == Some(st6));
    assert(certificate_scan_parts(st5, r5) == Some(st6));
    assert(certificate_scan_parts(st4, r4) == Some(st6));
    assert(certificate_scan_parts(st3, r3) == Some(st6));
    assert(certificate_scan_parts(st2, r2) == Some(st6));
    assert(certificate_scan_parts(st1, r1) == Some(st6));
    assert(certificate_scan_parts(st0, all) == Some(st6));
}

/// A certificate signed with the key of the first anchor for its issuer is accepted until it
/// expires; its holder is the subject.
pub proof fn lemma_certificate_roundtrip(
    c: CertificateClaimsView,
    anchors: Seq<TrustAnchorView>,
    i: int,
    now_unix: u64,
)
    requires
        certificate_claims_encodable(c),
        first_anchor(anchors, c.issuer, 0) == Some(i),
    ensures
        certificate_decision(
            anchors,
            now_unix,
            AuthInputView {
                method: AuthMethod::Certificate,
                payload: encode_utf8(certificate_encoding(c, anchors[i].key)),
            },
        ) == if c.not_after_unix <= now_unix {
            Err::<AuthIdentityView, AuthError>(AuthError::Rejected)
        } else {
            Ok(AuthIdentityView { subject: c.subject, method: AuthMethod::Certificate })
        },
{
    let key = anchors[i].key;
    let t = certificate_encoding(c, key);
    lemma_parse_certificate_roundtrip(c, key);
    vstd::utf8::encode_utf8_valid_utf8(t);
    vstd::utf8::encode_utf8_decode_utf8(t);
    assert(t.len() > 0) by {
        lemma_certificate_literals();
    }
    assert(encode_utf8(t).len() > 0) by {
        if encode_utf8(t).len() == 0 {
            assert(vstd::utf8::decode_utf8(encode_utf8(t)).len() == 0);
        }
    }
}

} // verus!
