use vstd::prelude::*;
use vstd::string::*;
use vstd::utf8::encode_utf8;
use crate::auth::{AuthBackend, AuthError, AuthIdentity, AuthIdentityView, AuthInput, AuthInputView};
use crate::auth::common_crypto::{
    blake3_keyed, ct_eq_bytes, decode_hex_32, hex32_decode, hex_encode, hex_value, lemma_hex32_roundtrip,
    lemma_hex_encode_lacks, push_hex, sign_payload,
};
use crate::text::{
    chars_of, join_chars, join_with, parse_unsigned, parse_unsigned_chars, push_all,
    push_decimal, push_str, seq_eq, split_chars, split_on, split_once, split_once_chars,
    string_from_chars, utf8_bytes, utf8_chars, utf8_text, decimal, is_digit, lacks, lemma_decimal_parses,
    lemma_parse_decimal, lemma_split_on_join, lemma_split_once_concat,
};
use crate::util::AuthMethod;

verus! {

/// The time and the audience and issuer that a token must match.
#[derive(Debug, Clone, PartialEq, Eq)]
pub struct TokenPolicy {
    pub now_unix: u64,
    pub expected_audience: Option<String>,
    pub expected_issuer: Option<String>,
}

pub struct TokenPolicyView {
    pub now_unix: u64,
    pub expected_audience: Option<Seq<char>>,
    pub expected_issuer: Option<Seq<char>>,
}

pub open spec fn opt_string_view(o: Option<String>) -> Option<Seq<char>> {
    match o {
        Some(s) => Some(s@),
        None => None,
    }
}

impl View for TokenPolicy {
    type V = TokenPolicyView;

    open spec fn view(&self) -> TokenPolicyView {
        TokenPolicyView {
            now_unix: self.now_unix,
            expected_audience: opt_string_view(self.expected_audience),
            expected_issuer: opt_string_view(self.expected_issuer),
        }
    }
}

impl Default for TokenPolicy {
    fn default() -> (r: Self)
        ensures
            r.now_unix == 0,
            r.expected_audience is None,
            r.expected_issuer is None,
    {
        TokenPolicy { now_unix: 0, expected_audience: None, expected_issuer: None }
    }
}

/// What a token asserts about its holder.
#[derive(Debug, Clone, PartialEq, Eq)]
pub struct TokenClaims {
    pub subject: String,
    pub expires_at_unix: u64,
    pub audience: Option<String>,
    pub issuer: Option<String>,
}

pub struct TokenClaimsView {
    pub subject: Seq<char>,
    pub expires_at_unix: u64,
    pub audience: Option<Seq<char>>,
    pub issuer: Option<Seq<char>>,
}

impl View for TokenClaims {
    type V = TokenClaimsView;

    open spec fn view(&self) -> TokenClaimsView {
        TokenClaimsView {
            subject: self.subject@,
            expires_at_unix: self.expires_at_unix,
            audience: opt_string_view(self.audience),
            issuer: opt_string_view(self.issuer),
        }
    }
}

/// The signed part of a token: `sub=..;exp=..`, then `;aud=..` and `;iss=..` when present.
pub open spec fn token_unsigned(c: TokenClaimsView) -> Seq<char> {
    let base = "sub="@ + c.subject + ";exp="@ + decimal(c.expires_at_unix as nat);
    let with_aud = match c.audience {
        Some(a) => base + ";aud="@ + a,
        None => base,
    };
    match c.issuer {
        Some(i) => with_aud + ";iss="@ + i,
        None => with_aud,
    }
}

/// A token: its signed part, then `;sig=` and the hexadecimal keyed hash of that part.
pub open spec fn token_encoding(c: TokenClaimsView, key: Seq<u8>) -> Seq<char> {
    token_unsigned(c) + ";sig="@ + hex_encode(blake3_keyed(key, encode_utf8(token_unsigned(c))))
}

fn push_opt_field(out: &mut Vec<char>, label: &str, value: &Option<String>)
    ensures
        final(out)@ == match opt_string_view(*value) {
            Some(v) => old(out)@ + label@ + v,
            None => old(out)@,
        },
{
    match value {
        Some(v) => {
            push_str(out, label);
            push_str(out, v.as_str());
        },
        None => {},
    }
}

impl TokenClaims {
    /// The token that carries these claims, signed with the key.
    pub fn encode_signed(&self, signing_key: &[u8; 32]) -> (r: String)
        ensures
            r@ == token_encoding(self@, signing_key@),
    {
        let mut unsigned: Vec<char> = Vec::new();
        push_str(&mut unsigned, "sub=");
        push_str(&mut unsigned, self.subject.as_str());
        push_str(&mut unsigned, ";exp=");
        push_decimal(&mut unsigned, self.expires_at_unix);
        push_opt_field(&mut unsigned, ";aud=", &self.audience);
        push_opt_field(&mut unsigned, ";iss=", &self.issuer);
        assert(unsigned@ =~= token_unsigned(self@));
        let bytes = utf8_bytes(&unsigned);
        let signature = sign_payload(signing_key, bytes.as_slice());
        let mut out = unsigned;
        push_str(&mut out, ";sig=");
        push_hex(&mut out, &signature);
        string_from_chars(&out)
    }
}

/// What the fields of a token read so far hold; `unsigned` keeps the signed fields in order.
pub struct TokenScan {
    pub subject: Option<Seq<char>>,
    pub expires: Option<u64>,
    pub audience: Option<Seq<char>>,
    pub issuer: Option<Seq<char>>,
    pub signature: Option<Seq<u8>>,
    pub unsigned: Seq<Seq<char>>,
}

pub open spec fn empty_token_scan() -> TokenScan {
    TokenScan {
        subject: None,
        expires: None,
        audience: None,
        issuer: None,
        signature: None,
        unsigned: Seq::empty(),
    }
}

/// The effect of one `;`-separated part of a token; `None` rejects the token.
pub open spec fn token_scan_part(st: TokenScan, part: Seq<char>) -> Option<TokenScan> {
    if part.len() == 0 {
        Some(st)
    } else {
        match split_once(part, '=') {
            None => None,
            Some((key, value)) => {
                if key == "sub"@ {
                    if value.len() == 0 {
                        None
                    } else {
                        Some(TokenScan { subject: Some(value), unsigned: st.unsigned.push(part), ..st })
                    }
                } else if key == "exp"@ {
                    match parse_unsigned(value, u64::MAX as nat) {
                        None => None,
                        Some(v) => Some(
                            TokenScan { expires: Some(v as u64), unsigned: st.unsigned.push(part), ..st },
                        ),
                    }
                } else if key == "aud"@ {
                    Some(TokenScan { audience: Some(value), unsigned: st.unsigned.push(part), ..st })
                } else if key == "iss"@ {
                    Some(TokenScan { issuer: Some(value), unsigned: st.unsigned.push(part), ..st })
                } else if key == "sig"@ {
                    match hex32_decode(value) {
                        None => None,
                        Some(b) => Some(TokenScan { signature: Some(b), ..st }),
                    }
                } else {
                    None
                }
            },
        }
    }
}

pub open spec fn token_scan_parts(st: TokenScan, parts: Seq<Seq<char>>) -> Option<TokenScan>
    decreases parts.len(),
{
    if parts.len() == 0 {
        Some(st)
    } else {
        match token_scan_part(st, parts[0]) {
            None => None,
            Some(next) => token_scan_parts(next, parts.drop_first()),
        }
    }
}

/// The claims, the signature and the signed text of a token, if it is well formed.
pub open spec fn parse_token_spec(token: Seq<char>) -> Option<(TokenClaimsView, Seq<u8>, Seq<char>)> {
    match token_scan_parts(empty_token_scan(), split_on(token, ';')) {
        None => None,
        Some(st) => if st.subject is Some && st.expires is Some && st.signature is Some {
            Some(
                (
                    TokenClaimsView {
                        subject: st.subject->0,
                        expires_at_unix: st.expires->0,
                        audience: st.audience,
                        issuer: st.issuer,
                    },
                    st.signature->0,
                    join_with(st.unsigned, ';'),
                ),
            )
        } else {
            None
        },
    }
}

struct TokenScanState {
    subject: Option<Vec<char>>,
    expires: Option<u64>,
    audience: Option<Vec<char>>,
    issuer: Option<Vec<char>>,
    signature: Option<[u8; 32]>,
    unsigned: Vec<Vec<char>>,
}

spec fn opt_chars_view(o: Option<Vec<char>>) -> Option<Seq<char>> {
    match o {
        Some(v) => Some(v@),
        None => None,
    }
}

impl TokenScanState {
    spec fn view(&self) -> TokenScan {
        TokenScan {
            subject: opt_chars_view(self.subject),
            expires: self.expires,
            audience: opt_chars_view(self.audience),
            issuer: opt_chars_view(self.issuer),
            signature: match self.signature {
                Some(b) => Some(b@),
                None => None,
            },
            unsigned: self.unsigned@.map_values(|p: Vec<char>| p@),
        }
    }
}

fn scan_part(st: &mut TokenScanState, part: &Vec<char>) -> (ok: bool)
    ensures
        ok ==> token_scan_part(old(st).view(), part@) == Some(final(st).view()),
        !ok ==> token_scan_part(old(st).view(), part@) is None,
{
    if part.len() == 0 {
        return true;
    }
    let (key, value) = match split_once_chars(part.as_slice(), '=') {
        None => {
            return false;
        },
        Some(kv) => kv,
    };
    let ghost old_unsigned = st.unsigned@.map_values(|p: Vec<char>| p@);
    if seq_eq(&key, &chars_of("sub")) {
        if value.len() == 0 {
            return false;
        }
        st.subject = Some(value);
        st.unsigned.push(part.clone());
    } else if seq_eq(&key, &chars_of("exp")) {
        match parse_unsigned_chars(&value, u64::MAX) {
            None => {
                return false;
            },
            Some(v) => {
                st.expires = Some(v);
                st.unsigned.push(part.clone());
            },
        }
    } else if seq_eq(&key, &chars_of("aud")) {
        st.audience = Some(value);
        st.unsigned.push(part.clone());
    } else if seq_eq(&key, &chars_of("iss")) {
        st.issuer = Some(value);
        st.unsigned.push(part.clone());
    } else if seq_eq(&key, &chars_of("sig")) {
        match decode_hex_32(&value) {
            Err(_) => {
                return false;
            },
            Ok(b) => {
                st.signature = Some(b);
            },
        }
    } else {
        return false;
    }
    assert(st.unsigned@.map_values(|p: Vec<char>| p@) =~= old_unsigned.push(part@)
        || st.unsigned@.map_values(|p: Vec<char>| p@) =~= old_unsigned);
    true
}

/// Reads a token's claims, its signature and the text that the signature covers.
pub fn parse_token(token: &[char]) -> (r: Result<(TokenClaims, [u8; 32], Vec<char>), AuthError>)
    ensures
        r matches Ok((c, sig, unsigned)) ==> parse_token_spec(token@) == Some((c@, sig@, unsigned@)),
        r is Err ==> parse_token_spec(token@) is None,
        r matches Err(e) ==> e == AuthError::Rejected,
{
    let parts = split_chars(token, ';');
    let ghost all = split_on(token@, ';');
    let mut st = TokenScanState {
        subject: None,
        expires: None,
        audience: None,
        issuer: None,
        signature: None,
        unsigned: Vec::new(),
    };
    assert(st.view().unsigned =~= Seq::<Seq<char>>::empty());
    assert(all.skip(0) =~= all);
    let mut i: usize = 0;
    while i < parts.len()
        invariant
            parts@.len() == all.len(),
            all == split_on(token@, ';'),
            forall|j: int| 0 <= j < parts@.len() ==> #[trigger] parts@[j]@ == all[j],
            i <= parts@.len(),
            token_scan_parts(empty_token_scan(), all) == token_scan_parts(st.view(), all.skip(i as int)),
        decreases parts@.len() - i,
    {
        assert(all.skip(i as int)[0] == all[i as int]);
        assert(all.skip(i as int).drop_first() =~= all.skip(i + 1));
        let ghost before = st.view();
        if !scan_part(&mut st, &parts[i]) {
            assert(token_scan_parts(before, all.skip(i as int)) is None);
            assert(token_scan_parts(empty_token_scan(), all) is None);
            return Err(AuthError::Rejected);
        }
        i = i + 1;
    }
    assert(all.skip(i as int) =~= Seq::<Seq<char>>::empty());
    let subject = match st.subject {
        Some(s) => s,
        None => {
            return Err(AuthError::Rejected);
        },
    };
    let expires = match st.expires {
        Some(e) => e,
        None => {
            return Err(AuthError::Rejected);
        },
    };
    let signature = match st.signature {
        Some(s) => s,
        None => {
            return Err(AuthError::Rejected);
        },
    };
    let unsigned = join_chars(&st.unsigned, ';');
    let audience = match st.audience {
        Some(a) => Some(string_from_chars(&a)),
        None => None,
    };
    let issuer = match st.issuer {
        Some(a) => Some(string_from_chars(&a)),
        None => None,
    };
    let claims = TokenClaims {
        subject: string_from_chars(&subject),
        expires_at_unix: expires,
        audience,
        issuer,
    };
    Ok((claims, signature, unsigned))
}

/// Admits clients that present a token signed with the backend's key, not yet expired,
/// and for the expected audience and issuer.
#[derive(Debug, Clone)]
pub struct TokenBackend {
    signing_key: [u8; 32],
    policy: TokenPolicy,
}

/// The decision of a token backend with the given key and policy.
pub open spec fn token_decision(key: Seq<u8>, policy: TokenPolicyView, input: AuthInputView) -> Result<
    AuthIdentityView,
    AuthError,
> {
    if input.payload.len() == 0 {
        Err(AuthError::EmptyPayload)
    } else if input.method != AuthMethod::Token {
        Err(AuthError::UnsupportedBackend { method: input.method })
    } else {
        match utf8_text(input.payload) {
            None => Err(AuthError::Rejected),
            Some(text) => match parse_token_spec(text) {
                None => Err(AuthError::Rejected),
                Some((claims, sig, unsigned)) => {
                    if sig != blake3_keyed(key, encode_utf8(unsigned)) {
                        Err(AuthError::Rejected)
                    } else if claims.expires_at_unix <= policy.now_unix {
                        Err(AuthError::Rejected)
                    } else if policy.expected_audience is Some && claims.audience
                        != policy.expected_audience {
                        Err(AuthError::Rejected)
                    } else if policy.expected_issuer is Some && claims.issuer
                        != policy.expected_issuer {
                        Err(AuthError::Rejected)
                    } else {
                        Ok(AuthIdentityView { subject: claims.subject, method: AuthMethod::Token })
                    }
                },
            },
        }
    }
}

impl TokenBackend {
    pub closed spec fn spec_key(&self) -> Seq<u8> {
        self.signing_key@
    }

    pub closed spec fn spec_policy(&self) -> TokenPolicyView {
        self.policy@
    }

    pub fn new(signing_key: [u8; 32], policy: TokenPolicy) -> (r: Self)
        ensures
            r.spec_key() == signing_key@,
            r.spec_policy() == policy@,
    {
        TokenBackend { signing_key, policy }
    }
}

/// Whether an optional claim equals the expected text.
fn opt_matches(claim: &Option<String>, expected: &String) -> (r: bool)
    ensures
        r == (opt_string_view(*claim) == Some(expected@)),
{
    match claim {
        Some(c) => {
            let a = chars_of(c.as_str());
            let b = chars_of(expected.as_str());
            seq_eq(&a, &b)
        },
        None => false,
    }
}

impl AuthBackend for TokenBackend {
    open spec fn spec_authenticate(&self, input: AuthInputView) -> Result<AuthIdentityView, AuthError> {
        token_decision(self.spec_key(), self.spec_policy(), input)
    }

    fn authenticate(&self, input: AuthInput) -> (r: Result<AuthIdentity, AuthError>) {
        if input.payload.len() == 0 {
            return Err(AuthError::EmptyPayload);
        }
        if input.method != AuthMethod::Token {
            return Err(AuthError::UnsupportedBackend { method: input.method });
        }
        let token = match utf8_chars(input.payload.as_slice()) {
            Some(t) => t,
            None => {
                return Err(AuthError::Rejected);
            },
        };
        let (claims, signature, unsigned_payload) = parse_token(&token)?;
        let bytes = utf8_bytes(&unsigned_payload);
        let expected_signature = sign_payload(&self.signing_key, bytes.as_slice());
        if !ct_eq_bytes(&signature, &expected_signature) {
            return Err(AuthError::Rejected);
        }
        if claims.expires_at_unix <= self.policy.now_unix {
            return Err(AuthError::Rejected);
        }
        match &self.policy.expected_audience {
            Some(expected) => {
                if !opt_matches(&claims.audience, expected) {
                    return Err(AuthError::Rejected);
                }
            },
            None => {},
        }
        match &self.policy.expected_issuer {
            Some(expected) => {
                if !opt_matches(&claims.issuer, expected) {
                    return Err(AuthError::Rejected);
                }
            },
            None => {},
        }
        Ok(AuthIdentity { subject: claims.subject, method: AuthMethod::Token })
    }
}

/// Whether the claims can travel in a token and be read back: a subject, and no `;` in the
/// subject, audience or issuer.
pub open spec fn token_claims_encodable(c: TokenClaimsView) -> bool {
    &&& c.subject.len() > 0
    &&& lacks(c.subject, ';')
    &&& (c.audience matches Some(a) ==> lacks(a, ';'))
    &&& (c.issuer matches Some(i) ==> lacks(i, ';'))
}

/// The `;`-separated fields of a token's signed part.
pub open spec fn token_units(c: TokenClaimsView) -> Seq<Seq<char>> {
    let base = seq!["sub="@ + c.subject, "exp="@ + decimal(c.expires_at_unix as nat)];
    let with_aud = match c.audience {
        Some(a) => base.push("aud="@ + a),
        None => base,
    };
    match c.issuer {
        Some(i) => with_aud.push("iss="@ + i),
        None => with_aud,
    }
}

proof fn lemma_field_literals()
    ensures
        "sub="@ == "sub"@ + seq!['='],
        "exp="@ == "exp"@ + seq!['='],
        "aud="@ == "aud"@ + seq!['='],
        "iss="@ == "iss"@ + seq!['='],
        "sig="@ == "sig"@ + seq!['='],
        ";exp="@ == seq![';'] + "exp="@,
        ";aud="@ == seq![';'] + "aud="@,
        ";iss="@ == seq![';'] + "iss="@,
        ";sig="@ == seq![';'] + "sig="@,
        lacks("sub"@, '=') && lacks("exp"@, '=') && lacks("aud"@, '=') && lacks("iss"@, '=')
            && lacks("sig"@, '='),
        lacks("sub="@, ';') && lacks("exp="@, ';') && lacks("aud="@, ';') && lacks("iss="@, ';')
            && lacks("sig="@, ';'),
        "sub"@ != "exp"@ && "sub"@ != "aud"@ && "sub"@ != "iss"@ && "sub"@ != "sig"@,
        "exp"@ != "aud"@ && "exp"@ != "iss"@ && "exp"@ != "sig"@,
        "aud"@ != "iss"@ && "aud"@ != "sig"@ && "iss"@ != "sig"@,
{
    reveal_strlit("sub=");
    reveal_strlit("exp=");
    reveal_strlit("aud=");
    reveal_strlit("iss=");
    reveal_strlit("sig=");
    reveal_strlit(";exp=");
    reveal_strlit(";aud=");
    reveal_strlit(";iss=");
    reveal_strlit(";sig=");
    reveal_strlit("sub");
    reveal_strlit("exp");
    reveal_strlit("aud");
    reveal_strlit("iss");
    reveal_strlit("sig");
    assert("sub="@ =~= "sub"@ + seq!['=']);
    assert("exp="@ =~= "exp"@ + seq!['=']);
    assert("aud="@ =~= "aud"@ + seq!['=']);
    assert("iss="@ =~= "iss"@ + seq!['=']);
    assert("sig="@ =~= "sig"@ + seq!['=']);
    assert(";exp="@ =~= seq![';'] + "exp="@);
    assert(";aud="@ =~= seq![';'] + "aud="@);
    assert(";iss="@ =~= seq![';'] + "iss="@);
    assert(";sig="@ =~= seq![';'] + "sig="@);
    assert("sub"@[0] != "exp"@[0] && "sub"@[0] != "aud"@[0] && "sub"@[0] != "iss"@[0]);
    assert("sub"@[1] != "sig"@[1]);
    assert("exp"@[0] != "aud"@[0] && "exp"@[0] != "iss"@[0] && "exp"@[0] != "sig"@[0]);
    assert("aud"@[0] != "iss"@[0] && "aud"@[0] != "sig"@[0] && "iss"@[0] != "sig"@[0]);
}

proof fn lemma_concat_lacks(a: Seq<char>, b: Seq<char>, c: char)
    requires
        lacks(a, c),
        lacks(b, c),
    ensures
        lacks(a + b, c),
{
    assert forall|k: int| 0 <= k < (a + b).len() implies (a + b)[k] != c by {
        if k >= a.len() {
            assert((a + b)[k] == b[k - a.len()]);
        }
    }
}

/// The signed part of a token is its fields joined with `;`.
proof fn lemma_token_units_join(c: TokenClaimsView)
    ensures
        join_with(token_units(c), ';') == token_unsigned(c),
{
    lemma_field_literals();
    let u1 = "sub="@ + c.subject;
    let u2 = "exp="@ + decimal(c.expires_at_unix as nat);
    let base = seq![u1, u2];
    assert(base.drop_last() =~= seq![u1]);
    assert(join_with(base.drop_last(), ';') == u1);
    assert(base.last() == u2);
    assert(join_with(base, ';') == u1.push(';') + u2);
    assert(u1.push(';') + u2 =~= u1 + ";exp="@ + decimal(c.expires_at_unix as nat));
    let with_aud = match c.audience {
        Some(a) => base.push("aud="@ + a),
        None => base,
    };
    let t_aud = match c.audience {
        Some(a) => u1 + ";exp="@ + decimal(c.expires_at_unix as nat) + ";aud="@ + a,
        None => u1 + ";exp="@ + decimal(c.expires_at_unix as nat),
    };
    if let Some(a) = c.audience {
        assert(with_aud.drop_last() =~= base);
        assert(join_with(with_aud, ';') =~= t_aud);
    }
    assert(join_with(with_aud, ';') == t_aud);
    if let Some(i) = c.issuer {
        let all = with_aud.push("iss="@ + i);
        assert(all.drop_last() =~= with_aud);
        assert(join_with(all, ';') =~= t_aud + ";iss="@ + i);
    }
    assert(u1 + ";exp="@ + decimal(c.expires_at_unix as nat) =~= "sub="@ + c.subject + ";exp="@
        + decimal(c.expires_at_unix as nat));
}

/// A token is its fields and its signature field joined with `;`.
proof fn lemma_token_parts(c: TokenClaimsView, key: Seq<u8>)
    ensures
        token_encoding(c, key) == join_with(
            token_units(c).push(
                "sig="@ + hex_encode(blake3_keyed(key, encode_utf8(token_unsigned(c)))),
            ),
            ';',
        ),
{
    lemma_field_literals();
    lemma_token_units_join(c);
    let units = token_units(c);
    let last = "sig="@ + hex_encode(blake3_keyed(key, encode_utf8(token_unsigned(c))));
    let all = units.push(last);
    assert(all.drop_last() =~= units);
    assert(units.len() >= 2);
    assert(join_with(all, ';') == join_with(units, ';').push(';') + last);
    assert(token_unsigned(c).push(';') + last =~= token_unsigned(c) + ";sig="@ + hex_encode(
        blake3_keyed(key, encode_utf8(token_unsigned(c))),
    ));
}

/// Reading a token back gives the claims it was made from, its signature and its signed part.
pub proof fn lemma_parse_token_roundtrip(c: TokenClaimsView, key: Seq<u8>)
    requires
        token_claims_encodable(c),
    ensures
        parse_token_spec(token_encoding(c, key)) == Some(
            (c, blake3_keyed(key, encode_utf8(token_unsigned(c))), token_unsigned(c)),
        ),
{
    lemma_field_literals();
    lemma_token_parts(c, key);
    lemma_token_units_join(c);
    let sig = blake3_keyed(key, encode_utf8(token_unsigned(c)));
    let h = hex_encode(sig);
    let d = decimal(c.expires_at_unix as nat);
    let units = token_units(c);
    let last = "sig="@ + h;
    let all = units.push(last);
    lemma_decimal_parses(c.expires_at_unix as nat);
    lemma_parse_decimal(c.expires_at_unix as nat, u64::MAX as nat);
    assert(lacks(d, ';')) by {
        assert forall|k: int| 0 <= k < d.len() implies d[k] != ';' by {
            assert(is_digit(d[k]));
        }
    }
    assert(hex_value(';') is None);
    lemma_hex_encode_lacks(sig, ';');
    lemma_hex32_roundtrip(sig);
    lemma_concat_lacks("sub="@, c.subject, ';');
    lemma_concat_lacks("exp="@, d, ';');
    lemma_concat_lacks("sig="@, h, ';');
    if let Some(a) = c.audience {
        lemma_concat_lacks("aud="@, a, ';');
    }
    if let Some(i) = c.issuer {
        lemma_concat_lacks("iss="@, i, ';');
    }
    assert forall|i: int| 0 <= i < all.len() implies lacks(#[trigger] all[i], ';') by {
        if i == all.len() - 1 {
            assert(all[i] == last);
        } else {
            assert(all[i] == units[i]);
        }
    }
    lemma_split_on_join(all, ';');
    // Field by field.
    lemma_split_once_concat("sub"@, c.subject, '=');
    lemma_split_once_concat("exp"@, d, '=');
    lemma_split_once_concat("sig"@, h, '=');
    assert("sub="@ + c.subject == "sub"@ + seq!['='] + c.subject);
    assert("exp="@ + d == "exp"@ + seq!['='] + d);
    assert("sig="@ + h == "sig"@ + seq!['='] + h);
    let st0 = empty_token_scan();
    let st1 = TokenScan { subject: Some(c.subject), unsigned: seq![units[0]], ..st0 };
    let st2 = TokenScan { expires: Some(c.expires_at_unix), unsigned: seq![units[0], units[1]], ..st1 };
    assert(token_scan_part(st0, all[0]) == Some(st1)) by {
        assert(st0.unsigned.push(all[0]) =~= seq![units[0]]);
    }
    assert(token_scan_part(st1, all[1]) == Some(st2)) by {
        assert(st1.unsigned.push(all[1]) =~= seq![units[0], units[1]]);
    }
    let st3 = match c.audience {
        Some(a) => TokenScan { audience: Some(a), unsigned: st2.unsigned.push(units[2]), ..st2 },
        None => st2,
    };
    let k3: int = if c.audience is Some {
        3
    } else {
        2
    };
    let st4 = match c.issuer {
        Some(i) => TokenScan { issuer: Some(i), unsigned: st3.unsigned.push(units[k3]), ..st3 },
        None => st3,
    };
    let st5 = TokenScan { signature: Some(sig), ..st4 };
    assert(st4.unsigned == units);
    assert(token_scan_part(st4, last) == Some(st5)) by {
        assert(last.len() > 0);
        assert(split_once(last, '=') == Some(("sig"@, h)));
        assert(hex32_decode(h) == Some(sig));
    }
    assert forall|p: Seq<Seq<char>>| p.len() == 1 && p[0] == last implies token_scan_parts(st4, p)
        == Some(st5) by {
        assert(p.drop_first().len() == 0);
        assert(token_scan_parts(st5, p.drop_first()) == Some(st5));
    }
    assert(token_scan_parts(st0, all) == Some(st5)) by {
        assert(all.drop_first()[0] == all[1]);
        let r1 = all.drop_first();
        let r2 = r1.drop_first();
        assert(token_scan_parts(st0, all) == token_scan_parts(st1, r1));
        assert(token_scan_parts(st1, r1) == token_scan_parts(st2, r2));
        if let Some(a) = c.audience {
            lemma_split_once_concat("aud"@, a, '=');
            assert("aud="@ + a == "aud"@ + seq!['='] + a);
            assert(r2[0] == units[2]);
            let r3 = r2.drop_first();
            assert(token_scan_parts(st2, r2) == token_scan_parts(st3, r3));
            if let Some(i) = c.issuer {
                lemma_split_once_concat("iss"@, i, '=');
                assert("iss="@ + i == "iss"@ + seq!['='] + i);
                assert(r3[0] == units[3]);
                let r4 = r3.drop_first();
                assert(token_scan_parts(st3, r3) == token_scan_parts(st4, r4));
                assert(r4[0] == last);
                assert(r4.drop_first().len() == 0);
                assert(token_scan_parts(st4, r4) == Some(st5));
            } else {
                assert(r3[0] == last);
                assert(r3.drop_first().len() == 0);
                assert(token_scan_parts(st3, r3) == Some(st5));
            }
        } else {
            if let Some(i) = c.issuer {
                lemma_split_once_concat("iss"@, i, '=');
                assert("iss="@ + i == "iss"@ + seq!['='] + i);
                assert(r2[0] == units[2]);
                let r3 = r2.drop_first();
                assert(token_scan_parts(st2, r2) == token_scan_parts(st4, r3));
                assert(r3[0] == last);
                assert(r3.drop_first().len() == 0);
                assert(token_scan_parts(st4, r3) == Some(st5));
            } else {
                assert(r2[0] == last);
                assert(r2.drop_first().len() == 0);
                assert(token_scan_parts(st2, r2) == Some(st5));
            }
        }
    }
}

/// A token made from claims with the backend's key is accepted, unless it has expired or
/// names another audience or issuer than the policy asks for; its holder is the subject.
pub proof fn lemma_token_roundtrip(c: TokenClaimsView, key: Seq<u8>, policy: TokenPolicyView)
    requires
        token_claims_encodable(c),
    ensures
        token_decision(
            key,
            policy,
            AuthInputView { method: AuthMethod::Token, payload: encode_utf8(token_encoding(c, key)) },
        ) == if c.expires_at_unix <= policy.now_unix {
            Err::<AuthIdentityView, AuthError>(AuthError::Rejected)
        } else if policy.expected_audience is Some && c.audience != policy.expected_audience {
            Err(AuthError::Rejected)
        } else if policy.expected_issuer is Some && c.issuer != policy.expected_issuer {
            Err(AuthError::Rejected)
        } else {
            Ok(AuthIdentityView { subject: c.subject, method: AuthMethod::Token })
        },
{
    let t = token_encoding(c, key);
    lemma_parse_token_roundtrip(c, key);
    vstd::utf8::encode_utf8_valid_utf8(t);
    vstd::utf8::encode_utf8_decode_utf8(t);
    assert(t.len() > 0) by {
        lemma_field_literals();
        reveal_strlit("sub=");
    }
    assert(encode_utf8(t).len() > 0) by {
        if encode_utf8(t).len() == 0 {
            assert(vstd::utf8::decode_utf8(encode_utf8(t)).len() == 0);
        }
    }
}

} // verus!
