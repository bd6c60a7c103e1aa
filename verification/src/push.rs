//! The signed VAPID authorization token and the outbound push request.
//!
//! The token is a compact JWT: base64url of a fixed header, base64url of the
//! claims, and an ES256 signature over both, joined by dots. The claims are
//! issued-at, expiry two hours later, not-before equal to issued-at, the
//! audience (the push endpoint's scheme and host) and the operator's contact
//! subject. Token assembly and claims serialization are verified; only the
//! signature primitive is trusted.

use vstd::prelude::*;

use crate::PushError;
use crate::Subscription;
use crate::encode::b64url_decode;
use crate::encode::b64url_decoded;
use crate::encode::b64url_encode;
use crate::encode::push_char;
use crate::encode::spec_b64url;
use crate::encode::spec_dec;
use crate::encode::string_bytes;
use crate::encode::u64_to_dec;
use crate::encode::utf8_of;
use crate::crypto::encrypt_message;
use crate::crypto::is_record_for;
use crate::json::esc;
use crate::json::append_escaped;

verus! {

/// Looks for `://` at or after position `i`.
pub open spec fn spec_find_sep(s: Seq<char>, i: int) -> Option<int>
    decreases s.len() - i,
{
    if i < 0 || i + 3 > s.len() {
        None
    } else if s[i] == ':' && s[i + 1] == '/' && s[i + 2] == '/' {
        Some(i)
    } else {
        spec_find_sep(s, i + 1)
    }
}

/// The end of the host part: the first `/`, `?` or `#` at or after `i`, or
/// the end of the text.
pub open spec fn spec_host_end(s: Seq<char>, i: int) -> int
    decreases s.len() - i,
{
    if i < 0 || i >= s.len() {
        i
    } else if s[i] == '/' || s[i] == '?' || s[i] == '#' {
        i
    } else {
        spec_host_end(s, i + 1)
    }
}

/// The characters a URL scheme may hold after its leading letter.
pub open spec fn is_scheme_char(c: char) -> bool {
    ('a' <= c && c <= 'z') || ('A' <= c && c <= 'Z') || ('0' <= c && c <= '9') || c == '+' || c
        == '-' || c == '.'
}

/// A valid URL scheme: a letter followed by letters, digits, `+`, `-`, `.`.
pub open spec fn spec_valid_scheme(s: Seq<char>) -> bool {
    &&& s.len() > 0
    &&& (('a' <= s[0] && s[0] <= 'z') || ('A' <= s[0] && s[0] <= 'Z'))
    &&& forall|i: int| 0 <= i < s.len() ==> is_scheme_char(#[trigger] s[i])
}

/// The audience of an endpoint URL: its scheme, the separator and the host
/// (with any port). Nothing for a text without a scheme separator, with an
/// invalid scheme or with an empty host: such an endpoint does not parse as
/// a URL.
pub open spec fn spec_audience(s: Seq<char>) -> Option<Seq<char>> {
    match spec_find_sep(s, 0) {
        None => None,
        Some(i) => {
            let e = spec_host_end(s, i + 3);
            if !spec_valid_scheme(s.subrange(0, i)) || e == i + 3 {
                None
            } else {
                Some(s.subrange(0, e))
            }
        },
    }
}

/// Whether `s@.subrange(0, end)` is a valid scheme.
fn valid_scheme(s: &str, end: usize) -> (r: bool)
    requires
        end <= s@.len(),
    ensures
        r == spec_valid_scheme(s@.subrange(0, end as int)),
{
    if end == 0 {
        return false;
    }
    let c0 = s.get_char(0);
    if !(('a' <= c0 && c0 <= 'z') || ('A' <= c0 && c0 <= 'Z')) {
        return false;
    }
    let mut i: usize = 0;
    while i < end
        invariant
            i <= end <= s@.len(),
            forall|j: int| 0 <= j < i ==> is_scheme_char(#[trigger] s@[j]),
        decreases end - i,
    {
        let c = s.get_char(i);
        if !(('a' <= c && c <= 'z') || ('A' <= c && c <= 'Z') || ('0' <= c && c <= '9') || c == '+'
            || c == '-' || c == '.') {
            proof {
                assert(s@.subrange(0, end as int)[i as int] == s@[i as int]);
            }
            return false;
        }
        i += 1;
    }
    proof {
        assert(s@.subrange(0, end as int)[0] == s@[0]);
        assert(forall|j: int|
            0 <= j < end ==> #[trigger] s@.subrange(0, end as int)[j] == s@[j]);
    }
    true
}

/// Finds the scheme separator `://`.
fn find_sep(s: &str) -> (r: Option<usize>)
    ensures
        r matches Some(i) ==> spec_find_sep(s@, 0) == Some(i as int) && i + 3 <= s@.len()
            && s@.len() <= usize::MAX,
        r is None ==> spec_find_sep(s@, 0) is None,
{
    let n = s.unicode_len();
    let mut i: usize = 0;
    while i <= n
        invariant
            i <= n + 1,
            n == s@.len(),
            spec_find_sep(s@, 0) == spec_find_sep(s@, i as int),
        decreases n + 1 - i,
    {
        if n - i < 3 {
            return None;
        }
        if s.get_char(i) == ':' && s.get_char(i + 1) == '/' && s.get_char(i + 2) == '/' {
            return Some(i);
        }
        i += 1;
    }
    None
}

/// Finds the end of the host part, from `start`.
fn host_end(s: &str, start: usize) -> (r: usize)
    requires
        start <= s@.len(),
    ensures
        start <= r <= s@.len(),
        r as int == spec_host_end(s@, start as int),
{
    let n = s.unicode_len();
    let mut e: usize = start;
    while e < n
        invariant
            start <= e <= n,
            n == s@.len(),
            spec_host_end(s@, start as int) == spec_host_end(s@, e as int),
        decreases n - e,
    {
        let c = s.get_char(e);
        if c == '/' || c == '?' || c == '#' {
            return e;
        }
        e += 1;
    }
    e
}

/// Extracts the audience (`scheme://host`) of an endpoint URL.
pub fn audience_of(endpoint: &String) -> (r: Option<String>)
    ensures
        r is Some <==> spec_audience(endpoint@) is Some,
        r matches Some(a) ==> spec_audience(endpoint@) == Some(a@),
{
    let s = endpoint.as_str();
    let sep = match find_sep(s) {
        Some(i) => i,
        None => {
            return None;
        },
    };
    if !valid_scheme(s, sep) {
        return None;
    }
    let e = host_end(s, sep + 3);
    if e == sep + 3 {
        return None;
    }
    Some(s.substring_char(0, e).to_owned())
}

/// The fixed token header.
pub open spec fn spec_jwt_header() -> Seq<char> {
    "{\"typ\":\"JWT\",\"alg\":\"ES256\"}"@
}

/// The claims object: issued-at, expiry two hours later, not-before equal to
/// issued-at, subject and audience.
pub open spec fn spec_claims_json(aud: Seq<char>, sub: Seq<char>, iat: int) -> Seq<char> {
    "{\"iat\":"@ + spec_dec(iat) + ",\"exp\":"@ + spec_dec(iat + 7200) + ",\"nbf\":"@ + spec_dec(
        iat,
    ) + ",\"sub\":\""@ + esc(sub) + "\",\"aud\":\""@ + esc(aud) + "\"}"@
}

/// The part of the token that is signed: encoded header, a dot, encoded
/// claims.
pub open spec fn spec_signing_input(aud: Seq<char>, sub: Seq<char>, iat: int) -> Seq<char> {
    spec_b64url(utf8_of(spec_jwt_header())) + seq!['.'] + spec_b64url(
        utf8_of(spec_claims_json(aud, sub, iat)),
    )
}

/// What ES256 with deterministic nonces yields for a private key and a
/// message: the 64-byte raw signature, or nothing for invalid key bytes; a
/// function of its arguments alone.
pub uninterp spec fn es256_signature(key: Seq<u8>, msg: Seq<u8>) -> Option<Seq<u8>>;

/// The whole token: the signed part, a dot, the encoded signature.
pub open spec fn spec_vapid_jwt(aud: Seq<char>, sub: Seq<char>, iat: int, key: Seq<u8>) -> Seq<
    char,
> {
    spec_signing_input(aud, sub, iat) + seq!['.'] + spec_b64url(
        es256_signature(key, utf8_of(spec_signing_input(aud, sub, iat))).unwrap(),
    )
}

/// Relies on `p256::ecdsa::SigningKey::from_slice` and `Signer::sign`:
/// ES256 (P-256/SHA-256) with the deterministic nonce of RFC 6979, so the
/// signature is a function of key bytes and message alone; `to_bytes` is the
/// raw 64-byte `r || s` form. Key import fails exactly on bytes that are no
/// valid P-256 secret scalar.
#[verifier::external_body]
fn es256_sign(key_bytes: &[u8], msg: &[u8]) -> (r: Option<Vec<u8>>)
    ensures
        r is Some <==> es256_signature(key_bytes@, msg@) is Some,
        r matches Some(v) ==> es256_signature(key_bytes@, msg@) == Some(v@) && v@.len() == 64,
{
    let key = match p256::ecdsa::SigningKey::from_slice(key_bytes) {
        Ok(k) => k,
        Err(_) => {
            return None;
        },
    };
    let sig: p256::ecdsa::Signature = p256::ecdsa::signature::Signer::sign(&key, msg);
    Some(sig.to_bytes().to_vec())
}

/// Builds and signs the authorization token for one push endpoint.
///
/// An endpoint without a recognizable `scheme://host` is a parse error; a
/// malformed base64url private key is a decode error; key bytes that are no
/// valid signing key are a signing error.
pub fn create_vapid_jwt(
    endpoint: &String,
    subject: &String,
    private_key_b64: &String,
    now: u64,
) -> (r: Result<String, PushError>)
    requires
        now + 7200 <= u64::MAX,
    ensures
        r matches Err(PushError::Parse) <==> spec_audience(endpoint@) is None,
        r matches Err(PushError::Decode) <==> (spec_audience(endpoint@) is Some
            && b64url_decoded(private_key_b64@) is None),
        r matches Err(PushError::Sign) <==> (spec_audience(endpoint@) matches Some(aud)
            && b64url_decoded(private_key_b64@) matches Some(key) && es256_signature(
            key,
            utf8_of(spec_signing_input(aud, subject@, now as int)),
        ) is None),
        r is Ok <==> (spec_audience(endpoint@) matches Some(aud) && b64url_decoded(
            private_key_b64@,
        ) matches Some(key) && es256_signature(
            key,
            utf8_of(spec_signing_input(aud, subject@, now as int)),
        ) is Some),
        r matches Ok(t) ==> (spec_audience(endpoint@) matches Some(aud) && b64url_decoded(
            private_key_b64@,
        ) matches Some(key) && t@ == spec_vapid_jwt(aud, subject@, now as int, key)),
{
    let audience = match audience_of(endpoint) {
        Some(a) => a,
        None => {
            return Err(PushError::Parse);
        },
    };
    let key_bytes = match b64url_decode(private_key_b64.as_str()) {
        Ok(b) => b,
        Err(_) => {
            return Err(PushError::Decode);
        },
    };
    let header_bytes = string_bytes("{\"typ\":\"JWT\",\"alg\":\"ES256\"}");
    let mut claims = String::from_str("{\"iat\":");
    let iat_dec = u64_to_dec(now);
    claims.append(iat_dec.as_str());
    claims.append(",\"exp\":");
    let exp_dec = u64_to_dec(now + 7200);
    claims.append(exp_dec.as_str());
    claims.append(",\"nbf\":");
    claims.append(iat_dec.as_str());
    claims.append(",\"sub\":\"");
    append_escaped(&mut claims, subject.as_str());
    claims.append("\",\"aud\":\"");
    append_escaped(&mut claims, audience.as_str());
    claims.append("\"}");
    proof {
        assert(claims@ =~= spec_claims_json(audience@, subject@, now as int));
    }
    let claims_bytes = string_bytes(claims.as_str());
    let mut signing_input = b64url_encode(header_bytes.as_slice());
    push_char(&mut signing_input, '.');
    let claims_b64 = b64url_encode(claims_bytes.as_slice());
    signing_input.append(claims_b64.as_str());
    proof {
        assert(signing_input@ =~= spec_signing_input(audience@, subject@, now as int));
    }
    let input_bytes = string_bytes(signing_input.as_str());
    let sig = match es256_sign(key_bytes.as_slice(), input_bytes.as_slice()) {
        Some(s) => s,
        None => {
            return Err(PushError::Sign);
        },
    };
    let mut token = signing_input;
    push_char(&mut token, '.');
    let sig_b64 = b64url_encode(sig.as_slice());
    token.append(sig_b64.as_str());
    proof {
        assert(token@ =~= spec_vapid_jwt(audience@, subject@, now as int, key_bytes@));
    }
    Ok(token)
}

/// A signed token splits into exactly three segments: no base64url digit is
/// a dot, so the two dots placed by the assembly are the only dots in the
/// token, and the middle segment is the encoded claims for the given
/// audience, subject and issue time.
pub proof fn lemma_token_structure(aud: Seq<char>, sub: Seq<char>, iat: int, key: Seq<u8>)
    requires
        es256_signature(key, utf8_of(spec_signing_input(aud, sub, iat))) is Some,
    ensures
        ({
            let t = spec_vapid_jwt(aud, sub, iat, key);
            let h = spec_b64url(utf8_of(spec_jwt_header()));
            let c = spec_b64url(utf8_of(spec_claims_json(aud, sub, iat)));
            let g = spec_b64url(
                es256_signature(key, utf8_of(spec_signing_input(aud, sub, iat))).unwrap(),
            );
            &&& t == h + seq!['.'] + c + seq!['.'] + g
            &&& forall|i: int| 0 <= i < h.len() ==> h[i] != '.'
            &&& forall|i: int| 0 <= i < c.len() ==> c[i] != '.'
            &&& forall|i: int| 0 <= i < g.len() ==> g[i] != '.'
        }),
{
    let t = spec_vapid_jwt(aud, sub, iat, key);
    let h = spec_b64url(utf8_of(spec_jwt_header()));
    let c = spec_b64url(utf8_of(spec_claims_json(aud, sub, iat)));
    let g = spec_b64url(es256_signature(key, utf8_of(spec_signing_input(aud, sub, iat))).unwrap());
    crate::encode::lemma_b64url_no_dot(utf8_of(spec_jwt_header()));
    crate::encode::lemma_b64url_no_dot(utf8_of(spec_claims_json(aud, sub, iat)));
    crate::encode::lemma_b64url_no_dot(
        es256_signature(key, utf8_of(spec_signing_input(aud, sub, iat))).unwrap(),
    );
    assert(t =~= h + seq!['.'] + c + seq!['.'] + g);
}

/// The operator's identity, configured out of band: the VAPID keys (both
/// base64url without padding) and the contact subject for the token.
pub struct VapidConfig {
    pub subject: String,
    pub public_key: String,
    pub private_key: String,
}

/// One outbound push request, ready for the transport: the endpoint, every
/// header value, and the encrypted body.
pub struct PushRequest {
    pub endpoint: String,
    pub authorization: String,
    pub ttl: String,
    pub content_encoding: String,
    pub content_type: String,
    pub content_length: String,
    pub body: Vec<u8>,
}

/// The authorization header value: `vapid t=<token>, k=<public-key>`.
pub open spec fn spec_authorization(token: Seq<char>, public_key: Seq<char>) -> Seq<char> {
    "vapid t="@ + token + ", k="@ + public_key
}

/// A push request correctly prepared for one subscription: it goes to the
/// subscription's endpoint, carries the fixed header values and the exact
/// decimal content length, and its body is the encrypted record of the
/// watched URL under the subscriber's key and auth secret.
pub open spec fn spec_request_for(
    q: PushRequest,
    diff: Seq<char>,
    endpoint: Seq<char>,
    auth: Seq<char>,
    p256dh: Seq<char>,
) -> bool {
    &&& q.endpoint@ == endpoint
    &&& q.ttl@ == "86400"@
    &&& q.content_encoding@ == "aes128gcm"@
    &&& q.content_type@ == "application/octet-stream"@
    &&& q.content_length@ == spec_dec(q.body@.len() as int)
    &&& (b64url_decoded(p256dh) matches Some(kb) && b64url_decoded(auth) matches Some(ab)
        && is_record_for(q.body@, kb, ab, diff))
}

/// Whether a push request can be built for a subscription under an operator
/// configuration at a given time: the payload can be encrypted and the
/// token can be signed.
pub open spec fn spec_can_build(
    diff: Seq<char>,
    endpoint: Seq<char>,
    auth: Seq<char>,
    p256dh: Seq<char>,
    cfg: VapidConfig,
    now: int,
) -> bool {
    &&& crate::crypto::spec_can_encrypt(p256dh, auth, diff)
    &&& (spec_audience(endpoint) matches Some(aud) && b64url_decoded(
        cfg.private_key@,
    ) matches Some(key) && es256_signature(
        key,
        utf8_of(spec_signing_input(aud, cfg.subject@, now)),
    ) is Some)
}

/// Builds the complete push request for one subscription: encrypts the
/// watched URL as the payload and signs the authorization token. Succeeds
/// on every subscription for which both of those are possible.
///
/// Every header is pinned: the authorization carries the token and the
/// operator public key, the TTL is 86400 seconds, the content encoding
/// `aes128gcm`, the content type `application/octet-stream`, and the content
/// length is the body's length in decimal.
pub fn build_push_request(sub: &Subscription, cfg: &VapidConfig, now: u64) -> (r: Result<
    PushRequest,
    PushError,
>)
    requires
        now + 7200 <= u64::MAX,
    ensures
        r matches Ok(q) ==> {
            &&& spec_request_for(q, sub.diff@, sub.endpoint@, sub.auth@, sub.p256dh@)
            &&& (spec_audience(sub.endpoint@) matches Some(aud) && b64url_decoded(
                cfg.private_key@,
            ) matches Some(key) && q.authorization@ == spec_authorization(
                spec_vapid_jwt(aud, cfg.subject@, now as int, key),
                cfg.public_key@,
            ))
            &&& q.body@.len() == utf8_of(sub.diff@).len() + 103
        },
        spec_can_build(sub.diff@, sub.endpoint@, sub.auth@, sub.p256dh@, *cfg, now as int) ==> r
            is Ok,
        r matches Err(PushError::Decode) ==> (b64url_decoded(sub.p256dh@) is None
            || b64url_decoded(sub.auth@) is None || b64url_decoded(cfg.private_key@) is None),
        (b64url_decoded(sub.p256dh@) is None || b64url_decoded(sub.auth@) is None) ==> r matches
            Err(PushError::Decode),
        r matches Err(PushError::Parse) ==> spec_audience(sub.endpoint@) is None,
{
    let body = match encrypt_message(&sub.p256dh, &sub.auth, &sub.diff) {
        Ok(b) => b,
        Err(e) => {
            return Err(e);
        },
    };
    let token = match create_vapid_jwt(&sub.endpoint, &cfg.subject, &cfg.private_key, now) {
        Ok(t) => t,
        Err(e) => {
            return Err(e);
        },
    };
    let mut authorization = String::from_str("vapid t=");
    authorization.append(token.as_str());
    authorization.append(", k=");
    authorization.append(cfg.public_key.as_str());
    proof {
        assert(authorization@ =~= spec_authorization(token@, cfg.public_key@));
    }
    let content_length = u64_to_dec(body.len() as u64);
    Ok(
        PushRequest {
            endpoint: sub.endpoint.clone(),
            authorization,
            ttl: String::from_str("86400"),
            content_encoding: String::from_str("aes128gcm"),
            content_type: String::from_str("application/octet-stream"),
            content_length,
            body,
        },
    )
}

/// Classifies the push service's answer: a 2xx status is success, anything
/// else a delivery failure carrying the response body as detail.
pub fn classify_push_response(status: u16, body: String) -> (r: Result<(), PushError>)
    ensures
        r is Ok <==> 200 <= status <= 299,
        r matches Err(e) ==> e matches PushError::Delivery(t) && t@ == body@,
{
    if 200 <= status && status <= 299 {
        Ok(())
    } else {
        Err(PushError::Delivery(body))
    }
}

} // verus!
