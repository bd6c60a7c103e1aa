//! The push-payload encryption stack (the aes128gcm content encoding):
//! elliptic-curve key agreement, HKDF-SHA256 key derivation, and
//! AES-128-GCM authenticated encryption.
//!
//! The primitives are called in outside crates behind trusted wrappers whose
//! results carry names (`hkdf_okm`, `aes128gcm_sealed`); the key-derivation
//! schedule and the wire-format record assembly are verified here against
//! those names, so the exact record layout is pinned:
//! `salt (16) | rs (4) | idlen (1) | keyid (65) | ciphertext+tag`.
//!
//! The ephemeral sender keypair is generated inside the key-agreement call
//! and its secret half never leaves it, so a fresh key per message is forced
//! by construction.

use vstd::prelude::*;

use crate::PushError;
use crate::encode::b64url_decode;
use crate::encode::b64url_decoded;
use crate::encode::string_bytes;
use crate::encode::utf8_of;

verus! {

/// Whether `p256::PublicKey::from_sec1_bytes` accepts these bytes as a
/// P-256 point: a function of the bytes alone.
pub uninterp spec fn p256_point_ok(b: Seq<u8>) -> bool;

/// What HKDF-SHA256 extract-then-expand yields for a salt, an input secret,
/// an info string and an output length: a function of its arguments alone.
pub uninterp spec fn hkdf_okm(salt: Seq<u8>, ikm: Seq<u8>, info: Seq<u8>, len: nat) -> Seq<u8>;

/// What AES-128-GCM yields for a key, a nonce and a plaintext: the
/// ciphertext with the 16-byte tag appended, a function of its arguments
/// alone.
pub uninterp spec fn aes128gcm_sealed(key: Seq<u8>, iv: Seq<u8>, data: Seq<u8>) -> Seq<u8>;

/// A subscriber's public key: its transmitted point encoding, checked to be
/// a valid P-256 point. The bytes are kept as given, since the
/// key-derivation info string carries the key exactly as transmitted.
pub struct RemoteKey {
    raw: Vec<u8>,
}

impl RemoteKey {
    /// The point encoding this key was imported from.
    pub closed spec fn raw_bytes(&self) -> Seq<u8> {
        self.raw@
    }

    /// A `RemoteKey` only ever holds a valid point.
    pub closed spec fn wf(&self) -> bool {
        p256_point_ok(self.raw@)
    }

    /// Relies on `p256::PublicKey::from_sec1_bytes`: succeeds exactly on a
    /// valid SEC1 encoding of a P-256 point.
    #[verifier::external_body]
    fn point_check(key_bytes: &[u8]) -> (r: bool)
        ensures
            r == p256_point_ok(key_bytes@),
    {
        p256::PublicKey::from_sec1_bytes(key_bytes).is_ok()
    }

    /// Imports a subscriber key from its point encoding; fails exactly on
    /// bytes that are no valid P-256 point.
    pub fn from_raw(key_bytes: &Vec<u8>) -> (r: Result<RemoteKey, PushError>)
        ensures
            r is Ok <==> p256_point_ok(key_bytes@),
            r matches Ok(k) ==> k.raw_bytes() == key_bytes@ && k.wf(),
            r is Err ==> r matches Err(PushError::Crypto),
    {
        if Self::point_check(key_bytes.as_slice()) {
            Ok(RemoteKey { raw: key_bytes.clone() })
        } else {
            Err(PushError::Crypto)
        }
    }

    /// Imports a subscriber key from its base64url text; a malformed text is
    /// a decode error, a valid text that is no P-256 point a crypto error.
    pub fn from_string(key_str: &String) -> (r: Result<RemoteKey, PushError>)
        ensures
            r matches Err(PushError::Decode) <==> b64url_decoded(key_str@) is None,
            r matches Err(PushError::Crypto) <==> (b64url_decoded(key_str@) matches Some(b)
                && !p256_point_ok(b)),
            r is Ok <==> (b64url_decoded(key_str@) matches Some(b) && p256_point_ok(b)),
            r matches Ok(k) ==> b64url_decoded(key_str@) == Some(k.raw_bytes()) && k.wf(),
    {
        match b64url_decode(key_str.as_str()) {
            Ok(bytes) => RemoteKey::from_raw(&bytes),
            Err(_) => Err(PushError::Decode),
        }
    }
}

/// The cryptographic backend: each method is one primitive of an outside
/// crate behind a trusted contract.
pub struct CryptoHandler;

impl CryptoHandler {
    /// Relies on `rand::thread_rng().fill_bytes`: random bytes of the asked
    /// length; nothing can be said of their values.
    #[verifier::external_body]
    pub fn random_bytes(&self, n: usize) -> (r: Vec<u8>)
        ensures
            r@.len() == n,
    {
        let mut buf = vec![0u8; n];
        rand::RngCore::fill_bytes(&mut rand::thread_rng(), &mut buf);
        buf
    }

    /// Relies on `p256::ecdh::EphemeralSecret::random`, `diffie_hellman` and
    /// `ToEncodedPoint`: generates a fresh ephemeral keypair and agrees with
    /// the subscriber's key. Yields the 32-byte shared secret (the shared
    /// point's x-coordinate) and the 65-byte uncompressed encoding of the
    /// ephemeral public key. The secret half never leaves this call, and
    /// nothing can be said of a random key's values.
    #[verifier::external_body]
    pub fn compute_ecdh_secret(&self, remote: &RemoteKey) -> (r: (Vec<u8>, Vec<u8>))
        requires
            remote.wf(),
        ensures
            r.0@.len() == 32,
            r.1@.len() == 65,
            r.1@[0] == 4u8,
    {
        let remote_pk = p256::PublicKey::from_sec1_bytes(&remote.raw).unwrap();
        let secret = p256::ecdh::EphemeralSecret::random(&mut rand::thread_rng());
        let shared = secret.diffie_hellman(&remote_pk).raw_secret_bytes().to_vec();
        let public_raw = p256::elliptic_curve::sec1::ToEncodedPoint::to_encoded_point(
            &secret.public_key(),
            false,
        ).as_bytes().to_vec();
        (shared, public_raw)
    }

    /// Relies on `hkdf::Hkdf::<Sha256>::extract` and `expand`: the requested
    /// length of output key material, a function of salt, secret and info;
    /// `expand` accepts any length up to 255 hash lengths.
    #[verifier::external_body]
    pub fn hkdf_sha256(&self, salt: &[u8], secret: &[u8], info: &[u8], len: usize) -> (r: Vec<u8>)
        requires
            len <= 8160,
        ensures
            r@ == hkdf_okm(salt@, secret@, info@, len as nat),
            r@.len() == len,
    {
        let (_, hk) = hkdf::Hkdf::<sha2::Sha256>::extract(Some(salt), secret);
        let mut okm = vec![0u8; len];
        hk.expand(info, &mut okm).unwrap();
        okm
    }

    /// Relies on `aes_gcm::Aes128Gcm::encrypt`: the ciphertext of the data
    /// with the 16-byte authentication tag appended, a function of key,
    /// nonce and data. The key must be 16 and the nonce 12 bytes; the call
    /// refuses nothing else below its plaintext ceiling of 2^36 bytes.
    #[verifier::external_body]
    pub fn aes_gcm_128_encrypt(&self, key: &[u8], iv: &[u8], data: &[u8]) -> (r: Vec<u8>)
        requires
            key@.len() == 16,
            iv@.len() == 12,
            data@.len() <= 0x1000000000,
        ensures
            r@ == aes128gcm_sealed(key@, iv@, data@),
            r@.len() == data@.len() + 16,
    {
        let cipher = <aes_gcm::Aes128Gcm as aes_gcm::KeyInit>::new_from_slice(key).unwrap();
        let nonce = aes_gcm::Nonce::from_slice(iv);
        aes_gcm::aead::Aead::encrypt(&cipher, nonce, data).unwrap()
    }
}

/// A fresh random 16-byte salt for one message.
pub fn create_salt() -> (r: Vec<u8>)
    ensures
        r@.len() == 16,
{
    CryptoHandler.random_bytes(16)
}

/// The info string keying the message secret to both public keys:
/// `"WebPush: info" 0x00 ua_public as_public`.
pub open spec fn spec_ikm_info(ua_pub: Seq<u8>, as_pub: Seq<u8>) -> Seq<u8> {
    utf8_of("WebPush: info\u{0000}"@) + ua_pub + as_pub
}

/// The derived content-encryption key: 16 bytes.
pub open spec fn spec_cek(
    shared: Seq<u8>,
    auth: Seq<u8>,
    salt: Seq<u8>,
    ua_pub: Seq<u8>,
    as_pub: Seq<u8>,
) -> Seq<u8> {
    hkdf_okm(
        salt,
        hkdf_okm(auth, shared, spec_ikm_info(ua_pub, as_pub), 32),
        utf8_of("Content-Encoding: aes128gcm\u{0000}"@),
        16,
    )
}

/// The derived nonce: 12 bytes.
pub open spec fn spec_nonce(
    shared: Seq<u8>,
    auth: Seq<u8>,
    salt: Seq<u8>,
    ua_pub: Seq<u8>,
    as_pub: Seq<u8>,
) -> Seq<u8> {
    hkdf_okm(
        salt,
        hkdf_okm(auth, shared, spec_ikm_info(ua_pub, as_pub), 32),
        utf8_of("Content-Encoding: nonce\u{0000}"@),
        12,
    )
}

/// The record-size field of the header: 4096, big-endian.
pub open spec fn spec_rs_bytes() -> Seq<u8> {
    seq![0u8, 0u8, 16u8, 0u8]
}

/// Whether `v` is a well-formed encrypted record for the subscriber key
/// `kb`, the auth secret `ab` and the message, under some shared secret,
/// salt and ephemeral key of the right lengths.
pub open spec fn is_record_for(v: Seq<u8>, kb: Seq<u8>, ab: Seq<u8>, msg: Seq<char>) -> bool {
    exists|shared: Seq<u8>, salt: Seq<u8>, as_pub: Seq<u8>|
        {
            &&& shared.len() == 32
            &&& salt.len() == 16
            &&& as_pub.len() == 65
            &&& as_pub[0] == 4u8
            &&& v == #[trigger] spec_record(shared, ab, salt, kb, as_pub, utf8_of(msg))
        }
}

/// The complete encrypted record for one message: header, key id, then the
/// sealed plaintext with its single padding delimiter byte 2.
pub open spec fn spec_record(
    shared: Seq<u8>,
    auth: Seq<u8>,
    salt: Seq<u8>,
    ua_pub: Seq<u8>,
    as_pub: Seq<u8>,
    plaintext: Seq<u8>,
) -> Seq<u8> {
    salt + spec_rs_bytes() + seq![65u8] + as_pub + aes128gcm_sealed(
        spec_cek(shared, auth, salt, ua_pub, as_pub),
        spec_nonce(shared, auth, salt, ua_pub, as_pub),
        plaintext + seq![2u8],
    )
}

pub(crate) fn append_bytes(out: &mut Vec<u8>, s: &[u8])
    ensures
        final(out)@ == old(out)@ + s@,
{
    let n = s.len();
    let mut i: usize = 0;
    proof {
        assert(out@ =~= old(out)@ + s@.subrange(0, 0));
    }
    while i < n
        invariant
            i <= n == s@.len(),
            out@ == old(out)@ + s@.subrange(0, i as int),
        decreases n - i,
    {
        out.push(s[i]);
        proof {
            assert(old(out)@ + s@.subrange(0, i + 1) =~= (old(out)@ + s@.subrange(0, i as int)).push(
                s@[i as int],
            ));
        }
        i += 1;
    }
    proof {
        assert(s@.subrange(0, n as int) =~= s@);
    }
}

/// Derives the content-encryption key (16 bytes) and nonce (12 bytes) from
/// the shared secret, the subscriber's auth secret, the per-message salt and
/// both public keys, per the aes128gcm schedule.
pub fn derive_key_and_nonce(
    shared: &Vec<u8>,
    auth: &Vec<u8>,
    salt: &Vec<u8>,
    ua_pub: &Vec<u8>,
    as_pub: &Vec<u8>,
) -> (r: (Vec<u8>, Vec<u8>))
    ensures
        r.0@ == spec_cek(shared@, auth@, salt@, ua_pub@, as_pub@),
        r.1@ == spec_nonce(shared@, auth@, salt@, ua_pub@, as_pub@),
        r.0@.len() == 16,
        r.1@.len() == 12,
{
    let mut info = string_bytes("WebPush: info\u{0000}");
    append_bytes(&mut info, ua_pub.as_slice());
    append_bytes(&mut info, as_pub.as_slice());
    proof {
        assert(info@ =~= spec_ikm_info(ua_pub@, as_pub@));
    }
    let handler = CryptoHandler;
    let cek_info = string_bytes("Content-Encoding: aes128gcm\u{0000}");
    let nonce_info = string_bytes("Content-Encoding: nonce\u{0000}");
    let ikm = handler.hkdf_sha256(auth.as_slice(), shared.as_slice(), info.as_slice(), 32);
    let cek = handler.hkdf_sha256(salt.as_slice(), ikm.as_slice(), cek_info.as_slice(), 16);
    let nonce = handler.hkdf_sha256(salt.as_slice(), ikm.as_slice(), nonce_info.as_slice(), 12);
    (cek, nonce)
}

/// Builds one complete encrypted record from the agreed shared secret, the
/// subscriber's auth secret, a salt, both public keys and the plaintext.
pub fn encrypt_record(
    shared: &Vec<u8>,
    auth: &Vec<u8>,
    salt: &Vec<u8>,
    ua_pub: &Vec<u8>,
    as_pub: &Vec<u8>,
    plaintext: &Vec<u8>,
) -> (r: Vec<u8>)
    requires
        auth@.len() == 16,
        salt@.len() == 16,
        as_pub@.len() == 65,
        1 <= plaintext@.len() <= 4079,
    ensures
        r@ == spec_record(shared@, auth@, salt@, ua_pub@, as_pub@, plaintext@),
        r@.len() == plaintext@.len() + 103,
{
    let (cek, nonce) = derive_key_and_nonce(shared, auth, salt, ua_pub, as_pub);
    let mut padded: Vec<u8> = Vec::new();
    append_bytes(&mut padded, plaintext.as_slice());
    padded.push(2u8);
    proof {
        assert(padded@ =~= plaintext@ + seq![2u8]);
    }
    let handler = CryptoHandler;
    let sealed = handler.aes_gcm_128_encrypt(cek.as_slice(), nonce.as_slice(), padded.as_slice());
    let mut out: Vec<u8> = Vec::new();
    append_bytes(&mut out, salt.as_slice());
    out.push(0u8);
    out.push(0u8);
    out.push(16u8);
    out.push(0u8);
    out.push(65u8);
    append_bytes(&mut out, as_pub.as_slice());
    append_bytes(&mut out, sealed.as_slice());
    proof {
        assert(out@ =~= spec_record(shared@, auth@, salt@, ua_pub@, as_pub@, plaintext@));
    }
    out
}

/// Whether a message can be encrypted for a subscriber: both inputs decode,
/// the key is a valid point, the auth secret has its protocol length, and
/// the message fills one nonempty record.
pub open spec fn spec_can_encrypt(p256dh: Seq<char>, auth: Seq<char>, msg: Seq<char>) -> bool {
    &&& (b64url_decoded(p256dh) matches Some(kb) && p256_point_ok(kb))
    &&& (b64url_decoded(auth) matches Some(ab) && ab.len() == 16)
    &&& 1 <= utf8_of(msg).len() <= 4079
}

/// Encrypts one message for a subscriber: decodes the subscriber's key and
/// auth secret, agrees on a fresh shared secret with a fresh ephemeral
/// keypair and salt, and builds the encrypted record. A malformed base64url
/// input is a decode error; an invalid point, an auth secret of the wrong
/// length, or an empty or oversized message is a crypto error; every other
/// input is encrypted.
pub fn encrypt_message(p256dh: &String, auth: &String, message: &String) -> (r: Result<
    Vec<u8>,
    PushError,
>)
    ensures
        r is Ok <==> spec_can_encrypt(p256dh@, auth@, message@),
        r matches Err(PushError::Decode) <==> (b64url_decoded(p256dh@) is None || b64url_decoded(
            auth@,
        ) is None),
        r matches Err(PushError::Crypto) <==> (b64url_decoded(p256dh@) is Some && b64url_decoded(
            auth@,
        ) is Some && !spec_can_encrypt(p256dh@, auth@, message@)),
        r matches Ok(v) ==> {
            &&& v@.len() == utf8_of(message@).len() + 103
            &&& v@.subrange(16, 20) == spec_rs_bytes()
            &&& v@[20] == 65u8
            &&& 1 <= utf8_of(message@).len() <= 4079
        },
        r matches Ok(v) ==> (b64url_decoded(p256dh@) matches Some(kb) && b64url_decoded(
            auth@,
        ) matches Some(ab) && is_record_for(v@, kb, ab, message@)),
{
    let key_bytes = match b64url_decode(p256dh.as_str()) {
        Ok(b) => b,
        Err(_) => {
            return Err(PushError::Decode);
        },
    };
    let auth_bytes = match b64url_decode(auth.as_str()) {
        Ok(b) => b,
        Err(_) => {
            return Err(PushError::Decode);
        },
    };
    if auth_bytes.len() != 16 {
        return Err(PushError::Crypto);
    }
    let remote = match RemoteKey::from_raw(&key_bytes) {
        Ok(k) => k,
        Err(e) => {
            return Err(e);
        },
    };
    let plaintext = string_bytes(message.as_str());
    if plaintext.len() < 1 || plaintext.len() > 4079 {
        return Err(PushError::Crypto);
    }
    let handler = CryptoHandler;
    let (shared, as_pub) = handler.compute_ecdh_secret(&remote);
    let salt = create_salt();
    let v = encrypt_record(&shared, &auth_bytes, &salt, &key_bytes, &as_pub, &plaintext);
    proof {
        assert(v@.subrange(16, 20) =~= spec_rs_bytes());
        assert(v@ == spec_record(
            shared@,
            auth_bytes@,
            salt@,
            key_bytes@,
            as_pub@,
            utf8_of(message@),
        ));
        assert(is_record_for(v@, key_bytes@, auth_bytes@, message@));
    }
    Ok(v)
}

} // verus!
