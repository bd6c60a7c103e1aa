use diff_push::PushError;
use diff_push::Subscription;
use diff_push::check_update_site;
use diff_push::crypto::RemoteKey;
use diff_push::crypto::derive_key_and_nonce;
use diff_push::crypto::encrypt_message;
use diff_push::crypto::encrypt_record;
use diff_push::encode::b64url_decode;
use diff_push::encode::b64url_encode;
use diff_push::encode::string_bytes;
use diff_push::encode::u64_to_dec;
use diff_push::handle_sub_change;
use diff_push::html::parse_html_text;
use diff_push::kv::Registry;
use diff_push::kv::site_key;
use diff_push::kv::sub_key;
use diff_push::needs_seed;
use diff_push::push::PushRequest;
use diff_push::push::VapidConfig;
use diff_push::push::audience_of;
use diff_push::push::build_push_request;
use diff_push::push::classify_push_response;
use diff_push::push::create_vapid_jwt;
use diff_push::register_subscription;
use diff_push::retire_site;
use diff_push::retire_subscription;

fn s(x: &str) -> String {
    x.to_string()
}

fn b64(x: &str) -> Vec<u8> {
    b64url_decode(x).unwrap()
}

// The aes128gcm example of the push-message encryption standard: subscriber
// ("ua") and sender ("as") keypairs, auth secret and salt, with the expected
// derived values and the expected final message.
const UA_PUBLIC: &str = "BCVxsr7N_eNgVRqvHtD0zTZsEc6-VV-JvLexhqUzORcxaOzi6-AYWXvTBHm4bjyPjs7Vd8pZGH6SRpkNtoIAiw4";
const UA_PRIVATE: &str = "q1dXpw3UpT5VOmu_cf_v6ih07Aems3njxI-JWgLcM94";
const AS_PUBLIC: &str = "BP4z9KsN6nGRTbVYI_c7VJSPQTBtkgcy27mlmlMoZIIgDll6e3vCYLocInmYWAmS6TlzAC8wEqKK6PBru3jl7A8";
const AS_PRIVATE: &str = "yfWPiYE-n46HLnH0KqZOF1fJJU3MYrct3AELtAQ-oRw";
const AUTH_SECRET: &str = "BTBZMqHH6r4Tts7J_aSIgg";
const SALT: &str = "DGv6ra1nlYgDCS1FRnbzlw";
const ECDH_SECRET: &str = "kyrL1jIIOHEzg3sM2ZWRHDRB62YACZhhSlknJ672kSs";
const CEK: &str = "oIhVW04MRdy2XN9CiKLxTg";
const NONCE: &str = "4h_95klXJ5E_qnoN";
const MESSAGE: &str = "When I grow up, I want to be a watermelon";
const RECORD: &str = "DGv6ra1nlYgDCS1FRnbzlwAAEABBBP4z9KsN6nGRTbVYI_c7VJSPQTBtkgcy27mlmlMoZIIgDll6e3vCYLocInmYWAmS6TlzAC8wEqKK6PBru3jl7A_yl95bQpu6cVPTpK4Mqgkf1CXztLVBSt2Ks3oZwbuwXPXLWyouBWLVWGNWQexSgSxsj_Qulcy4a-fN";

fn ecdh(private_b64: &str, public_b64: &str) -> Vec<u8> {
    let sk = p256::SecretKey::from_slice(&b64(private_b64)).unwrap();
    let pk = p256::PublicKey::from_sec1_bytes(&b64(public_b64)).unwrap();
    p256::ecdh::diffie_hellman(sk.to_nonzero_scalar(), pk.as_affine())
        .raw_secret_bytes()
        .to_vec()
}

#[test]
fn key_agreement_matches_standard_vector() {
    let shared = ecdh(AS_PRIVATE, UA_PUBLIC);
    assert_eq!(shared, b64(ECDH_SECRET));
    let shared_ua_side = ecdh(UA_PRIVATE, AS_PUBLIC);
    assert_eq!(shared_ua_side, shared);
    let (cek, nonce) = derive_key_and_nonce(
        &shared,
        &b64(AUTH_SECRET),
        &b64(SALT),
        &b64(UA_PUBLIC),
        &b64(AS_PUBLIC),
    );
    assert_eq!(cek, b64(CEK));
    assert_eq!(nonce, b64(NONCE));
}

#[test]
fn encrypted_record_matches_standard_vector() {
    let shared = ecdh(AS_PRIVATE, UA_PUBLIC);
    let record = encrypt_record(
        &shared,
        &b64(AUTH_SECRET),
        &b64(SALT),
        &b64(UA_PUBLIC),
        &b64(AS_PUBLIC),
        &MESSAGE.as_bytes().to_vec(),
    );
    assert_eq!(record, b64(RECORD));
}

#[test]
fn encrypt_message_error_variants() {
    let msg = s("hello");
    let good_auth = s(AUTH_SECRET);
    assert!(matches!(
        encrypt_message(&s("!!not-base64!!"), &good_auth, &msg),
        Err(PushError::Decode)
    ));
    assert!(matches!(
        encrypt_message(&s(UA_PUBLIC), &s("!!"), &msg),
        Err(PushError::Decode)
    ));
    // valid base64url, but no valid P-256 point
    assert!(matches!(
        encrypt_message(&s("AAAA"), &good_auth, &msg),
        Err(PushError::Crypto)
    ));
    // auth secret of the wrong length
    assert!(matches!(
        encrypt_message(&s(UA_PUBLIC), &s("aGk"), &msg),
        Err(PushError::Crypto)
    ));
    // empty plaintext
    assert!(matches!(
        encrypt_message(&s(UA_PUBLIC), &good_auth, &s("")),
        Err(PushError::Crypto)
    ));
}

#[test]
fn base64url_and_decimal_helpers() {
    assert_eq!(b64url_encode(b"hi"), "aGk");
    assert_eq!(b64url_encode(&[]), "");
    assert_eq!(b64url_encode(&[251, 255]), "-_8");
    assert_eq!(b64url_decode("aGk").unwrap(), b"hi");
    assert!(b64url_decode("!!").is_err());
    assert_eq!(u64_to_dec(0), "0");
    assert_eq!(u64_to_dec(86400), "86400");
    assert_eq!(string_bytes("a\u{00E9}"), "a\u{00E9}".as_bytes().to_vec());
}

#[test]
fn subscriber_key_import() {
    assert!(RemoteKey::from_string(&s(UA_PUBLIC)).is_ok());
    assert!(matches!(RemoteKey::from_string(&s("!!")), Err(PushError::Decode)));
    assert!(matches!(RemoteKey::from_string(&s("AAAA")), Err(PushError::Crypto)));
}

#[test]
fn audience_extraction() {
    assert_eq!(
        audience_of(&s("https://push.example.net/send/abc")).unwrap(),
        "https://push.example.net"
    );
    assert_eq!(
        audience_of(&s("https://push.example.net:8443/a?b=c#d")).unwrap(),
        "https://push.example.net:8443"
    );
    assert_eq!(audience_of(&s("http://h")).unwrap(), "http://h");
    assert!(audience_of(&s("no-scheme")).is_none());
    assert!(audience_of(&s("://missing.scheme")).is_none());
    assert!(audience_of(&s("https://")).is_none());
    // an invalid scheme does not parse as a URL
    assert!(audience_of(&s("ht tp://h")).is_none());
    assert!(audience_of(&s("1https://h")).is_none());
    assert!(audience_of(&s("a b c https://h/x")).is_none());
}

fn operator_config() -> (VapidConfig, Vec<u8>) {
    let key_bytes: Vec<u8> = (1u8..=32).collect();
    let sk = p256::ecdsa::SigningKey::from_slice(&key_bytes).unwrap();
    let vk = p256::ecdsa::VerifyingKey::from(&sk);
    let pub_bytes = vk.to_encoded_point(false).as_bytes().to_vec();
    let cfg = VapidConfig {
        subject: s("mailto:admin@example.com"),
        public_key: b64url_encode(&pub_bytes),
        private_key: b64url_encode(&key_bytes),
    };
    (cfg, pub_bytes)
}

fn verify_token(token: &str, pub_bytes: &[u8], expected_aud: &str, now: u64) {
    let segments: Vec<&str> = token.split('.').collect();
    assert_eq!(segments.len(), 3);
    let header: serde_json::Value =
        serde_json::from_slice(&b64url_decode(segments[0]).unwrap()).unwrap();
    assert_eq!(header["alg"].as_str().unwrap(), "ES256");
    assert_eq!(header["typ"].as_str().unwrap(), "JWT");
    let claims: serde_json::Value =
        serde_json::from_slice(&b64url_decode(segments[1]).unwrap()).unwrap();
    assert_eq!(claims["aud"].as_str().unwrap(), expected_aud);
    assert_eq!(claims["sub"].as_str().unwrap(), "mailto:admin@example.com");
    assert_eq!(claims["iat"].as_u64().unwrap(), now);
    assert_eq!(claims["nbf"].as_u64().unwrap(), now);
    assert_eq!(claims["exp"].as_u64().unwrap(), now + 7200);
    let vk = p256::ecdsa::VerifyingKey::from_sec1_bytes(pub_bytes).unwrap();
    let sig = p256::ecdsa::Signature::from_slice(&b64url_decode(segments[2]).unwrap()).unwrap();
    let signing_input = format!("{}.{}", segments[0], segments[1]);
    assert!(p256::ecdsa::signature::Verifier::verify(&vk, signing_input.as_bytes(), &sig).is_ok());
    // a token whose audience was altered no longer verifies
    let mut tampered: serde_json::Value = claims.clone();
    tampered["aud"] = serde_json::Value::String(s("https://evil.example"));
    let tampered_seg = b64url_encode(serde_json::to_string(&tampered).unwrap().as_bytes());
    let tampered_input = format!("{}.{}", segments[0], tampered_seg);
    assert!(
        p256::ecdsa::signature::Verifier::verify(&vk, tampered_input.as_bytes(), &sig).is_err()
    );
}

#[test]
fn vapid_token_structure_and_signature() {
    let (cfg, pub_bytes) = operator_config();
    let now: u64 = 1_700_000_000;
    let token = create_vapid_jwt(
        &s("https://push.example.net:8443/send/abc"),
        &cfg.subject,
        &cfg.private_key,
        now,
    )
    .unwrap();
    verify_token(&token, &pub_bytes, "https://push.example.net:8443", now);
}

#[test]
fn vapid_error_variants() {
    let (cfg, _) = operator_config();
    assert!(matches!(
        create_vapid_jwt(&s("no-scheme"), &cfg.subject, &cfg.private_key, 1),
        Err(PushError::Parse)
    ));
    assert!(matches!(
        create_vapid_jwt(&s("https://h"), &cfg.subject, &s("!!"), 1),
        Err(PushError::Decode)
    ));
    // zero is no valid signing scalar
    assert!(matches!(
        create_vapid_jwt(&s("https://h"), &cfg.subject, &b64url_encode(&[0u8; 32]), 1),
        Err(PushError::Sign)
    ));
    assert!(matches!(
        create_vapid_jwt(&s("https://h"), &cfg.subject, &b64url_encode(&[1, 2, 3]), 1),
        Err(PushError::Sign)
    ));
}

#[test]
fn response_classification() {
    assert!(classify_push_response(200, s("")).is_ok());
    assert!(classify_push_response(204, s("")).is_ok());
    assert!(classify_push_response(299, s("")).is_ok());
    match classify_push_response(404, s("gone")) {
        Err(PushError::Delivery(body)) => assert_eq!(body, "gone"),
        _ => panic!("a 404 must be a delivery failure"),
    }
    assert!(classify_push_response(199, s("x")).is_err());
    assert!(classify_push_response(300, s("x")).is_err());
    assert!(classify_push_response(500, s("boom")).is_err());
}

/// Subscriber-side decryption of an aes128gcm message, as a conformant
/// receiver would do it with its private key and auth secret.
fn subscriber_decrypt(body: &[u8], ua_private: &str, ua_public: &str, auth: &str) -> Vec<u8> {
    assert!(body.len() > 86);
    let salt = &body[0..16];
    assert_eq!(&body[16..20], &[0u8, 0, 16, 0]);
    assert_eq!(body[20], 65);
    let as_pub = &body[21..86];
    let ct = &body[86..];
    let sk = p256::SecretKey::from_slice(&b64(ua_private)).unwrap();
    let pk = p256::PublicKey::from_sec1_bytes(as_pub).unwrap();
    let shared = p256::ecdh::diffie_hellman(sk.to_nonzero_scalar(), pk.as_affine());
    let mut info = b"WebPush: info\0".to_vec();
    info.extend_from_slice(&b64(ua_public));
    info.extend_from_slice(as_pub);
    let (_, hk) = hkdf::Hkdf::<sha2::Sha256>::extract(
        Some(&b64(auth)),
        shared.raw_secret_bytes(),
    );
    let mut ikm = [0u8; 32];
    hk.expand(&info, &mut ikm).unwrap();
    let (_, hk2) = hkdf::Hkdf::<sha2::Sha256>::extract(Some(salt), &ikm);
    let mut cek = [0u8; 16];
    hk2.expand(b"Content-Encoding: aes128gcm\0", &mut cek).unwrap();
    let mut nonce = [0u8; 12];
    hk2.expand(b"Content-Encoding: nonce\0", &mut nonce).unwrap();
    let cipher = <aes_gcm::Aes128Gcm as aes_gcm::KeyInit>::new_from_slice(&cek).unwrap();
    let padded = aes_gcm::aead::Aead::decrypt(
        &cipher,
        aes_gcm::Nonce::from_slice(&nonce),
        ct,
    )
    .unwrap();
    assert_eq!(*padded.last().unwrap(), 2u8);
    padded[..padded.len() - 1].to_vec()
}

fn check_request(req: &PushRequest, cfg: &VapidConfig, endpoint: &str) {
    assert_eq!(req.endpoint, endpoint);
    assert!(req.authorization.starts_with("vapid t="));
    assert!(req.authorization.ends_with(&format!(", k={}", cfg.public_key)));
    assert_eq!(req.ttl, "86400");
    assert_eq!(req.content_encoding, "aes128gcm");
    assert_eq!(req.content_type, "application/octet-stream");
    assert_eq!(req.content_length, req.body.len().to_string());
}

#[test]
fn registration_and_scan_end_to_end() {
    let url = s("https://watched.example/page");
    let endpoint = s("https://push.example.net/send/abc");
    let sub = Subscription {
        diff: url.clone(),
        endpoint: endpoint.clone(),
        auth: s(AUTH_SECRET),
        p256dh: s(UA_PUBLIC),
    };
    let (cfg, pub_bytes) = operator_config();
    let now: u64 = 1_700_000_000;
    let page1 = "<body><p>Version   ONE</p></body>";
    let page2 = "<body><p>Version TWO</p><script>x</script></body>";

    let mut reg = Registry::new();
    assert!(needs_seed(&reg, &url));
    let fetched1 = Some(parse_html_text(page1));
    register_subscription(&mut reg, &sub, &fetched1).unwrap();
    assert_eq!(reg.get(&site_key(&url)).unwrap(), "version one");
    assert!(reg.get(&sub_key(&url, &sub.p256dh)).is_some());
    assert!(!needs_seed(&reg, &url));

    // a second registration does not need a fetch and changes nothing
    let record_before = reg.get(&sub_key(&url, &sub.p256dh)).unwrap();
    register_subscription(&mut reg, &sub, &None).unwrap();
    assert_eq!(reg.get(&site_key(&url)).unwrap(), "version one");
    assert_eq!(reg.get(&sub_key(&url, &sub.p256dh)).unwrap(), record_before);
    assert_eq!(reg.keys_for_prefix(&s("")).len(), 2);

    // unchanged page: no change detected, no push prepared, nothing mutated
    let key = site_key(&url);
    let batch = check_update_site(&reg, &key, &Some(parse_html_text(page1)), &cfg, now).unwrap();
    assert!(batch.is_none());
    assert!(reg.get(&key).is_some());
    assert!(reg.get(&sub_key(&url, &sub.p256dh)).is_some());

    // changed page: one push per subscription; the records are retired only
    // as each delivery completes, the site record after all of them
    let batch = check_update_site(&reg, &key, &Some(parse_html_text(page2)), &cfg, now).unwrap();
    let v = batch.unwrap();
    assert_eq!(v.len(), 1);
    assert_eq!(v[0].0, sub_key(&url, &sub.p256dh));
    let req = &v[0].1;
    check_request(req, &cfg, &endpoint);
    let token = req
        .authorization
        .strip_prefix("vapid t=")
        .unwrap()
        .split(", k=")
        .next()
        .unwrap();
    verify_token(token, &pub_bytes, "https://push.example.net", now);
    let plain = subscriber_decrypt(&req.body, UA_PRIVATE, UA_PUBLIC, AUTH_SECRET);
    assert_eq!(plain, url.as_bytes());
    // nothing is retired before the deliveries
    assert!(reg.get(&key).is_some());
    assert!(reg.get(&sub_key(&url, &sub.p256dh)).is_some());
    retire_subscription(&mut reg, &v[0].0);
    assert!(reg.get(&sub_key(&url, &sub.p256dh)).is_none());
    assert!(reg.get(&key).is_some());
    retire_site(&mut reg, &url);
    assert!(reg.get(&key).is_none());
    assert!(reg.keys_for_prefix(&s("")).is_empty());
}

#[test]
fn fetch_failure_on_unseen_page_fails_registration() {
    let sub = Subscription {
        diff: s("https://unseen.example/"),
        endpoint: s("https://push.example.net/send/abc"),
        auth: s(AUTH_SECRET),
        p256dh: s(UA_PUBLIC),
    };
    let mut reg = Registry::new();
    assert!(matches!(
        register_subscription(&mut reg, &sub, &None),
        Err(PushError::Fetch)
    ));
    assert!(reg.keys_for_prefix(&s("")).is_empty());
}

#[test]
fn vanished_snapshot_counts_as_change() {
    let (cfg, _) = operator_config();
    let mut reg = Registry::new();
    // the key is listed but holds no value any more: treated as a change,
    // with an empty fanout for a page without subscribers
    let key = s("site:https://gone.example/");
    let batch = check_update_site(&reg, &key, &Some(s("text")), &cfg, 1_700_000_000).unwrap();
    assert!(batch.unwrap().is_empty());
}

#[test]
fn fetch_failure_during_scan_counts_as_change() {
    let (cfg, _) = operator_config();
    let mut reg = Registry::new();
    reg.put(s("site:u"), s("old text"));
    let batch = check_update_site(&reg, &s("site:u"), &None, &cfg, 1_700_000_000).unwrap();
    assert!(batch.unwrap().is_empty());
    // the tracking stays until the caller retires it after the (empty) fanout
    assert!(reg.get(&s("site:u")).is_some());
    retire_site(&mut reg, &s("u"));
    assert!(reg.get(&s("site:u")).is_none());
}

#[test]
fn unparsable_record_fails_fanout_and_keeps_the_record() {
    let (cfg, _) = operator_config();
    let mut reg = Registry::new();
    reg.put(s("sub:u:PK"), s("not a record"));
    assert!(matches!(
        handle_sub_change(&reg, &s("sub:u:PK"), &cfg, 1_700_000_000),
        Err(PushError::Parse)
    ));
    assert!(reg.get(&s("sub:u:PK")).is_some());
}

#[test]
fn build_push_request_headers() {
    let (cfg, _) = operator_config();
    let endpoint = s("https://push.example.net/send/abc");
    let sub = Subscription {
        diff: s("https://watched.example/page"),
        endpoint: endpoint.clone(),
        auth: s(AUTH_SECRET),
        p256dh: s(UA_PUBLIC),
    };
    let req = build_push_request(&sub, &cfg, 1_700_000_000).unwrap();
    check_request(&req, &cfg, &endpoint);
    // 16 salt + 4 record size + 1 id length + 65 key id + payload + delimiter + 16 tag
    assert_eq!(req.body.len(), sub.diff.len() + 103);
}

#[test]
fn each_message_uses_fresh_salt_and_key() {
    let msg = s("the very same message");
    let one = encrypt_message(&s(UA_PUBLIC), &s(AUTH_SECRET), &msg).unwrap();
    let two = encrypt_message(&s(UA_PUBLIC), &s(AUTH_SECRET), &msg).unwrap();
    assert_eq!(one.len(), two.len());
    // fresh random salt and ephemeral key per message: the salt and key-id
    // fields differ between two encryptions of the same plaintext
    assert_ne!(one[0..16], two[0..16]);
    assert_ne!(one[21..86], two[21..86]);
}

#[test]
fn decimal_rendering_extremes() {
    assert_eq!(u64_to_dec(u64::MAX), "18446744073709551615");
    assert_eq!(u64_to_dec(10), "10");
    assert_eq!(u64_to_dec(9), "9");
}

#[test]
fn independent_implementation_decrypts_our_record() {
    let message = s("https://watched.example/page");
    let body = encrypt_message(&s(UA_PUBLIC), &s(AUTH_SECRET), &message).unwrap();
    // the ece crate's own backend, a fully independent receiver
    let components = ece::EcKeyComponents::new(b64(UA_PRIVATE), b64(UA_PUBLIC));
    let plain = ece::decrypt(&components, &b64(AUTH_SECRET), &body).unwrap();
    assert_eq!(plain, message.as_bytes());
}
