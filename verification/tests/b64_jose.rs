use base64::Engine;
use p256::ecdsa::signature::Verifier;
use poem_acme::b64::b64url_encode;
use p256::elliptic_curve::sec1::ToEncodedPoint;
use poem_acme::jose::{jwk_json, key_authorization, signed_request_kid, AccountKey};
use sha2::Digest;

fn seed() -> Vec<u8> {
    let mut s = vec![0u8; 32];
    s[31] = 7;
    s
}

#[test]
fn b64url_known_vectors() {
    assert_eq!(b64url_encode(b""), b"");
    assert_eq!(b64url_encode(b"f"), b"Zg");
    assert_eq!(b64url_encode(b"fo"), b"Zm8");
    assert_eq!(b64url_encode(b"foo"), b"Zm9v");
    assert_eq!(b64url_encode(b"foob"), b"Zm9vYg");
    assert_eq!(b64url_encode(b"fooba"), b"Zm9vYmE");
    assert_eq!(b64url_encode(b"foobar"), b"Zm9vYmFy");
}

#[test]
fn b64url_uses_url_safe_alphabet() {
    let out = b64url_encode(&[0xfb, 0xff, 0xbf]);
    assert_eq!(out, b"-_-_");
    let engine = base64::engine::general_purpose::URL_SAFE_NO_PAD;
    for input in [vec![], vec![0], vec![255, 0, 1, 2, 3], (0u8..=255).collect::<Vec<u8>>()] {
        assert_eq!(
            String::from_utf8(b64url_encode(&input)).unwrap(),
            engine.encode(&input)
        );
    }
}

#[test]
fn signed_envelope_is_flattened_jws() {
    let key = AccountKey::new(seed()).expect("valid seed");
    let mut key = key;
    key.set_kid(String::from("https://ca/acct/1"));
    let payload = b"{}".to_vec();
    let env = signed_request_kid(
        &key,
        "https://ca/acct/1",
        "nonce-1",
        "https://ca/new-order",
        &payload,
    )
    .expect("signing succeeds");

    let v: serde_json::Value = serde_json::from_slice(&env).expect("envelope is valid JSON");
    let engine = base64::engine::general_purpose::URL_SAFE_NO_PAD;
    let protected = engine
        .decode(v["protected"].as_str().unwrap())
        .expect("protected is base64url");
    let header: serde_json::Value = serde_json::from_slice(&protected).unwrap();
    assert_eq!(header["alg"], "ES256");
    assert_eq!(header["kid"], "https://ca/acct/1");
    assert_eq!(header["nonce"], "nonce-1");
    assert_eq!(header["url"], "https://ca/new-order");
    assert_eq!(
        engine.decode(v["payload"].as_str().unwrap()).unwrap(),
        b"{}"
    );

    // The signature verifies under the account's public key over
    // base64url(protected) "." base64url(payload).
    let sig_bytes = engine.decode(v["signature"].as_str().unwrap()).unwrap();
    assert_eq!(sig_bytes.len(), 64);
    let sig = p256::ecdsa::Signature::from_slice(&sig_bytes).unwrap();
    let signing_key = p256::ecdsa::SigningKey::from_slice(&seed()).unwrap();
    let msg = format!(
        "{}.{}",
        v["protected"].as_str().unwrap(),
        v["payload"].as_str().unwrap()
    );
    signing_key
        .verifying_key()
        .verify(msg.as_bytes(), &sig)
        .expect("signature verifies");
}

#[test]
fn key_authorization_is_token_dot_thumbprint() {
    let key = AccountKey::new(seed()).expect("valid seed");
    let auth = key_authorization(&key, "tok-123").expect("public key derives");

    let signing_key = p256::ecdsa::SigningKey::from_slice(&seed()).unwrap();
    let point = signing_key.verifying_key().to_encoded_point(false);
    let jwk = jwk_json(&point.x().unwrap().to_vec(), &point.y().unwrap().to_vec());
    let thumb = sha2::Sha256::digest(&jwk);
    let mut expected = b"tok-123.".to_vec();
    expected.extend_from_slice(&b64url_encode(&thumb));
    assert_eq!(auth, expected);
}
