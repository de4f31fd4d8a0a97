use base64::Engine;
use poem_acme::client::AcmeClient;
use poem_acme::jose::AccountKey;

fn seed() -> Vec<u8> {
    let mut s = vec![0u8; 32];
    s[31] = 3;
    s
}

#[test]
fn each_signed_request_consumes_one_fresh_nonce() {
    let mut key = AccountKey::new(seed()).expect("valid seed");
    key.set_kid(String::from("https://ca/acct/7"));
    let mut client = AcmeClient::new(key);
    let payload = b"{}".to_vec();

    // Without a nonce on hand, nothing is signed.
    assert!(client.sign_request("https://ca/new-order", &payload).is_none());

    client.accept_nonce(String::from("n-1"));
    let (env1, used1) = client
        .sign_request("https://ca/new-order", &payload)
        .expect("signs with the nonce on hand");
    assert_eq!(used1, "n-1");

    // The envelope's protected header carries exactly that nonce.
    let v: serde_json::Value = serde_json::from_slice(&env1).unwrap();
    let engine = base64::engine::general_purpose::URL_SAFE_NO_PAD;
    let protected = engine.decode(v["protected"].as_str().unwrap()).unwrap();
    let header: serde_json::Value = serde_json::from_slice(&protected).unwrap();
    assert_eq!(header["nonce"], "n-1");
    assert_eq!(header["url"], "https://ca/new-order");

    // The consumed nonce is spent: only a fresh one signs the next request.
    assert!(client.sign_request("https://ca/authz/1", &payload).is_none());
    client.accept_nonce(String::from("n-1"));
    assert!(client.sign_request("https://ca/authz/1", &payload).is_none());
    client.accept_nonce(String::from("n-2"));
    let (_, used2) = client
        .sign_request("https://ca/authz/1", &payload)
        .expect("signs with the fresh nonce");
    assert_eq!(used2, "n-2");
    assert_ne!(used1, used2);
}
