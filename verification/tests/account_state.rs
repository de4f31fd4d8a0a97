use poem_acme::account::{
    account_payload, decode_account, encode_account, on_account_response,
};
use poem_acme::jose::AccountKey;
use poem_acme::protocol::{AcmeError, HttpResponse};

fn seed() -> Vec<u8> {
    let mut s = vec![0u8; 32];
    s[31] = 5;
    s
}

#[test]
fn registration_payload_shape() {
    let contacts = vec![String::from("mailto:admin@example.com")];
    assert_eq!(
        account_payload(&contacts),
        br#"{"contact":["mailto:admin@example.com"],"termsOfServiceAgreed":true}"#.to_vec()
    );
}

#[test]
fn kid_is_taken_from_the_location_header() {
    let mut key = AccountKey::new(seed()).expect("valid seed");
    let resp = HttpResponse {
        status: 201,
        body: b"{}".to_vec(),
        nonce: None,
        location: Some(String::from("https://ca/acct/42")),
    };
    on_account_response(&mut key, &resp).expect("registration succeeds");
    assert_eq!(key.kid, Some(String::from("https://ca/acct/42")));
}

#[test]
fn registration_without_location_is_a_protocol_error() {
    let mut key = AccountKey::new(seed()).expect("valid seed");
    let resp = HttpResponse { status: 200, body: b"{}".to_vec(), nonce: None, location: None };
    let err = on_account_response(&mut key, &resp).expect_err("no key id to take");
    assert_eq!(err, AcmeError::Protocol);
    assert_eq!(key.kid, None);
}

#[test]
fn account_state_round_trips() {
    let mut key = AccountKey::new(seed()).expect("valid seed");
    key.set_kid(String::from("https://ca/acct/42"));
    let bytes = encode_account(&key);
    let (seed_back, kid_back) = decode_account(&bytes).expect("own encoding decodes");
    assert_eq!(seed_back, seed());
    assert_eq!(kid_back, Some(b"https://ca/acct/42".to_vec()));

    let unregistered = AccountKey::new(seed()).expect("valid seed");
    let bytes = encode_account(&unregistered);
    let (seed_back, kid_back) = decode_account(&bytes).expect("own encoding decodes");
    assert_eq!(seed_back, seed());
    assert_eq!(kid_back, None);
}

#[test]
fn torn_account_state_is_rejected() {
    assert!(decode_account(&Vec::new()).is_none());
    assert!(decode_account(&vec![32u8, 1, 2, 3]).is_none());
    let mut bytes = vec![2u8, 10, 20];
    bytes.push(9);  // neither the with-kid nor the without-kid marker
    assert!(decode_account(&bytes).is_none());
}

#[test]
fn invalid_seeds_are_refused() {
    assert!(AccountKey::new(vec![0u8; 32]).is_none());
    assert!(AccountKey::new(vec![1u8; 7]).is_none());
    assert!(AccountKey::new(seed()).is_some());
}
