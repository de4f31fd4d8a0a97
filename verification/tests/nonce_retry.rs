use poem_acme::nonce::NonceManager;
use poem_acme::order::{decide_retry, NextStep};
use poem_acme::protocol::{classify, ResponseClass};
use poem_acme::order::Backoff;

fn bad_nonce_body() -> Vec<u8> {
    br#"{"type": "urn:ietf:params:acme:error:badNonce", "detail": "stale"}"#.to_vec()
}

#[test]
fn consumed_nonces_are_distinct() {
    let mut m = NonceManager::new();
    m.offer(String::from("n1"));
    let n1 = m.take().unwrap();
    m.offer(String::from("n2"));
    let n2 = m.take().unwrap();
    m.offer(String::from("n3"));
    let n3 = m.take().unwrap();
    let consumed = [n1, n2, n3];
    for i in 0..consumed.len() {
        for j in 0..consumed.len() {
            if i != j {
                assert_ne!(consumed[i], consumed[j]);
            }
        }
    }
    assert_eq!(m.consumed_count(), 3);
}

#[test]
fn a_consumed_nonce_is_never_held_again() {
    let mut m = NonceManager::new();
    m.offer(String::from("n1"));
    let n1 = m.take().unwrap();
    assert_eq!(n1, "n1");
    // A CA replaying an already consumed value is ignored.
    m.offer(String::from("n1"));
    assert!(m.take().is_none());
    m.offer(String::from("n2"));
    assert_eq!(m.take().unwrap(), "n2");
}

#[test]
fn badnonce_is_followed_by_one_retry_with_a_different_nonce() {
    let mut m = NonceManager::new();
    m.offer(String::from("nonce-a"));
    let failed = m.take().unwrap();

    // The CA rejects the nonce and supplies a fresh one in the
    // replay-nonce header.
    let class = classify(400, &bad_nonce_body());
    assert_eq!(class, ResponseClass::BadNonce);
    assert_eq!(decide_retry(class, 1, 3), NextStep::RetryBadNonce);

    m.offer(String::from("nonce-b"));
    let retry = m.take().expect("a fresh nonce is on hand");
    assert_ne!(retry, failed);

    // The retry with a fresh nonce succeeds; a second badNonce, its
    // budget spent, is surfaced as a fatal protocol error.
    assert_eq!(decide_retry(ResponseClass::Success, 0, 3), NextStep::Proceed);
    assert_eq!(decide_retry(ResponseClass::BadNonce, 0, 3), NextStep::Surface);
}

#[test]
fn response_classes_cover_the_taxonomy() {
    assert_eq!(classify(201, &b"{}".to_vec()), ResponseClass::Success);
    assert_eq!(classify(400, &bad_nonce_body()), ResponseClass::BadNonce);
    assert_eq!(classify(429, &b"{}".to_vec()), ResponseClass::RateLimited);
    assert_eq!(classify(503, &b"{}".to_vec()), ResponseClass::Transient);
    assert_eq!(
        classify(403, &br#"{"type": "urn:ietf:params:acme:error:unauthorized"}"#.to_vec()),
        ResponseClass::Fatal
    );
    assert_eq!(decide_retry(ResponseClass::Transient, 1, 2), NextStep::RetryTransient);
    assert_eq!(decide_retry(ResponseClass::Transient, 1, 0), NextStep::Surface);
    assert_eq!(decide_retry(ResponseClass::RateLimited, 1, 1), NextStep::Surface);
    assert_eq!(decide_retry(ResponseClass::Fatal, 1, 1), NextStep::Surface);
}

#[test]
fn backoff_doubles_to_cap_and_stops_at_ceiling() {
    let mut b = Backoff::new(1_000, 10_000, 30_000);
    assert_eq!(b.next_delay(), Some(1_000));
    assert_eq!(b.next_delay(), Some(2_000));
    assert_eq!(b.next_delay(), Some(4_000));
    assert_eq!(b.next_delay(), Some(8_000));
    // 15s spent; the delay is now capped.
    assert_eq!(b.next_delay(), Some(10_000));
    // 25s spent; one more 10s delay would pass the 30s ceiling.
    assert_eq!(b.next_delay(), None);
}
