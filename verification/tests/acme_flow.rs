use poem_acme::cache::CertificateCache;
use poem_acme::jose::{challenge_digest, AccountKey};
use poem_acme::order::{
    finalize_payload, order_payload, AuthzStep, OrderRun, OrderStep, Phase,
};
use poem_acme::protocol::{parse_directory, HttpResponse};
use poem_acme::resolver::{CertChoice, ChallengeTable};
use poem_acme::protocol::AcmeError;

fn seed() -> Vec<u8> {
    let mut s = vec![0u8; 32];
    s[31] = 9;
    s
}

fn ok(body: &str) -> HttpResponse {
    HttpResponse { status: 200, body: body.as_bytes().to_vec(), nonce: None, location: None }
}

fn ok_at(body: &str, location: &str) -> HttpResponse {
    HttpResponse {
        status: 201,
        body: body.as_bytes().to_vec(),
        nonce: None,
        location: Some(String::from(location)),
    }
}

#[test]
fn end_to_end_issuance() {
    // Directory.
    let dir_body = br#"{"newNonce": "https://ca/acme/new-nonce", "newOrder": "https://ca/acme/new-order", "newAccount": "https://ca/acme/new-account", "revokeCert": "https://ca/acme/revoke-cert"}"#.to_vec();
    let dir = parse_directory(&dir_body).expect("directory parses");
    assert_eq!(dir.new_nonce, "https://ca/acme/new-nonce");
    assert_eq!(dir.new_order, "https://ca/acme/new-order");
    assert_eq!(dir.revoke_cert, Some(String::from("https://ca/acme/revoke-cert")));
    assert_eq!(dir.key_change, None);
    assert!(parse_directory(&br#"{"newNonce": "x"}"#.to_vec()).is_none());

    // New order for ["example.com"].
    let identifiers = vec![String::from("example.com")];
    let payload = order_payload(&identifiers);
    assert_eq!(
        payload,
        br#"{"identifiers":[{"type":"dns","value":"example.com"}]}"#.to_vec()
    );
    let mut run = OrderRun::start(identifiers);
    assert_eq!(run.phase, Phase::Created);
    run.on_order_created(&ok_at(
        r#"{"status": "pending", "authorizations": ["https://ca/authz/1"], "finalize": "https://ca/finalize/1"}"#,
        "https://ca/order/1",
    ));
    assert_eq!(run.phase, Phase::Pending);
    assert_eq!(run.order_url, Some(String::from("https://ca/order/1")));
    assert_eq!(run.authz_urls, vec![String::from("https://ca/authz/1")]);
    assert_eq!(
        run.current_authorization(),
        Some(&String::from("https://ca/authz/1"))
    );

    // The authorization offers a tls-alpn-01 challenge.
    let step = run.on_authorization(&ok(
        r#"{"status": "pending", "identifier": {"type": "dns", "value": "example.com"}, "challenges": [{"type": "http-01", "url": "https://ca/chall/h", "token": "th"}, {"type": "tls-alpn-01", "url": "https://ca/chall/1", "token": "tok-1"}]}"#,
    ));
    let (chall_url, token, ident) = match step {
        AuthzStep::Satisfy(u, t, i) => (u, t, i),
        _ => panic!("expected a challenge to satisfy in phase {:?}", run.phase),
    };
    assert_eq!(chall_url, "https://ca/chall/1");
    assert_eq!(token, "tok-1");
    assert_eq!(ident, Some(String::from("example.com")));

    // Hand the digest to the challenge resolver; the adapter serves it to
    // a validation connection and the production path stays empty.
    let key = AccountKey::new(seed()).expect("valid seed");
    let digest = challenge_digest(&key, &token).expect("digest computes");
    assert_eq!(digest.len(), 32);
    let mut table = ChallengeTable::new();
    table.put(String::from("example.com"), digest.clone());
    let cache = CertificateCache::new();
    let host = String::from("example.com");
    let alpn = vec![String::from("acme-tls/1")];
    match poem_acme::resolver::select_certificate(&table, &cache, &host, &alpn) {
        CertChoice::Challenge(c) => assert_eq!(c, &digest),
        _ => panic!("validation connection must see the challenge certificate"),
    }

    // The authorization becomes valid; the order is ready.
    let step = run.on_authorization(&ok(r#"{"status": "valid", "challenges": []}"#));
    assert!(matches!(step, AuthzStep::Advanced));
    assert_eq!(run.phase, Phase::Ready);
    table.remove(&host);
    assert!(table.get(&host).is_none());

    // Finalize and poll: valid with a certificate URL.
    let csr = vec![1u8, 2, 3];
    let _body = finalize_payload(&csr);
    let step = run.on_order_poll(&ok(r#"{"status": "processing"}"#));
    assert!(matches!(step, OrderStep::Again));
    assert_eq!(run.phase, Phase::Finalizing);
    let step = run.on_order_poll(&ok(
        r#"{"status": "valid", "certificate": "https://ca/cert/1"}"#,
    ));
    let cert_url = match step {
        OrderStep::Download(u) => u,
        _ => panic!("expected the certificate URL"),
    };
    assert_eq!(cert_url, "https://ca/cert/1");
    assert_eq!(run.phase, Phase::Valid);

    // Download: a PEM chain.
    let pem = "-----BEGIN CERTIFICATE-----\nMIIB\n-----END CERTIFICATE-----\n";
    let entry = run
        .on_certificate(&ok(pem), vec![9u8; 4], 1_000, 10_000_000)
        .expect("download succeeds");
    assert_eq!(run.phase, Phase::Downloaded);
    assert_eq!(entry.hostnames, vec![String::from("example.com")]);
    assert_eq!(entry.chain_pem, pem.as_bytes());

    // Stored, the certificate is served for its hostname and its validity
    // covers the present.
    let now = 500_000u64;
    let mut cache = CertificateCache::new();
    cache.store(entry);
    let served = cache.lookup(&host).expect("hostname resolves");
    assert!(served.hostnames.contains(&host));
    assert!(served.not_after > now);
}

#[test]
fn download_without_pem_header_fails() {
    let mut run = OrderRun::start(vec![String::from("example.com")]);
    run.on_order_created(&ok(
        r#"{"status": "pending", "authorizations": ["https://ca/authz/1"], "finalize": "https://ca/finalize/1"}"#,
    ));
    let step = run.on_authorization(&ok(r#"{"status": "valid", "challenges": []}"#));
    assert!(matches!(step, AuthzStep::Advanced));
    let step = run.on_order_poll(&ok(
        r#"{"status": "valid", "certificate": "https://ca/cert/1"}"#,
    ));
    assert!(matches!(step, OrderStep::Download(_)));
    let err = match run.on_certificate(&ok("this is not pem"), vec![], 0, 1) {
        Err(e) => e,
        Ok(_) => panic!("a body without the PEM header must be refused"),
    };
    assert_eq!(err, AcmeError::Protocol);
    assert_eq!(run.phase, Phase::Invalid);
}

#[test]
fn invalid_authorization_aborts_the_order() {
    let mut run = OrderRun::start(vec![String::from("example.com")]);
    run.on_order_created(&ok(
        r#"{"status": "pending", "authorizations": ["https://ca/authz/1"], "finalize": "https://ca/finalize/1"}"#,
    ));
    let step = run.on_authorization(&ok(r#"{"status": "invalid", "challenges": []}"#));
    assert!(matches!(step, AuthzStep::Aborted));
    assert_eq!(run.phase, Phase::Invalid);
    assert_eq!(run.error, Some(AcmeError::ChallengeFailed));
}

#[test]
fn failure_classes_surface_their_errors() {
    let fail = |status: u16, body: &str| {
        let mut run = OrderRun::start(vec![String::from("example.com")]);
        run.on_order_created(&HttpResponse {
            status,
            body: body.as_bytes().to_vec(),
            nonce: None,
            location: None,
        });
        assert_eq!(run.phase, Phase::Invalid);
        run.error.unwrap()
    };
    assert_eq!(fail(500, "{}"), AcmeError::Network);
    assert_eq!(fail(429, "{}"), AcmeError::RateLimited);
    assert_eq!(
        fail(400, r#"{"type": "urn:ietf:params:acme:error:badNonce"}"#),
        AcmeError::BadNonce
    );
    assert_eq!(fail(403, "{}"), AcmeError::Protocol);
    // A 2xx body missing the order fields is a protocol failure too.
    assert_eq!(fail(200, r#"{"status": "pending"}"#), AcmeError::Protocol);
}

#[test]
fn order_payload_joins_identifiers() {
    let ids = vec![String::from("example.com"), String::from("www.example.com")];
    assert_eq!(
        order_payload(&ids),
        br#"{"identifiers":[{"type":"dns","value":"example.com"},{"type":"dns","value":"www.example.com"}]}"#.to_vec()
    );
    assert_eq!(order_payload(&Vec::new()), br#"{"identifiers":[]}"#.to_vec());
}
