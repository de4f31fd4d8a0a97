use poem_acme::cache::{CertificateCache, CertificateEntry};
use poem_acme::flight::InFlight;
use poem_acme::resolver::{select_certificate, CertChoice, ChallengeTable};

#[test]
fn single_flight_admits_exactly_one_run() {
    let mut guard = InFlight::new();
    let key = vec![String::from("example.com"), String::from("www.example.com")];
    // Of several concurrent handshakes, only the first starts a run.
    assert!(guard.begin(key.clone()));
    assert!(!guard.begin(key.clone()));
    assert!(!guard.begin(key.clone()));
    // A different hostname set proceeds independently.
    assert!(guard.begin(vec![String::from("other.example")]));
    // Once the shared run ends, a new one may start.
    guard.end(&key);
    assert!(guard.begin(key.clone()));
    assert!(!guard.begin(key));
    assert!(guard.contains(&vec![String::from("other.example")]));
}

#[test]
fn adapter_serves_production_certificate_by_default() {
    let table = ChallengeTable::new();
    let mut cache = CertificateCache::new();
    cache.store(CertificateEntry {
        hostnames: vec![String::from("example.com")],
        chain_pem: b"chain".to_vec(),
        key_der: b"key".to_vec(),
        not_before: 0,
        not_after: 100,
    });
    let host = String::from("example.com");
    let alpn = vec![String::from("h2"), String::from("http/1.1")];
    match select_certificate(&table, &cache, &host, &alpn) {
        CertChoice::Production(e) => assert_eq!(e.chain_pem, b"chain".to_vec()),
        _ => panic!("an ordinary connection is served the production certificate"),
    }
    // A hostname with no certificate at all fails the handshake.
    let unknown = String::from("unknown.example");
    assert!(matches!(
        select_certificate(&table, &cache, &unknown, &alpn),
        CertChoice::NoCertificate
    ));
}

#[test]
fn adapter_never_serves_production_to_validation_connections() {
    let mut table = ChallengeTable::new();
    let mut cache = CertificateCache::new();
    cache.store(CertificateEntry {
        hostnames: vec![String::from("example.com")],
        chain_pem: b"chain".to_vec(),
        key_der: b"key".to_vec(),
        not_before: 0,
        not_after: 100,
    });
    let host = String::from("example.com");
    let acme = vec![String::from("acme-tls/1")];
    // Validation connection, no pending challenge: nothing is served.
    assert!(matches!(
        select_certificate(&table, &cache, &host, &acme),
        CertChoice::NoCertificate
    ));
    // With a pending challenge the ephemeral certificate is served.
    table.put(host.clone(), b"ephemeral".to_vec());
    match select_certificate(&table, &cache, &host, &acme) {
        CertChoice::Challenge(c) => assert_eq!(c, &b"ephemeral".to_vec()),
        _ => panic!("validation connection must see the challenge certificate"),
    }
    // The entry never outlives its challenge.
    table.remove(&host);
    assert!(table.get(&host).is_none());
}
