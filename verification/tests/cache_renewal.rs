use poem_acme::cache::{
    apply_renewal, needs_renewal, sweep_due, CertificateCache, CertificateEntry,
};
use poem_acme::protocol::AcmeError;

const DAY: u64 = 86_400;

fn entry(host: &str, not_after: u64) -> CertificateEntry {
    CertificateEntry {
        hostnames: vec![String::from(host)],
        chain_pem: format!("chain-{host}").into_bytes(),
        key_der: format!("key-{host}").into_bytes(),
        not_before: 0,
        not_after,
    }
}

#[test]
fn renewal_window_boundary() {
    let now = 1_000_000_000u64;
    let window = 30 * DAY;
    // 29 days before expiry: inside the window, reissued.
    assert!(needs_renewal(&entry("a.example", now + 29 * DAY), now, window));
    // 31 days before expiry: outside the window, left alone.
    assert!(!needs_renewal(&entry("a.example", now + 31 * DAY), now, window));
    // Already expired entries are due as well.
    assert!(needs_renewal(&entry("a.example", now - 1), now, window));
}

#[test]
fn sweep_reports_exactly_the_due_entries() {
    let now = 1_000_000_000u64;
    let window = 30 * DAY;
    let mut cache = CertificateCache::new();
    cache.store(entry("due.example", now + 10 * DAY));
    cache.store(entry("fresh.example", now + 60 * DAY));
    cache.store(entry("gone.example", now - DAY));
    let due = sweep_due(&cache, now, window);
    let hosts: Vec<&str> = due
        .iter()
        .map(|&i| cache.entries[i].hostnames[0].as_str())
        .collect();
    assert_eq!(hosts, vec!["due.example", "gone.example"]);
}

#[test]
fn failed_renewal_keeps_the_previous_entry_untouched() {
    let mut cache = CertificateCache::new();
    cache.store(entry("a.example", 5_000));
    let before_chain = cache
        .lookup(&String::from("a.example"))
        .unwrap()
        .chain_pem
        .clone();
    let before_key = cache
        .lookup(&String::from("a.example"))
        .unwrap()
        .key_der
        .clone();

    // The CA reports an internal error; the renewal fails.
    let renewed = apply_renewal(&mut cache, Err(()));
    assert!(!renewed);

    let after = cache.lookup(&String::from("a.example")).expect("still served");
    assert_eq!(after.chain_pem, before_chain);
    assert_eq!(after.key_der, before_key);
    assert_eq!(after.not_after, 5_000);
    let _ = AcmeError::Storage;
}

#[test]
fn successful_renewal_swaps_the_whole_entry() {
    let mut cache = CertificateCache::new();
    cache.store(entry("a.example", 5_000));
    cache.store(entry("b.example", 7_000));
    let renewed = apply_renewal(&mut cache, Ok(entry("a.example", 90_000)));
    assert!(renewed);
    let a = cache.lookup(&String::from("a.example")).unwrap();
    assert_eq!(a.not_after, 90_000);
    assert_eq!(a.chain_pem, b"chain-a.example".to_vec());
    // The unrelated entry is retained.
    let b = cache.lookup(&String::from("b.example")).unwrap();
    assert_eq!(b.not_after, 7_000);
}

#[test]
fn lookup_misses_unknown_hostnames() {
    let mut cache = CertificateCache::new();
    cache.store(entry("a.example", 5_000));
    assert!(cache.lookup(&String::from("z.example")).is_none());
}
