use isotopia::alarm::{AlarmChecksumCache, MIN_INTERVAL};
use isotopia::checksums::Verdict;
use isotopia::digest::{checksum, Hasher};

#[test]
fn verdicts() {
    let mut cache = AlarmChecksumCache::new(None, Some("a"), 0);
    assert_eq!(cache.latest(), Some("a".to_string()));
    assert_eq!(cache.is_latest("a", 0), Verdict::Approved);
    assert_eq!(cache.is_latest("b", 0), Verdict::Unknown);

    assert_eq!(cache.update(5, &Some("b".to_string())), Some("b\na".to_string()));
    assert!(cache.is_downloaded("b"));
    assert!(!cache.is_downloaded("a"));
    assert_eq!(cache.is_latest("b", 5), Verdict::Approved);
    assert_eq!(cache.is_latest("a", 5), Verdict::Rejected);
    assert_eq!(cache.is_latest("a", 4 + MIN_INTERVAL), Verdict::Rejected);
    assert_eq!(cache.is_latest("c", 4 + MIN_INTERVAL), Verdict::Rejected);
    assert_eq!(cache.is_latest("c", 5 + MIN_INTERVAL), Verdict::Unknown);

    // Known old checksums are rejected at any time.
    assert_eq!(cache.is_latest("a", 5 + MIN_INTERVAL), Verdict::Rejected);

    assert_eq!(cache.update(6, &Some("b".to_string())), None);
    assert_eq!(cache.update(6, &None), None);
    assert_eq!(cache.latest(), Some("b".to_string()));
}

#[test]
fn disabled_validation_approves_everything() {
    let cache = AlarmChecksumCache::new(Some("0"), None, 0);
    assert_eq!(cache.is_latest("a", 0), Verdict::Approved);
}

#[test]
fn tarball_is_hashed_in_chunks() {
    let mut hasher = Hasher::new();
    hasher.consume(b"abcdefghijklm");
    hasher.consume(b"");
    hasher.consume(b"nopqrstuvwxyz");
    assert_eq!(hasher.compute(), "c3fcd3d76192e4007dfb496cca67e13b");
    assert_eq!(Hasher::new().compute(), "d41d8cd98f00b204e9800998ecf8427e");

    let data: Vec<u8> = (0..1000).map(|i| (i % 251) as u8).collect();
    let mut hasher = Hasher::new();
    for chunk in data.chunks(77) {
        hasher.consume(chunk);
    }
    assert_eq!(hasher.compute(), checksum(&data));
    assert_eq!(checksum(&data), format!("{:x}", md5::compute(&data)));
}
