use isotopia::cache::{
    available_image_space, AlarmChecksumCache, DirectoryEntry, ImageCacheData, SpaceStep,
    UpdateEvent, UpdateStep, MIN_INTERVAL,
};
use isotopia::checksums::{published_checksum, ChecksumHistory, Verdict, MAX_CHECKSUMS};
use isotopia::error::{Error, IoErrorKind};
use isotopia::paths::equal_paths;

fn images(paths: &[&str]) -> ImageCacheData {
    let mut cache = ImageCacheData::new(vec![]);
    for path in paths.iter().rev() {
        cache.add(path.as_bytes().to_vec());
    }
    cache
}

/// Paths from the least to the most recently used one.
fn order(mut cache: ImageCacheData) -> Vec<String> {
    let mut paths = Vec::new();
    while let Ok(SpaceStep::Remove(path)) = cache.free_space(0, 1) {
        cache.removed(0, 0);
        paths.push(String::from_utf8(path).unwrap());
    }
    paths
}

#[test]
fn only_files_are_images() {
    let entries = vec![
        DirectoryEntry { path: "a".into(), is_file: true },
        DirectoryEntry { path: "b".into(), is_file: false },
        DirectoryEntry { path: "c".into(), is_file: true },
    ];
    assert_eq!(order(ImageCacheData::new(entries)), vec!["c", "a"]);
}

#[test]
fn accessed_image_comes_first() {
    let mut cache = images(&["a", "b", "c"]);
    cache.accessed(b"b");
    assert_eq!(order(cache), vec!["c", "a", "b"]);

    let mut cache = images(&["a", "b", "c"]);
    cache.accessed(b"missing");
    cache.accessed(b"a");
    assert_eq!(order(cache), vec!["c", "b", "a"]);

    // The last of several equal entries moves.
    let mut cache = images(&["b", "a", "c", "a", "d"]);
    cache.accessed(b"a");
    assert_eq!(order(cache), vec!["d", "c", "a", "b", "a"]);
}

#[test]
fn least_recently_used_images_are_removed() {
    let mut cache = images(&["a", "b", "c"]);
    assert_eq!(cache.free_space(10, 10), Ok(SpaceStep::Enough));
    let mut available = 4;
    let mut removed = Vec::new();
    loop {
        match cache.free_space(available, 10).unwrap() {
            SpaceStep::Enough => break,
            SpaceStep::Remove(path) => {
                removed.push(path);
                available = cache.removed(available, 3);
            },
        }
    }
    assert_eq!(available, 10);
    assert_eq!(removed, vec![b"c".to_vec(), b"b".to_vec()]);
    assert_eq!(order(cache), vec!["a"]);
}

#[test]
fn storage_can_be_exhausted() {
    let cache = images(&[]);
    assert_eq!(
        cache.free_space(0, 1),
        Err(Error::Io(IoErrorKind::StorageFull, "insufficient storage left for image".into()))
    );
}

#[test]
fn reserved_space_is_not_available() {
    assert_eq!(available_image_space(10, 512, 120), 5000);
    assert_eq!(available_image_space(10, 512, 5120), 0);
    assert_eq!(available_image_space(10, 512, 5121), 0);
}

#[test]
fn validation_can_be_disabled() {
    let disabled = AlarmChecksumCache::new(Some("0"), None, 0);
    assert_eq!(disabled.is_latest("anything", 0), Verdict::Approved);
    let enabled = AlarmChecksumCache::new(Some("00"), None, 0);
    assert_eq!(enabled.is_latest("anything", 0), Verdict::Unknown);
    let default = AlarmChecksumCache::new(None, Some("abc"), 0);
    assert_eq!(default.is_latest("anything", 0), Verdict::Unknown);
    assert_eq!(default.is_latest("anything", -1), Verdict::Rejected);
    assert_eq!(default.is_latest("abc", -1), Verdict::Approved);
}

/// Runs an update, and returns what was done for it.
fn update(
    cache: &mut AlarmChecksumCache,
    now: i64,
    published: Option<&str>,
) -> (Vec<UpdateStep>, Option<String>) {
    let (mut update, mut step) = cache.begin_update(now);
    let mut steps = Vec::new();
    loop {
        let event = match &step {
            UpdateStep::Download => UpdateEvent::Downloaded(published.map(String::from)),
            UpdateStep::Store(_) => UpdateEvent::Stored,
            UpdateStep::DeleteDone => UpdateEvent::DoneDeleted,
            UpdateStep::RemoveImages => UpdateEvent::ImagesRemoved,
            UpdateStep::Finished(news) => return (steps, news.clone()),
        };
        steps.push(step);
        assert!(update.expects(&event));
        step = cache.update_checksum(&mut update, event);
    }
}

#[test]
fn checksum_updates() {
    let mut cache = AlarmChecksumCache::new(None, Some("b\na\n"), 0);
    assert_eq!(cache.latest(), Some("b".to_string()));
    assert_eq!(cache.is_latest("b", 0), Verdict::Approved);
    assert_eq!(cache.is_latest("c", 0), Verdict::Unknown);
    assert!(cache.update_due(0));

    // Nothing new.
    assert_eq!(update(&mut cache, 7, Some("b")), (vec![UpdateStep::Download], None));
    assert!(!cache.update_due(7));
    assert!(!cache.update_due(6));
    assert!(!cache.update_due(7 + MIN_INTERVAL - 1));
    assert!(cache.update_due(7 + MIN_INTERVAL));

    // An update which is not due is skipped.
    assert_eq!(update(&mut cache, 6 + MIN_INTERVAL, Some("c")), (vec![], None));
    assert_eq!(cache.latest(), Some("b".to_string()));
    assert!(cache.update_due(7 + MIN_INTERVAL));

    // A failed download counts as an update.
    let second = 7 + MIN_INTERVAL;
    assert_eq!(update(&mut cache, second, None), (vec![UpdateStep::Download], None));
    assert!(!cache.update_due(second));

    // A new checksum.
    let third = second + MIN_INTERVAL;
    let (steps, news) = update(&mut cache, third, Some("c"));
    assert_eq!(
        steps,
        vec![
            UpdateStep::Download,
            UpdateStep::Store("c\nb\na".into()),
            UpdateStep::DeleteDone,
            UpdateStep::RemoveImages
        ]
    );
    assert_eq!(news, Some("c".to_string()));
    assert!(AlarmChecksumCache::matches_update(&news, "c"));
    assert!(!AlarmChecksumCache::matches_update(&news, "b"));
    assert!(!AlarmChecksumCache::matches_update(&None, "c"));
    assert_eq!(cache.is_latest("c", third), Verdict::Approved);
    assert_eq!(cache.is_latest("d", third), Verdict::Rejected);

    // An old checksum can come back.
    let (steps, news) = update(&mut cache, third + MIN_INTERVAL, Some("a"));
    assert_eq!(news, Some("a".to_string()));
    assert_eq!(steps[1], UpdateStep::Store("a\nc\nb\na".into()));
    assert_eq!(cache.is_latest("a", third), Verdict::Approved);
}

#[test]
fn old_checksums_are_disqualified() {
    let cache = AlarmChecksumCache::new(None, Some("new\nold"), 0);
    assert!(cache.update_due(0));
    assert_eq!(cache.is_latest("old", 0), Verdict::Rejected);
    assert_eq!(cache.is_latest("new", 0), Verdict::Approved);
    assert_eq!(cache.is_latest("", 0), Verdict::Unknown);
    assert_eq!(cache.is_latest("newer", 0), Verdict::Unknown);
}

#[test]
fn paths_are_compared_by_components() {
    for (a, b) in [
        ("./images/a", "./images//a"),
        ("./images/a", "././images/./a"),
        ("a/b", "a/b/"),
        ("a/b", "a/b/."),
        ("/a", "///a"),
        ("/./a", "/a"),
        ("", ""),
        (".", "./"),
    ] {
        assert!(equal_paths(a.as_bytes(), b.as_bytes()));
        assert_eq!(std::path::Path::new(a), std::path::Path::new(b));
    }
    for (a, b) in [
        ("./images/a", "images/a"),
        ("/a", "a"),
        ("a/../b", "b"),
        ("a", "b"),
        ("", "."),
        ("", "/"),
        (".a", "./a"),
        ("a.", "a"),
        ("a/b", "ab"),
    ] {
        assert!(!equal_paths(a.as_bytes(), b.as_bytes()));
        assert_ne!(std::path::Path::new(a), std::path::Path::new(b));
    }
    assert!(equal_paths(b"\xff//x", b"\xff/x"));

    let mut cache = images(&["./images/a", "./images/b"]);
    cache.accessed(b"./images//b");
    assert_eq!(order(cache), vec!["./images/a", "./images/b"]);
}

#[test]
fn stored_checksums_are_loaded() {
    let mut history = ChecksumHistory::load(None);
    assert_eq!(history.latest(), None);
    for i in 0..40 {
        assert!(history.record(&format!("{:x}", md5::compute(format!("{i}")))));
    }
    assert_eq!(history.latest(), Some(format!("{:x}", md5::compute("39"))));
    let text = history.to_text();
    assert_eq!(MAX_CHECKSUMS, 32);
    assert_eq!(text.lines().count(), 32);
    assert_eq!(ChecksumHistory::load(Some(&text)).to_text(), text);
}

#[test]
fn published_checksums() {
    let response = "0cc175b9c0f1b6a831c399e269772661  ArchLinuxARM-aarch64-latest.tar.gz\n";
    assert_eq!(
        published_checksum(response),
        Some("0cc175b9c0f1b6a831c399e269772661".to_string())
    );
    assert_eq!(published_checksum("<html>"), None);
}
