use blender_rs::page_cache::{keep_page, page_age, ExpirationUnits, PageAge, PageCache};
use std::time::{Duration, SystemTime};

#[test]
fn file_name_replaces_invalid_characters() {
    assert_eq!(
        PageCache::generate_file_name("https://download.blender.org/release/"),
        "https---download-blender-org-release"
    );
    assert_eq!(PageCache::generate_file_name("a?b%c*d|e\"f<g>h\\i"), "a-b-c-d-e-f-g-h-i");
    assert_eq!(PageCache::generate_file_name(""), "");
}

#[test]
fn first_recorded_file_wins() {
    let mut cache = PageCache::new("/tmp/cache.json".to_owned(), "/tmp/cache".to_owned(), ExpirationUnits::default());
    assert_eq!(cache.cached_path("http://a/"), None);
    assert_eq!(cache.fetch_or_insert("http://a/", "/tmp/cache/one".to_owned()), "/tmp/cache/one");
    assert_eq!(cache.fetch_or_insert("http://a/", "/tmp/cache/two".to_owned()), "/tmp/cache/one");
    assert_eq!(cache.cached_path("http://a/"), Some("/tmp/cache/one".to_owned()));
    assert_eq!(cache.entries().len(), 1);
}

#[test]
fn retained_entries_follow_the_flags() {
    let entries = vec![
        ("u1".to_owned(), "p1".to_owned()),
        ("u2".to_owned(), "p2".to_owned()),
        ("u1".to_owned(), "p3".to_owned()),
    ];
    let mut cache = PageCache::from_entries(String::new(), String::new(), ExpirationUnits::Disable, entries);
    assert_eq!(cache.entries().len(), 2);
    assert_eq!(cache.cached_path("u1"), Some("p1".to_owned()));
    cache.retain_entries(&vec![false, true]);
    assert_eq!(cache.cached_path("u1"), None);
    assert_eq!(cache.cached_path("u2"), Some("p2".to_owned()));
}

#[test]
fn expiration_lengths() {
    assert_eq!(ExpirationUnits::Day(2).expiration_hours(), Some(48));
    assert_eq!(ExpirationUnits::Week(1).expiration_hours(), Some(168));
    assert_eq!(ExpirationUnits::Month(6).expiration_hours(), Some(4320));
    assert_eq!(ExpirationUnits::Disable.expiration_hours(), None);
    assert_eq!(ExpirationUnits::default(), ExpirationUnits::Month(6));
    assert!(ExpirationUnits::Disable.get_expiration_date().is_none());
    assert!(ExpirationUnits::Day(1).get_expiration_date().is_some());
    assert_eq!(
        ExpirationUnits::Week(2).cast_to_duration(),
        Some(std::time::Duration::from_secs(2 * 7 * 24 * 3600))
    );
}

#[test]
fn validation_keeps_existing_fresh_pages() {
    assert!(keep_page(true, PageAge::Unchecked));
    assert!(!keep_page(false, PageAge::Unchecked));
    assert!(!keep_page(false, PageAge::CreatedAfter(true)));
    assert!(!keep_page(true, PageAge::Unknown));
    assert!(keep_page(true, PageAge::CreatedAfter(true)));
    assert!(!keep_page(true, PageAge::CreatedAfter(false)));

    let entries = vec![
        ("u1".to_owned(), "p1".to_owned()),
        ("u2".to_owned(), "p2".to_owned()),
        ("u3".to_owned(), "p3".to_owned()),
        ("u4".to_owned(), "p4".to_owned()),
    ];
    let mut cache = PageCache::from_entries(String::new(), String::new(), ExpirationUnits::Day(1), entries);
    cache.validate_cache(&vec![
        (true, PageAge::CreatedAfter(true)),
        (false, PageAge::Unchecked),
        (true, PageAge::Unknown),
        (true, PageAge::Unchecked),
    ]);
    assert_eq!(cache.cached_path("u1"), Some("p1".to_owned()));
    assert_eq!(cache.cached_path("u2"), None);
    assert_eq!(cache.cached_path("u3"), None);
    assert_eq!(cache.cached_path("u4"), Some("p4".to_owned()));
    assert_eq!(cache.entries().len(), 2);
}

#[test]
fn file_name_of_a_file_name_is_itself() {
    let once = PageCache::generate_file_name("https://download.blender.org/release/Blender4.2/");
    assert_eq!(PageCache::generate_file_name(&once), once);
}

#[test]
fn expiration_durations_in_seconds() {
    assert_eq!(ExpirationUnits::Day(1).cast_to_duration(), Some(Duration::from_secs(86_400)));
    assert_eq!(ExpirationUnits::Week(1).cast_to_duration(), Some(Duration::from_secs(604_800)));
    assert_eq!(ExpirationUnits::Month(1).cast_to_duration(), Some(Duration::from_secs(2_592_000)));
    assert_eq!(ExpirationUnits::default().cast_to_duration(), Some(Duration::from_secs(15_552_000)));
    assert_eq!(ExpirationUnits::Disable.cast_to_duration(), None);
    let before = SystemTime::now();
    let date = ExpirationUnits::Day(1).get_expiration_date().unwrap();
    let after = SystemTime::now();
    assert!(date >= before - Duration::from_secs(86_400));
    assert!(date <= after - Duration::from_secs(86_400));
}

#[test]
fn page_age_compares_creation_with_expiration() {
    let expiration = SystemTime::UNIX_EPOCH + Duration::from_secs(1_000);
    let older = SystemTime::UNIX_EPOCH + Duration::from_secs(500);
    let newer = SystemTime::UNIX_EPOCH + Duration::from_secs(2_000);
    assert_eq!(page_age(None, Some(older)), PageAge::Unchecked);
    assert_eq!(page_age(Some(expiration), None), PageAge::Unknown);
    assert_eq!(page_age(Some(expiration), Some(older)), PageAge::CreatedAfter(false));
    assert_eq!(page_age(Some(expiration), Some(newer)), PageAge::CreatedAfter(true));
    assert_eq!(page_age(Some(expiration), Some(expiration)), PageAge::CreatedAfter(false));
}
