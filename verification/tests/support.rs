use std::cmp::Ordering;

use dive_pricing::cache::TtlCache;
use dive_pricing::content::{default_robots, GalleryImage};
use dive_pricing::deco::ValidationError;
use dive_pricing::digits::u64_to_string;
use dive_pricing::errors::PricingError;
use dive_pricing::version::{select_latest_apk, Version};

#[test]
fn u64_rendering() {
    assert_eq!(u64_to_string(0), "0");
    assert_eq!(u64_to_string(7), "7");
    assert_eq!(u64_to_string(42), "42");
    assert_eq!(u64_to_string(1234567890), "1234567890");
    assert_eq!(u64_to_string(u64::MAX), "18446744073709551615");
}

#[test]
fn cache_miss_then_hit() {
    let mut cache: TtlCache<u64> = TtlCache::new();
    assert!(cache.probe(&"ct:divesite".to_string(), 100).is_none());
    assert_eq!(cache.misses, 1);
    cache.insert("ct:divesite".to_string(), 21, 100, None);
    let i = cache.probe(&"ct:divesite".to_string(), 5000).unwrap();
    assert_eq!(*cache.value_at(i), 21);
    assert_eq!(cache.hits, 1);
    assert_eq!(cache.misses, 1);
}

#[test]
fn cache_entry_expires_after_ttl() {
    let mut cache: TtlCache<u64> = TtlCache::new();
    cache.insert("agreement:5".to_string(), 900, 100, Some(60));
    // within the window
    assert!(cache.probe(&"agreement:5".to_string(), 159).is_some());
    // at the deadline the entry is stale
    assert!(cache.probe(&"agreement:5".to_string(), 160).is_none());
    assert_eq!(cache.hits, 1);
    assert_eq!(cache.misses, 1);
}

#[test]
fn cache_insert_replaces_same_key() {
    let mut cache: TtlCache<u64> = TtlCache::new();
    cache.insert("k".to_string(), 1, 0, None);
    cache.insert("k".to_string(), 2, 10, None);
    assert_eq!(cache.entries.len(), 1);
    let i = cache.probe(&"k".to_string(), 20).unwrap();
    assert_eq!(*cache.value_at(i), 2);
}

#[test]
fn cache_stable_entries_never_expire() {
    let mut cache: TtlCache<u64> = TtlCache::new();
    cache.insert("ct:organization".to_string(), 22, 0, None);
    assert!(cache.probe(&"ct:organization".to_string(), i64::MAX).is_some());
}

#[test]
fn version_parse_plain() {
    let v = Version::parse("1.2.3").unwrap();
    assert_eq!((v.major, v.minor, v.patch), (1, 2, 3));
    assert!(v.suffix.is_none());
}

#[test]
fn version_parse_with_suffix() {
    let v = Version::parse("0.1.0-alpha").unwrap();
    assert_eq!((v.major, v.minor, v.patch), (0, 1, 0));
    assert_eq!(v.suffix.as_deref(), Some("alpha"));
}

#[test]
fn version_parse_rejects_bad_shapes() {
    assert!(Version::parse("").is_none());
    assert!(Version::parse("1.2").is_none());
    assert!(Version::parse("1.2.3.4").is_none());
    assert!(Version::parse("a.b.c").is_none());
    assert!(Version::parse("1..3").is_none());
    assert!(Version::parse("1.2.").is_none());
    assert!(Version::parse("4294967296.0.0").is_none()); // major > u32::MAX
}

#[test]
fn version_ordering_numeric_then_suffix() {
    let v1 = Version::parse("1.2.3").unwrap();
    let v2 = Version::parse("1.2.10").unwrap();
    assert_eq!(v1.cmp(&v2), Ordering::Less);
    // a pre-release precedes the release of the same version
    let pre = Version::parse("1.2.3-alpha").unwrap();
    assert_eq!(pre.cmp(&v1), Ordering::Less);
    assert_eq!(v1.cmp(&pre), Ordering::Greater);
    // suffixes compare lexicographically
    let beta = Version::parse("1.2.3-beta").unwrap();
    assert_eq!(pre.cmp(&beta), Ordering::Less);
    assert_eq!(beta.cmp(&beta.clone()), Ordering::Equal);
}

#[test]
fn latest_apk_picks_greatest_version() {
    let files = vec![
        "buceo-0.1.0.apk".to_string(),
        "readme.txt".to_string(),
        "buceo-0.2.0-alpha.apk".to_string(),
        "buceo-0.2.0.apk".to_string(),
        "other-9.9.9.apk".to_string(),
    ];
    let info = select_latest_apk(&files).unwrap();
    assert_eq!(info.filename, "buceo-0.2.0.apk");
    assert_eq!((info.version.major, info.version.minor, info.version.patch), (0, 2, 0));
    assert!(info.version.suffix.is_none());
}

#[test]
fn latest_apk_none_without_candidates() {
    let files = vec!["readme.txt".to_string(), "buceo-not-a-version.apk".to_string()];
    assert!(select_latest_apk(&files).is_none());
}

#[test]
fn error_classes() {
    let bad = PricingError::ConfigurationError { message: "m".to_string(), errors: vec![] };
    assert!(bad.is_bad_request());
    let missing = PricingError::MissingVendorAgreement { scope_type: 1, scope_ref: 2 };
    assert!(!missing.is_bad_request());
}

#[test]
fn validation_error_messages() {
    assert_eq!(ValidationError::NoSegments.message(), "no segments provided");
    assert_eq!(
        ValidationError::InvalidGasFractions.message(),
        "gas fractions must be between 0.0 and 1.0"
    );
    assert_eq!(
        ValidationError::GasFractionsExceedOne.message(),
        "gas fractions (O2 + He) exceed 1.0"
    );
}

#[test]
fn page_defaults() {
    assert_eq!(default_robots(), "index, follow");
    let g = GalleryImage::default();
    assert_eq!(g.url, "");
    assert_eq!(g.alt, "");
    assert_eq!(g.caption, "");
}
