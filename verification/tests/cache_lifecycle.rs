use ipenrich::geoip::{pl_full_geoip, pl_get_asn};
use ipenrich::maxmind::{CacheEntry, MaxMindCache};
use ipenrich::spur::pl_full_spur;
use ipenrich::spurdb::SpurCache;
use ipenrich::utils::MMDBKwargs;

const GEO_HINT: &str = "Error could not locate a directory for MaxMind MMDB files\nHint: specify a directory with the environment variable MAXMIND_MMDB_DIR\n";
const SPUR_HINT: &str = "Error could not locate a directory for Spur MMDB files\nHint: specify a directory with the environment variable SPUR_MMDB_DIR\n";

fn failed_msg(cache: &MaxMindCache) -> Option<&str> {
    match &cache.entry {
        CacheEntry::Failed(m) => Some(m.as_str()),
        _ => None,
    }
}

#[test]
fn unresolved_directory_fails_with_hint() {
    let mut cache = MaxMindCache::new();
    assert!(matches!(cache.entry, CacheEntry::Uninit));
    let entry = cache.get_or_init(&None);
    match entry {
        CacheEntry::Failed(m) => assert_eq!(m, GEO_HINT),
        _ => panic!("expected a cached failure"),
    }
}

#[test]
fn missing_files_fail_naming_the_dataset() {
    let mut cache = MaxMindCache::new();
    let dir = Some("/no/such/directory".to_string());
    cache.get_or_init(&dir);
    assert_eq!(
        failed_msg(&cache),
        Some("Could not open ASN MMDB file from /no/such/directory/GeoLite2-ASN.mmdb")
    );
}

#[test]
fn reload_is_idempotent_on_unchanged_backing() {
    let mut cache = MaxMindCache::new();
    let dir = Some("/no/such/directory".to_string());
    cache.reload(&dir);
    let first = failed_msg(&cache).unwrap().to_string();
    cache.reload(&dir);
    let second = failed_msg(&cache).unwrap().to_string();
    assert_eq!(first, second);
}

#[test]
fn failure_is_cached_and_not_retried() {
    let mut cache = MaxMindCache::new();
    cache.get_or_init(&None);
    let first = failed_msg(&cache).unwrap().to_string();
    // a later call with a different directory still sees the cached failure
    let other = Some("/elsewhere".to_string());
    let entry = cache.get_or_init(&other);
    match entry {
        CacheEntry::Failed(m) => assert_eq!(*m, first),
        _ => panic!("expected the cached failure to stand"),
    }
    // an explicit reload re-attempts against the new directory
    cache.reload(&other);
    assert_eq!(
        failed_msg(&cache),
        Some("Could not open ASN MMDB file from /elsewhere/GeoLite2-ASN.mmdb")
    );
}

#[test]
fn enrichment_call_surfaces_cached_failure() {
    let mut cache = MaxMindCache::new();
    let rows = vec![Some("8.8.8.8".to_string())];
    let kwargs = MMDBKwargs { reload_mmdb: false };
    let err = pl_full_geoip(&mut cache, &None, &kwargs, &rows).unwrap_err();
    assert_eq!(err, format!("Failed to initialize MaxMindDB: {}", GEO_HINT));
    // the same failure is surfaced again on the next call
    let err2 = pl_get_asn(&mut cache, &None, &kwargs, &rows).unwrap_err();
    assert_eq!(err2, format!("Failed to initialize MaxMindDB: {}", GEO_HINT));
}

#[test]
fn force_reload_reattempts_before_any_row() {
    let mut cache = MaxMindCache::new();
    let rows = vec![Some("8.8.8.8".to_string())];
    cache.get_or_init(&None);
    // without the flag the old failure stands even though a directory is
    // now supplied; with the flag the attempt runs against it
    let dir = Some("/no/such/directory".to_string());
    let quiet = MMDBKwargs { reload_mmdb: false };
    let err = pl_full_geoip(&mut cache, &dir, &quiet, &rows).unwrap_err();
    assert_eq!(err, format!("Failed to initialize MaxMindDB: {}", GEO_HINT));
    let forced = MMDBKwargs { reload_mmdb: true };
    let err = pl_full_geoip(&mut cache, &dir, &forced, &rows).unwrap_err();
    assert_eq!(
        err,
        "Failed to initialize MaxMindDB: Could not open ASN MMDB file from /no/such/directory/GeoLite2-ASN.mmdb"
    );
}

#[test]
fn spur_cache_follows_the_same_lifecycle() {
    let mut cache = SpurCache::new();
    let rows = vec![Some("1.2.3.4".to_string())];
    let kwargs = MMDBKwargs { reload_mmdb: false };
    let err = pl_full_spur(&mut cache, &None, &kwargs, &rows).unwrap_err();
    assert_eq!(err, format!("Failed to initialize SpurDB: {}", SPUR_HINT));
    let dir = Some("/no/such/directory".to_string());
    cache.reload(&dir);
    match &cache.entry {
        CacheEntry::Failed(m) => assert_eq!(
            m,
            "Could not open Spur MMDB file from /no/such/directory/spur.mmdb"
        ),
        _ => panic!("expected a cached failure"),
    }
    cache.reload(&dir);
    match &cache.entry {
        CacheEntry::Failed(m) => assert_eq!(
            m,
            "Could not open Spur MMDB file from /no/such/directory/spur.mmdb"
        ),
        _ => panic!("expected the same failure after an identical reload"),
    }
}
