use osm_gimmisn::store::JsonNamespace;
use osm_gimmisn::store::Store;

#[test]
fn mtimes_are_recorded_and_overwritten() {
    let mut store = Store::new();
    assert!(!store.has_sql_mtime("key"));
    store.set_sql_mtime("key", 10);
    assert!(store.has_sql_mtime("key"));
    assert_eq!(store.get_sql_mtime("key"), 10);
    store.set_sql_mtime("key", 20);
    assert_eq!(store.get_sql_mtime("key"), 20);
    assert_eq!(store.mtimes.len(), 1);
}

#[test]
fn blobs_are_kept_per_family() {
    let mut store = Store::new();
    store.set_sql_json(JsonNamespace::MissingHousenumbersCache, "a", "{\"x\":1}");
    store.set_sql_json(JsonNamespace::AdditionalHousenumbersCache, "a", "[]");
    assert_eq!(
        store.get_sql_json(JsonNamespace::MissingHousenumbersCache, "a"),
        Some(String::from("{\"x\":1}"))
    );
    assert_eq!(
        store.get_sql_json(JsonNamespace::AdditionalHousenumbersCache, "a"),
        Some(String::from("[]"))
    );
    assert_eq!(store.get_sql_json(JsonNamespace::MissingHousenumbersCache, "b"), None);
}

#[test]
fn count_upsert_twice_leaves_one_row() {
    let mut store = Store::new();
    store.upsert_count("2020-05-10", 42);
    store.upsert_count("2020-05-10", 42);
    assert_eq!(store.counts.len(), 1);
    assert_eq!(store.counts[0].0, "2020-05-10");
    assert_eq!(store.counts[0].1, 42);
}

#[test]
fn count_upsert_overwrites_the_day() {
    let mut store = Store::new();
    store.upsert_count("2020-05-10", 42);
    store.upsert_count("2020-05-10", 43);
    assert_eq!(store.counts.len(), 1);
    assert_eq!(store.counts[0].1, 43);
}

#[test]
fn count_upsert_keeps_other_days() {
    let mut store = Store::new();
    store.upsert_count("2020-05-10", 42);
    store.upsert_count("2020-05-11", 43);
    assert_eq!(store.counts.len(), 2);
    store.upsert_count("2020-05-10", 44);
    assert_eq!(store.counts.len(), 2);
}

#[test]
fn usercount_series_is_separate() {
    let mut store = Store::new();
    store.upsert_count("2020-05-10", 42);
    store.upsert_usercount("2020-05-10", 7);
    assert_eq!(store.counts.len(), 1);
    assert_eq!(store.usercounts.len(), 1);
    assert_eq!(store.usercounts[0].1, 7);
}
