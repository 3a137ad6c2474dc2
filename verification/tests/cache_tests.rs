use osm_gimmisn::cache::get_additional_housenumbers_json;
use osm_gimmisn::cache::get_missing_housenumbers_json;
use osm_gimmisn::cache::is_additional_housenumbers_json_cached;
use osm_gimmisn::cache::is_missing_housenumbers_json_cached;
use osm_gimmisn::cache::is_sql_cache_current;
use osm_gimmisn::cache::relation_config_path;
use osm_gimmisn::cache::store_additional_housenumbers_json;
use osm_gimmisn::cache::store_missing_housenumbers_json;
use osm_gimmisn::cache::CacheError;
use osm_gimmisn::cache::CacheLookup;
use osm_gimmisn::cache::FileStat;
use osm_gimmisn::store::Store;

fn stat(exists: bool, mtime: u64) -> FileStat {
    FileStat { exists, mtime }
}

#[test]
fn uncached_key_is_stale() {
    let store = Store::new();
    assert!(!is_sql_cache_current(&store, "some-key", &vec![], &vec![]));
}

#[test]
fn older_deps_are_current() {
    let mut store = Store::new();
    store.set_sql_mtime("key", 100);
    store.set_sql_mtime("dep", 60);
    let deps = vec![stat(true, 50)];
    let sql_deps = vec![String::from("dep")];
    assert!(is_sql_cache_current(&store, "key", &deps, &sql_deps));
}

#[test]
fn newer_file_dep_invalidates() {
    let mut store = Store::new();
    store.set_sql_mtime("key", 100);
    let deps = vec![stat(true, 50), stat(true, 150)];
    assert!(!is_sql_cache_current(&store, "key", &deps, &vec![]));
}

#[test]
fn newer_sql_dep_invalidates() {
    let mut store = Store::new();
    store.set_sql_mtime("key", 100);
    store.set_sql_mtime("dep", 150);
    let sql_deps = vec![String::from("dep")];
    assert!(!is_sql_cache_current(&store, "key", &vec![], &sql_deps));
}

#[test]
fn absent_file_dep_is_ignored() {
    let mut store = Store::new();
    store.set_sql_mtime("key", 100);
    let deps = vec![stat(false, 999)];
    assert!(is_sql_cache_current(&store, "key", &deps, &vec![]));
}

#[test]
fn equal_mtime_is_still_current() {
    let mut store = Store::new();
    store.set_sql_mtime("key", 100);
    store.set_sql_mtime("dep", 100);
    let deps = vec![stat(true, 100)];
    let sql_deps = vec![String::from("dep")];
    assert!(is_sql_cache_current(&store, "key", &deps, &sql_deps));
}

#[test]
fn unrecorded_sql_dep_is_ignored() {
    let mut store = Store::new();
    store.set_sql_mtime("key", 100);
    let sql_deps = vec![String::from("never-recorded")];
    assert!(is_sql_cache_current(&store, "key", &vec![], &sql_deps));
}

#[test]
fn first_lookup_is_stale_then_served_from_blob() {
    let mut store = Store::new();
    let config = stat(true, 10);
    match get_missing_housenumbers_json(&store, "mycity", config) {
        Ok(CacheLookup::Stale) => {}
        other => panic!("expected a stale entry, got {:?}", other),
    }
    store_missing_housenumbers_json(&mut store, "mycity", "{\"answer\":42}", 20);
    match get_missing_housenumbers_json(&store, "mycity", config) {
        Ok(CacheLookup::Fresh(blob)) => assert_eq!(blob, "{\"answer\":42}"),
        other => panic!("expected the stored blob, got {:?}", other),
    }
}

#[test]
fn recompute_is_not_repeated_for_additional_family() {
    let mut store = Store::new();
    let config = stat(true, 10);
    match get_additional_housenumbers_json(&store, "mycity", config) {
        Ok(CacheLookup::Stale) => {}
        other => panic!("expected a stale entry, got {:?}", other),
    }
    store_additional_housenumbers_json(&mut store, "mycity", "[]", 20);
    assert!(is_additional_housenumbers_json_cached(&store, "mycity", config));
    match get_additional_housenumbers_json(&store, "mycity", config) {
        Ok(CacheLookup::Fresh(blob)) => assert_eq!(blob, "[]"),
        other => panic!("expected the stored blob, got {:?}", other),
    }
}

#[test]
fn newer_config_invalidates_stored_blob() {
    let mut store = Store::new();
    store_missing_housenumbers_json(&mut store, "mycity", "{}", 20);
    assert!(is_missing_housenumbers_json_cached(&store, "mycity", stat(true, 10)));
    assert!(!is_missing_housenumbers_json_cached(&store, "mycity", stat(true, 30)));
}

#[test]
fn newer_street_list_invalidates_stored_blob() {
    let mut store = Store::new();
    store_missing_housenumbers_json(&mut store, "mycity", "{}", 20);
    store.set_sql_mtime("streets/mycity", 30);
    assert!(!is_missing_housenumbers_json_cached(&store, "mycity", stat(true, 10)));
}

#[test]
fn current_timestamp_without_blob_is_an_error() {
    let mut store = Store::new();
    store.set_sql_mtime("missing-housenumbers-cache/mycity", 20);
    match get_missing_housenumbers_json(&store, "mycity", stat(false, 0)) {
        Err(CacheError::MissingBlob) => {}
        other => panic!("expected the invariant violation, got {:?}", other),
    }
}

#[test]
fn families_do_not_share_blobs() {
    let mut store = Store::new();
    store_missing_housenumbers_json(&mut store, "mycity", "{}", 20);
    match get_additional_housenumbers_json(&store, "mycity", stat(false, 0)) {
        Ok(CacheLookup::Stale) => {}
        other => panic!("expected a stale entry, got {:?}", other),
    }
}

#[test]
fn config_path_is_under_the_data_directory() {
    assert_eq!(
        relation_config_path("/opt/data", "mycity"),
        "/opt/data/relation-mycity.yaml"
    );
}
