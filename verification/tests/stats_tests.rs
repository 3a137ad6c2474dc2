use osm_gimmisn::stats::update_stats;
use osm_gimmisn::stats::update_stats_count;
use osm_gimmisn::stats::update_stats_refcount;
use osm_gimmisn::stats::update_stats_topusers;
use osm_gimmisn::stats::write_city_count_path;
use osm_gimmisn::stats::write_zip_count_path;
use osm_gimmisn::stats::KeyedCount;
use osm_gimmisn::stats::RawExtract;
use osm_gimmisn::stats::StatsRow;
use osm_gimmisn::store::Store;

fn row(postcode: &str, city: &str, street: &str, housenumber: &str, user: &str) -> StatsRow {
    StatsRow {
        postcode: String::from(postcode),
        city: String::from(city),
        street: String::from(street),
        housenumber: String::from(housenumber),
        user: String::from(user),
        city_key: String::from(city),
    }
}

fn entry(sort_key: &str, key: &str, count: usize) -> KeyedCount {
    KeyedCount { sort_key: String::from(sort_key), key: String::from(key), count }
}

#[test]
fn duplicate_addresses_by_different_editors_count_once() {
    let rows = vec![
        row("12345", "CityA", "Main St", "1", "alice"),
        row("12345", "CityA", "Main St", "1", "bob"),
    ];
    let mut store = Store::new();
    let counts = update_stats_count(&mut store, &rows, "2020-05-10");
    assert_eq!(counts.total, 1);
    assert_eq!(store.counts[0], (String::from("2020-05-10"), 1));

    let topusers = update_stats_topusers(&mut store, &rows, "2020-05-10");
    assert_eq!(topusers.usercount, 2);
    assert_eq!(
        topusers.lines,
        vec![
            String::from("CNT\tUSER\n"),
            String::from("1\talice\n"),
            String::from("1\tbob\n"),
        ]
    );
}

#[test]
fn distinct_addresses_count_separately() {
    let rows = vec![
        row("12345", "CityA", "Main St", "1", "alice"),
        row("12345", "CityA", "Main St", "2", "alice"),
        row("12346", "CityB", "Side St", "1", "alice"),
    ];
    let mut store = Store::new();
    let counts = update_stats_count(&mut store, &rows, "2020-05-10");
    assert_eq!(counts.total, 3);
    assert_eq!(counts.cities.len(), 2);
    assert_eq!(counts.zips.len(), 2);
}

#[test]
fn city_breakdown_counts_distinct_street_and_housenumber_pairs() {
    let rows = vec![
        row("1", "CityA", "Main St", "1", "u"),
        row("2", "CityA", "Main St", "1", "v"),
        row("3", "CityA", "Main St", "2", "u"),
    ];
    let mut store = Store::new();
    let counts = update_stats_count(&mut store, &rows, "2020-05-10");
    assert_eq!(counts.cities, vec![(String::from("CityA"), 2)]);
}

#[test]
fn empty_postcode_groups_by_street_not_merged() {
    let rows = vec![
        row("", "CityA", "Main St", "1", "u"),
        row("", "CityA", "Side St", "1", "u"),
    ];
    let mut store = Store::new();
    let counts = update_stats_count(&mut store, &rows, "2020-05-10");
    assert_eq!(counts.zips, vec![(String::from(""), 2)]);
}

#[test]
fn empty_postcode_renders_as_the_sentinel_label() {
    let zips = vec![(String::from("1234"), 1), (String::from(""), 2)];
    let (lines, _sorted) = write_zip_count_path(&zips);
    assert_eq!(
        lines,
        vec![
            String::from("ZIP\tCNT\n"),
            String::from("_Empty\t2\n"),
            String::from("1234\t1\n"),
        ]
    );
}

#[test]
fn zip_report_sorts_by_plain_string_order() {
    let zips = vec![
        (String::from("2000"), 1),
        (String::from("1000"), 2),
        (String::from("1500"), 3),
    ];
    let (lines, _sorted) = write_zip_count_path(&zips);
    assert_eq!(
        lines,
        vec![
            String::from("ZIP\tCNT\n"),
            String::from("1000\t2\n"),
            String::from("1500\t3\n"),
            String::from("2000\t1\n"),
        ]
    );
}

#[test]
fn city_report_sorts_by_the_collation_key() {
    let cities = vec![
        entry("ozd", "Ózd", 12),
        entry("budapest", "Budapest", 200),
    ];
    let (lines, _sorted) = write_city_count_path(&cities);
    assert_eq!(
        lines,
        vec![
            String::from("CITY\tCNT\n"),
            String::from("Budapest\t200\n"),
            String::from("Ózd\t12\n"),
        ]
    );
}

#[test]
fn duplicate_adjacent_city_rows_are_removed() {
    let cities = vec![entry("a", "a", 1), entry("a", "a", 1), entry("b", "b", 2)];
    let (lines, _sorted) = write_city_count_path(&cities);
    assert_eq!(
        lines,
        vec![String::from("CITY\tCNT\n"), String::from("a\t1\n"), String::from("b\t2\n")]
    );
}

#[test]
fn top_users_rank_by_count_then_name() {
    let rows = vec![
        row("1", "C", "S", "1", "zoe"),
        row("2", "C", "S", "2", "zoe"),
        row("3", "C", "S", "3", "amy"),
        row("4", "C", "S", "4", "bob"),
        row("5", "C", "S", "5", "bob"),
    ];
    let mut store = Store::new();
    let topusers = update_stats_topusers(&mut store, &rows, "2020-05-10");
    assert_eq!(topusers.usercount, 3);
    assert_eq!(
        topusers.lines,
        vec![
            String::from("CNT\tUSER\n"),
            String::from("2\tbob\n"),
            String::from("2\tzoe\n"),
            String::from("1\tamy\n"),
        ]
    );
    assert_eq!(store.usercounts[0], (String::from("2020-05-10"), 3));
}

#[test]
fn top_users_are_truncated_to_twenty() {
    let mut rows = Vec::new();
    for i in 0..25 {
        rows.push(row("1", "C", "S", "1", &format!("user{:02}", i)));
    }
    let mut store = Store::new();
    let topusers = update_stats_topusers(&mut store, &rows, "2020-05-10");
    assert_eq!(topusers.usercount, 25);
    assert_eq!(topusers.lines.len(), 21);
    assert_eq!(topusers.ranked.len(), 25);
}

#[test]
fn reference_counts_are_summed() {
    assert_eq!(update_stats_refcount(&vec![1, 2, 3]), "6\n");
    assert_eq!(update_stats_refcount(&vec![]), "0\n");
}

#[test]
fn missing_extract_skips_counting_but_not_the_reference_count() {
    let mut store = Store::new();
    let report = update_stats(&mut store, "2020-05-10", &RawExtract::Missing, &vec![10, 20]);
    assert!(report.counts.is_none());
    assert!(report.topusers.is_none());
    assert_eq!(report.refcount, "30\n");
    assert!(store.counts.is_empty());
    assert!(store.usercounts.is_empty());
}

#[test]
fn available_extract_runs_the_whole_pipeline() {
    let mut store = Store::new();
    let rows = vec![
        row("12345", "CityA", "Main St", "1", "alice"),
        row("12345", "CityA", "Main St", "1", "bob"),
    ];
    let report = update_stats(&mut store, "2020-05-10", &RawExtract::Rows(rows), &vec![5]);
    assert_eq!(report.counts.unwrap().total, 1);
    assert_eq!(report.topusers.unwrap().usercount, 2);
    assert_eq!(report.refcount, "5\n");
    assert_eq!(store.counts[0], (String::from("2020-05-10"), 1));
    assert_eq!(store.usercounts[0], (String::from("2020-05-10"), 2));
}

#[test]
fn rerunning_a_day_is_idempotent() {
    let mut store = Store::new();
    let rows = vec![row("1", "C", "S", "1", "u")];
    let extract = RawExtract::Rows(rows);
    update_stats(&mut store, "2020-05-10", &extract, &vec![]);
    update_stats(&mut store, "2020-05-10", &extract, &vec![]);
    assert_eq!(store.counts.len(), 1);
    assert_eq!(store.usercounts.len(), 1);
}
