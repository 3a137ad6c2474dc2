use osm_gimmisn::stats::dated_path;
use osm_gimmisn::stats::ref_count_path;
use osm_gimmisn::stats::stats_json_path;
use osm_gimmisn::stats::whole_country_csv_path;
use osm_gimmisn::textutil::str_eq;
use osm_gimmisn::textutil::str_lex_le;
use osm_gimmisn::textutil::u64_to_string;
use osm_gimmisn::textutil::u64_to_string_pad2;

#[test]
fn string_equality_compares_contents() {
    assert!(str_eq("alpha", "alpha"));
    assert!(!str_eq("alpha", "alphb"));
    assert!(!str_eq("alpha", "alph"));
    assert!(str_eq("", ""));
}

#[test]
fn lexicographic_order_is_by_code_point() {
    assert!(str_lex_le("abc", "abd"));
    assert!(!str_lex_le("abd", "abc"));
    assert!(str_lex_le("ab", "abc"));
    assert!(str_lex_le("abc", "abc"));
    assert!(str_lex_le("", "a"));
    assert!(str_lex_le("1000", "2000"));
}

#[test]
fn numbers_render_in_decimal() {
    assert_eq!(u64_to_string(0), "0");
    assert_eq!(u64_to_string(7), "7");
    assert_eq!(u64_to_string(10), "10");
    assert_eq!(u64_to_string(1234567890), "1234567890");
    assert_eq!(u64_to_string(u64::MAX), "18446744073709551615");
}

#[test]
fn padded_numbers_have_at_least_two_digits() {
    assert_eq!(u64_to_string_pad2(0), "00");
    assert_eq!(u64_to_string_pad2(9), "09");
    assert_eq!(u64_to_string_pad2(10), "10");
    assert_eq!(u64_to_string_pad2(100), "100");
}

#[test]
fn stats_paths_are_under_the_state_directory() {
    assert_eq!(
        dated_path("workdir/stats", "2020-05-10", ".count"),
        "workdir/stats/2020-05-10.count"
    );
    assert_eq!(
        dated_path("workdir/stats", "2020-05-10", ".citycount"),
        "workdir/stats/2020-05-10.citycount"
    );
    assert_eq!(whole_country_csv_path("workdir/stats"), "workdir/stats/whole-country.csv");
    assert_eq!(ref_count_path("workdir/stats"), "workdir/stats/ref.count");
    assert_eq!(stats_json_path("workdir/stats"), "workdir/stats/stats.json");
}
