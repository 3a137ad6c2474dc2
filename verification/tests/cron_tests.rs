use osm_gimmisn::cron::format_duration;
use osm_gimmisn::cron::our_main_inner;
use osm_gimmisn::cron::should_activate_inactive;
use osm_gimmisn::cron::update_additional_streets;
use osm_gimmisn::cron::update_missing_housenumbers;
use osm_gimmisn::cron::update_missing_streets;
use osm_gimmisn::cron::update_osm_housenumbers;
use osm_gimmisn::cron::update_osm_streets;
use osm_gimmisn::cron::update_ref_housenumbers;
use osm_gimmisn::cron::update_ref_streets;
use osm_gimmisn::cron::Relation;
use osm_gimmisn::cron::RelationFetch;
use osm_gimmisn::cron::StreetsPolicy;
use osm_gimmisn::retry::AttemptOutcome;
use osm_gimmisn::retry::FetchResult;

fn relation(name: &str, policy: StreetsPolicy) -> Relation {
    Relation {
        name: String::from(name),
        policy,
        osm_streets_exists: false,
        osm_housenumbers_exists: false,
        ref_streets_exists: false,
        ref_housenumbers_exists: false,
        osm_street_coverage_exists: false,
        osm_housenumber_coverage_exists: false,
        additional_streets_count_exists: false,
    }
}

#[test]
fn existing_streets_output_skips_the_fetch() {
    let mut present = relation("a", StreetsPolicy::Yes);
    present.osm_streets_exists = true;
    let absent = relation("b", StreetsPolicy::Yes);
    let relations = vec![present, absent];
    let outcomes = vec![vec![], vec![AttemptOutcome::Written(5)]];
    let results = update_osm_streets(&relations, false, &outcomes);
    assert_eq!(results[0], RelationFetch::Skipped);
    assert_eq!(results[1], RelationFetch::Fetched(FetchResult::Success(1)));
}

#[test]
fn forced_update_fetches_despite_existing_output() {
    let mut present = relation("a", StreetsPolicy::Yes);
    present.osm_streets_exists = true;
    let relations = vec![present];
    let outcomes = vec![vec![AttemptOutcome::Written(5)]];
    let results = update_osm_streets(&relations, true, &outcomes);
    assert_eq!(results[0], RelationFetch::Fetched(FetchResult::Success(1)));
}

#[test]
fn housenumber_fetch_gives_up_after_the_cap() {
    let relations = vec![relation("a", StreetsPolicy::Yes)];
    let outcomes = vec![vec![AttemptOutcome::TransportError; 20]];
    let results = update_osm_housenumbers(&relations, false, &outcomes);
    assert_eq!(results[0], RelationFetch::Fetched(FetchResult::GaveUp));
}

#[test]
fn ref_streets_skip_the_no_policy() {
    let relations = vec![
        relation("a", StreetsPolicy::Yes),
        relation("b", StreetsPolicy::No),
        relation("c", StreetsPolicy::Only),
    ];
    assert_eq!(update_ref_streets(&relations, false), vec![true, false, true]);
}

#[test]
fn ref_housenumbers_skip_the_only_policy() {
    let relations = vec![
        relation("a", StreetsPolicy::Yes),
        relation("b", StreetsPolicy::No),
        relation("c", StreetsPolicy::Only),
    ];
    assert_eq!(update_ref_housenumbers(&relations, false), vec![true, true, false]);
}

#[test]
fn missing_housenumbers_respect_coverage_and_policy() {
    let mut covered = relation("a", StreetsPolicy::Yes);
    covered.osm_housenumber_coverage_exists = true;
    let relations = vec![covered, relation("b", StreetsPolicy::Only)];
    assert_eq!(update_missing_housenumbers(&relations, false), vec![false, false]);
    assert_eq!(update_missing_housenumbers(&relations, true), vec![true, false]);
}

#[test]
fn missing_streets_respect_coverage_and_policy() {
    let mut covered = relation("a", StreetsPolicy::Yes);
    covered.osm_street_coverage_exists = true;
    let relations = vec![covered, relation("b", StreetsPolicy::No)];
    assert_eq!(update_missing_streets(&relations, false), vec![false, false]);
    assert_eq!(update_missing_streets(&relations, true), vec![true, false]);
}

#[test]
fn additional_streets_respect_count_file_and_policy() {
    let mut counted = relation("a", StreetsPolicy::Yes);
    counted.additional_streets_count_exists = true;
    let relations = vec![counted, relation("b", StreetsPolicy::No)];
    assert_eq!(update_additional_streets(&relations, false), vec![false, false]);
    assert_eq!(update_additional_streets(&relations, true), vec![true, false]);
}

#[test]
fn stats_mode_runs_no_relation_work() {
    let plan = our_main_inner("stats");
    assert!(plan.run_stats);
    assert!(!plan.run_relations);
}

#[test]
fn relations_mode_runs_no_stats_work() {
    let plan = our_main_inner("relations");
    assert!(!plan.run_stats);
    assert!(plan.run_relations);
}

#[test]
fn all_mode_runs_both_phases() {
    let plan = our_main_inner("all");
    assert!(plan.run_stats);
    assert!(plan.run_relations);
}

#[test]
fn unknown_mode_runs_nothing() {
    let plan = our_main_inner("everything");
    assert!(!plan.run_stats);
    assert!(!plan.run_relations);
}

#[test]
fn inactive_relations_activate_on_the_first_of_the_month() {
    assert!(should_activate_inactive(false, 1));
    assert!(!should_activate_inactive(false, 2));
    assert!(should_activate_inactive(true, 15));
}

#[test]
fn durations_render_as_hours_minutes_seconds() {
    assert_eq!(format_duration(0), "0:00:00");
    assert_eq!(format_duration(3661), "1:01:01");
    assert_eq!(format_duration(86399), "23:59:59");
    assert_eq!(format_duration(90000), "25:00:00");
}
