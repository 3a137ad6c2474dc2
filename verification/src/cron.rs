//! The nightly refresh orchestrator's decisions.
//!
//! Relations are processed sequentially.  For each artifact kind the
//! orchestrator decides per relation whether work is due: a missing
//! output or a forced update schedules it, and the relation's
//! missing-streets policy disqualifies some kinds.  The two
//! OSM-sourced artifacts are fetched under the bounded-retry loop of
//! [`crate::retry`]; the caller performs the queries and writes and
//! hands the observed outcomes in, one list per relation.
//!
//! Reference-sourced and derived-coverage artifacts are single-attempt
//! collaborator calls: this module plans which relations they run for,
//! and a failed call is the caller's to log and skip, never aborting
//! the run.

use vstd::prelude::*;

use crate::retry::fetch_outcome;
use crate::retry::AttemptOutcome;
use crate::retry::FetchResult;
use crate::retry::MAX_ATTEMPTS;
use crate::textutil::dec_str;
use crate::textutil::dec_str_pad2;
use crate::textutil::str_eq;
use crate::textutil::u64_to_string;
use crate::textutil::u64_to_string_pad2;

verus! {

/// The relation's missing-streets policy, controlling which derived
/// artifact kinds apply to it.
#[derive(Clone, Copy, PartialEq, Eq, Structural, Debug)]
pub enum StreetsPolicy {
    /// Street- and housenumber-derived artifacts both apply.
    Yes,
    /// Street-derived artifacts are skipped.
    No,
    /// Only street-derived artifacts apply; housenumber-derived ones
    /// are skipped.
    Only,
}

/// One relation as the orchestrator sees it: its name, its policy and
/// the observed presence of each output, probed by the caller at the
/// start of the run.
pub struct Relation {
    /// The relation's name.
    pub name: String,
    /// The missing-streets policy.
    pub policy: StreetsPolicy,
    /// The OSM street list output exists.
    pub osm_streets_exists: bool,
    /// The OSM housenumber list output exists.
    pub osm_housenumbers_exists: bool,
    /// The reference street list output exists.
    pub ref_streets_exists: bool,
    /// The reference housenumber list output exists.
    pub ref_housenumbers_exists: bool,
    /// The street coverage artifact exists.
    pub osm_street_coverage_exists: bool,
    /// The housenumber coverage artifact exists.
    pub osm_housenumber_coverage_exists: bool,
    /// The additional-streets count output exists.
    pub additional_streets_count_exists: bool,
}

/// What one relation's fetch came to: skipped because the output is
/// present and no update was forced, or driven through the retry loop.
#[derive(Clone, Copy, PartialEq, Eq, Structural, Debug)]
pub enum RelationFetch {
    /// The artifact was left as it is.
    Skipped,
    /// The retry loop ran and ended this way.
    Fetched(FetchResult),
}

/// An OSM-sourced fetch is due unless the output exists and no update
/// was forced.
pub open spec fn osm_fetch_planned(exists_already: bool, update: bool) -> bool {
    update || !exists_already
}

/// The outcome list of one relation covers every attempt its loop can
/// make.
pub open spec fn outcomes_cover(outcomes: Seq<AttemptOutcome>, short_write_fails: bool) -> bool {
    outcomes.len() >= MAX_ATTEMPTS || exists|i: int|
        0 <= i < outcomes.len() && crate::retry::attempt_succeeds(outcomes[i], short_write_fails)
}

/// What `update_osm_streets` decides for one relation.
pub open spec fn osm_streets_step(r: Relation, update: bool, outcomes: Seq<AttemptOutcome>) -> RelationFetch {
    if osm_fetch_planned(r.osm_streets_exists, update) {
        RelationFetch::Fetched(fetch_outcome(outcomes, true))
    } else {
        RelationFetch::Skipped
    }
}

/// What `update_osm_housenumbers` decides for one relation.
pub open spec fn osm_housenumbers_step(r: Relation, update: bool, outcomes: Seq<AttemptOutcome>) -> RelationFetch {
    if osm_fetch_planned(r.osm_housenumbers_exists, update) {
        RelationFetch::Fetched(fetch_outcome(outcomes, true))
    } else {
        RelationFetch::Skipped
    }
}

/// Update the OSM street list of all relations.
///
/// A short write is retried, so the outcome lists must cover the
/// attempt cap for every relation whose fetch is due.
pub fn update_osm_streets(
    relations: &Vec<Relation>,
    update: bool,
    outcomes: &Vec<Vec<AttemptOutcome>>,
) -> (results: Vec<RelationFetch>)
    requires
        outcomes@.len() == relations@.len(),
        forall|i: int|
            0 <= i < relations@.len() && osm_fetch_planned(relations@[i].osm_streets_exists, update)
                ==> outcomes_cover(outcomes@[i]@, true),
    ensures
        results@.len() == relations@.len(),
        forall|i: int|
            0 <= i < relations@.len() ==> results@[i] == osm_streets_step(
                relations@[i],
                update,
                outcomes@[i]@,
            ),
{
    let n = relations.len();
    let mut results: Vec<RelationFetch> = Vec::new();
    let mut i: usize = 0;
    while i < n
        invariant
            n == relations@.len(),
            outcomes@.len() == relations@.len(),
            forall|k: int|
                0 <= k < relations@.len() && osm_fetch_planned(
                    relations@[k].osm_streets_exists,
                    update,
                ) ==> outcomes_cover(outcomes@[k]@, true),
            0 <= i <= n,
            results@.len() == i,
            forall|k: int|
                0 <= k < i ==> results@[k] == osm_streets_step(relations@[k], update, outcomes@[k]@),
        decreases n - i,
    {
        if !update && relations[i].osm_streets_exists {
            results.push(RelationFetch::Skipped);
        } else {
            let fetched = crate::retry::run_fetch(&outcomes[i], true);
            results.push(RelationFetch::Fetched(fetched));
        }
        i = i + 1;
    }
    results
}

/// Update the OSM housenumber list of all relations.
pub fn update_osm_housenumbers(
    relations: &Vec<Relation>,
    update: bool,
    outcomes: &Vec<Vec<AttemptOutcome>>,
) -> (results: Vec<RelationFetch>)
    requires
        outcomes@.len() == relations@.len(),
        forall|i: int|
            0 <= i < relations@.len() && osm_fetch_planned(
                relations@[i].osm_housenumbers_exists,
                update,
            ) ==> outcomes_cover(outcomes@[i]@, true),
    ensures
        results@.len() == relations@.len(),
        forall|i: int|
            0 <= i < relations@.len() ==> results@[i] == osm_housenumbers_step(
                relations@[i],
                update,
                outcomes@[i]@,
            ),
{
    let n = relations.len();
    let mut results: Vec<RelationFetch> = Vec::new();
    let mut i: usize = 0;
    while i < n
        invariant
            n == relations@.len(),
            outcomes@.len() == relations@.len(),
            forall|k: int|
                0 <= k < relations@.len() && osm_fetch_planned(
                    relations@[k].osm_housenumbers_exists,
                    update,
                ) ==> outcomes_cover(outcomes@[k]@, true),
            0 <= i <= n,
            results@.len() == i,
            forall|k: int|
                0 <= k < i ==> results@[k] == osm_housenumbers_step(
                    relations@[k],
                    update,
                    outcomes@[k]@,
                ),
        decreases n - i,
    {
        if !update && relations[i].osm_housenumbers_exists {
            results.push(RelationFetch::Skipped);
        } else {
            let fetched = crate::retry::run_fetch(&outcomes[i], true);
            results.push(RelationFetch::Fetched(fetched));
        }
        i = i + 1;
    }
    results
}

/// A reference street list update is due when the output is missing or
/// an update is forced, and the policy does not rule street work out.
pub open spec fn ref_streets_planned(r: Relation, update: bool) -> bool {
    (update || !r.ref_streets_exists) && r.policy != StreetsPolicy::No
}

/// A reference housenumber list update is due when the output is
/// missing or an update is forced, and the policy is not streets-only.
pub open spec fn ref_housenumbers_planned(r: Relation, update: bool) -> bool {
    (update || !r.ref_housenumbers_exists) && r.policy != StreetsPolicy::Only
}

/// A missing-housenumbers coverage update is due when no coverage
/// artifact exists or an update is forced, and the policy is not
/// streets-only.
pub open spec fn missing_housenumbers_planned(r: Relation, update: bool) -> bool {
    (update || !r.osm_housenumber_coverage_exists) && r.policy != StreetsPolicy::Only
}

/// A missing-streets coverage update is due when no coverage artifact
/// exists or an update is forced, and the policy does not rule street
/// work out.
pub open spec fn missing_streets_planned(r: Relation, update: bool) -> bool {
    (update || !r.osm_street_coverage_exists) && r.policy != StreetsPolicy::No
}

/// An additional-streets update is due when the count output is
/// missing or an update is forced, and the policy does not rule street
/// work out.
pub open spec fn additional_streets_planned(r: Relation, update: bool) -> bool {
    (update || !r.additional_streets_count_exists) && r.policy != StreetsPolicy::No
}

/// Update the reference street list of all relations: plans which
/// relations the single-attempt collaborator write runs for.
pub fn update_ref_streets(relations: &Vec<Relation>, update: bool) -> (plan: Vec<bool>)
    ensures
        plan@.len() == relations@.len(),
        forall|i: int|
            0 <= i < relations@.len() ==> plan@[i] == ref_streets_planned(relations@[i], update),
{
    let n = relations.len();
    let mut plan: Vec<bool> = Vec::new();
    let mut i: usize = 0;
    while i < n
        invariant
            n == relations@.len(),
            0 <= i <= n,
            plan@.len() == i,
            forall|k: int|
                0 <= k < i ==> plan@[k] == ref_streets_planned(relations@[k], update),
        decreases n - i,
    {
        let due = (update || !relations[i].ref_streets_exists) && !(relations[i].policy
            == StreetsPolicy::No);
        plan.push(due);
        i = i + 1;
    }
    plan
}

/// Update the reference housenumber list of all relations.
pub fn update_ref_housenumbers(relations: &Vec<Relation>, update: bool) -> (plan: Vec<bool>)
    ensures
        plan@.len() == relations@.len(),
        forall|i: int|
            0 <= i < relations@.len() ==> plan@[i] == ref_housenumbers_planned(
                relations@[i],
                update,
            ),
{
    let n = relations.len();
    let mut plan: Vec<bool> = Vec::new();
    let mut i: usize = 0;
    while i < n
        invariant
            n == relations@.len(),
            0 <= i <= n,
            plan@.len() == i,
            forall|k: int|
                0 <= k < i ==> plan@[k] == ref_housenumbers_planned(relations@[k], update),
        decreases n - i,
    {
        let due = (update || !relations[i].ref_housenumbers_exists) && !(relations[i].policy
            == StreetsPolicy::Only);
        plan.push(due);
        i = i + 1;
    }
    plan
}

/// Update the relation's house number coverage stats.
pub fn update_missing_housenumbers(relations: &Vec<Relation>, update: bool) -> (plan: Vec<bool>)
    ensures
        plan@.len() == relations@.len(),
        forall|i: int|
            0 <= i < relations@.len() ==> plan@[i] == missing_housenumbers_planned(
                relations@[i],
                update,
            ),
{
    let n = relations.len();
    let mut plan: Vec<bool> = Vec::new();
    let mut i: usize = 0;
    while i < n
        invariant
            n == relations@.len(),
            0 <= i <= n,
            plan@.len() == i,
            forall|k: int|
                0 <= k < i ==> plan@[k] == missing_housenumbers_planned(relations@[k], update),
        decreases n - i,
    {
        let due = (update || !relations[i].osm_housenumber_coverage_exists) && !(relations[i].policy
            == StreetsPolicy::Only);
        plan.push(due);
        i = i + 1;
    }
    plan
}

/// Update the relation's street coverage stats.
pub fn update_missing_streets(relations: &Vec<Relation>, update: bool) -> (plan: Vec<bool>)
    ensures
        plan@.len() == relations@.len(),
        forall|i: int|
            0 <= i < relations@.len() ==> plan@[i] == missing_streets_planned(
                relations@[i],
                update,
            ),
{
    let n = relations.len();
    let mut plan: Vec<bool> = Vec::new();
    let mut i: usize = 0;
    while i < n
        invariant
            n == relations@.len(),
            0 <= i <= n,
            plan@.len() == i,
            forall|k: int|
                0 <= k < i ==> plan@[k] == missing_streets_planned(relations@[k], update),
        decreases n - i,
    {
        let due = (update || !relations[i].osm_street_coverage_exists) && !(relations[i].policy
            == StreetsPolicy::No);
        plan.push(due);
        i = i + 1;
    }
    plan
}

/// Update the relation's "additional streets" stats.
pub fn update_additional_streets(relations: &Vec<Relation>, update: bool) -> (plan: Vec<bool>)
    ensures
        plan@.len() == relations@.len(),
        forall|i: int|
            0 <= i < relations@.len() ==> plan@[i] == additional_streets_planned(
                relations@[i],
                update,
            ),
{
    let n = relations.len();
    let mut plan: Vec<bool> = Vec::new();
    let mut i: usize = 0;
    while i < n
        invariant
            n == relations@.len(),
            0 <= i <= n,
            plan@.len() == i,
            forall|k: int|
                0 <= k < i ==> plan@[k] == additional_streets_planned(relations@[k], update),
        decreases n - i,
    {
        let due = (update || !relations[i].additional_streets_count_exists) && !(relations[i].policy
            == StreetsPolicy::No);
        plan.push(due);
        i = i + 1;
    }
    plan
}

/// Which phases one run performs.
#[derive(Clone, Copy, PartialEq, Eq, Structural, Debug)]
pub struct RunPlan {
    /// The country-wide statistics phase runs.
    pub run_stats: bool,
    /// The per-relation artifact refresh runs.
    pub run_relations: bool,
}

/// The phases a mode selects: `all` runs both, `stats` and
/// `relations` their own phase only, and an unknown mode runs neither.
pub open spec fn run_plan_of(mode: Seq<char>) -> RunPlan {
    RunPlan {
        run_stats: mode == "all"@ || mode == "stats"@,
        run_relations: mode == "all"@ || mode == "relations"@,
    }
}

/// Performs the actual nightly task: decides which phases the given
/// mode runs, stats first.
pub fn our_main_inner(mode: &str) -> (p: RunPlan)
    ensures
        p == run_plan_of(mode@),
{
    let run_stats = str_eq(mode, "all") || str_eq(mode, "stats");
    let run_relations = str_eq(mode, "all") || str_eq(mode, "relations");
    RunPlan { run_stats, run_relations }
}

/// Law: the `stats` mode performs no per-relation artifact work, and
/// the `relations` mode produces no dated snapshot or count files.
pub proof fn lemma_mode_scoping()
    ensures
        !run_plan_of("stats"@).run_relations,
        !run_plan_of("relations"@).run_stats,
        run_plan_of("all"@).run_stats && run_plan_of("all"@).run_relations,
{
    reveal_strlit("all");
    reveal_strlit("stats");
    reveal_strlit("relations");
    assert("stats"@.len() == 5);
    assert("relations"@.len() == 9);
    assert("all"@.len() == 3);
}

/// Inactive relations are refreshed too when the configuration asks
/// for it, and in any case on the first day of the month.
pub fn should_activate_inactive(cron_update_inactive: bool, day_of_month: u8) -> (r: bool)
    ensures
        r == (cron_update_inactive || day_of_month == 1),
{
    cron_update_inactive || day_of_month == 1
}

/// The `h:mm:ss` rendering of a duration, as the end-of-run log line
/// shows it.
pub open spec fn duration_str(total_seconds: nat) -> Seq<char> {
    dec_str(total_seconds / 3600) + ":"@ + dec_str_pad2((total_seconds / 60) % 60) + ":"@
        + dec_str_pad2(total_seconds % 60)
}

/// Renders a duration as `h:mm:ss`.
pub fn format_duration(total_seconds: u64) -> (s: String)
    ensures
        s@ == duration_str(total_seconds as nat),
{
    let hours = total_seconds / 3600;
    let minutes = (total_seconds / 60) % 60;
    let seconds = total_seconds % 60;
    u64_to_string(hours).concat(":").concat(u64_to_string_pad2(minutes).as_str()).concat(
        ":",
    ).concat(u64_to_string_pad2(seconds).as_str())
}

} // verus!
