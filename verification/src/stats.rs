//! The country-wide daily statistics aggregation.
//!
//! The raw extract is a list of rows of postcode, city, street,
//! housenumber and editing user; the caller parses the extract and
//! resolves each row's normalized city key through the valid-
//! settlements lookup before handing the rows in.  One pass produces
//! the day's deduplicated house-number count, the per-city and per-zip
//! breakdowns, and the top-contributor ranking, and upserts the count
//! series of the persistent store.

use vstd::prelude::*;

use vstd::multiset::Multiset;

use crate::kvlist;
use crate::kvlist::lookup;
use crate::kvlist::unique_keys;
use crate::store::upsert_count_rel;
use crate::store::Store;
use crate::textutil::dec_str;
use crate::textutil::lemma_lex_le_total;
use crate::textutil::lemma_lex_le_trans;
use crate::textutil::lex_le;
use crate::textutil::str_eq;
use crate::textutil::str_lex_le;
use crate::textutil::u64_to_string;
use crate::textutil::string_views;

verus! {

/// One row of the raw extract, with the collaborator-resolved city
/// key attached.
pub struct StatsRow {
    /// The postcode column.
    pub postcode: String,
    /// The city column, as written in the extract.
    pub city: String,
    /// The street column.
    pub street: String,
    /// The housenumber column.
    pub housenumber: String,
    /// The editing user column.
    pub user: String,
    /// The normalized city key the valid-settlements lookup resolved
    /// for this row; grouping policy is the collaborator's.
    pub city_key: String,
}

/// The deduplication key of a row: its address columns joined by
/// tabs, ignoring the user column.
pub open spec fn address_tuple(r: StatsRow) -> Seq<char> {
    r.postcode@ + "\t"@ + r.city@ + "\t"@ + r.street@ + "\t"@ + r.housenumber@
}

/// The value a row contributes to its city and zip groups: street and
/// housenumber joined by a tab.
pub open spec fn street_housenumber(r: StatsRow) -> Seq<char> {
    r.street@ + "\t"@ + r.housenumber@
}

/// The key a row is grouped under: the resolved city key for the city
/// breakdown, the raw postcode for the zip breakdown.
pub open spec fn row_key(r: StatsRow, by_city: bool) -> Seq<char> {
    if by_city {
        r.city_key@
    } else {
        r.postcode@
    }
}

/// The distinct address tuples of the rows: their number is the day's
/// house-number count.
pub open spec fn address_set(rows: Seq<StatsRow>) -> Set<Seq<char>>
    decreases rows.len(),
{
    if rows.len() == 0 {
        Set::empty()
    } else {
        address_set(rows.drop_last()).insert(address_tuple(rows.last()))
    }
}

/// The distinct group keys of the rows.
pub open spec fn group_keys(rows: Seq<StatsRow>, by_city: bool) -> Set<Seq<char>>
    decreases rows.len(),
{
    if rows.len() == 0 {
        Set::empty()
    } else {
        group_keys(rows.drop_last(), by_city).insert(row_key(rows.last(), by_city))
    }
}

/// The distinct street-and-housenumber values grouped under one key.
pub open spec fn group_values(rows: Seq<StatsRow>, by_city: bool, key: Seq<char>) -> Set<Seq<char>>
    decreases rows.len(),
{
    if rows.len() == 0 {
        Set::empty()
    } else if row_key(rows.last(), by_city) == key {
        group_values(rows.drop_last(), by_city, key).insert(street_housenumber(rows.last()))
    } else {
        group_values(rows.drop_last(), by_city, key)
    }
}

/// A list of strings without a repeated view.
pub open spec fn no_dup_views(s: Seq<String>) -> bool {
    string_views(s).no_duplicates()
}

/// The key views of a grouping.
pub open spec fn pair_keys(gs: Seq<(String, Vec<String>)>) -> Seq<Seq<char>> {
    gs.map_values(|e: (String, Vec<String>)| e.0@)
}

/// A well-formed grouping: unique keys, and no value repeated within
/// a group.
pub open spec fn groups_wf(gs: Seq<(String, Vec<String>)>) -> bool {
    &&& unique_keys(gs)
    &&& forall|j: int| 0 <= j < gs.len() ==> no_dup_views(gs[j].1@)
}

/// The value set a grouping holds under one key.
pub open spec fn gvs(gs: Seq<(String, Vec<String>)>, key: Seq<char>) -> Set<Seq<char>> {
    match lookup(gs, key) {
        Some(vals) => string_views(vals@).to_set(),
        None => Set::empty(),
    }
}

/// The key views of a finished count list.
pub open spec fn count_keys(s: Seq<(String, usize)>) -> Seq<Seq<char>> {
    s.map_values(|e: (String, usize)| e.0@)
}

/// Pushing a string onto a list pushes its view.
proof fn lemma_string_views_push(s: Seq<String>, x: String)
    ensures
        string_views(s.push(x)) =~= string_views(s).push(x@),
{
}

/// The element set of a sequence after a push.
proof fn lemma_push_to_set(s: Seq<Seq<char>>, x: Seq<char>)
    ensures
        s.push(x).to_set() =~= s.to_set().insert(x),
{
    assert forall|y: Seq<char>| s.push(x).to_set().contains(y) implies s.to_set().insert(
        x,
    ).contains(y) by {
        let i = choose|i: int| 0 <= i < s.push(x).len() && s.push(x)[i] == y;
        if i < s.len() {
            assert(s[i] == y);
        }
    }
    assert forall|y: Seq<char>| s.to_set().insert(x).contains(y) implies s.push(x).to_set().contains(
        y,
    ) by {
        if y == x {
            assert(s.push(x)[s.len() as int] == y);
        } else {
            let i = choose|i: int| 0 <= i < s.len() && s[i] == y;
            assert(s.push(x)[i] == y);
        }
    }
}

/// Copies a list of strings.
fn clone_string_vec(v: &Vec<String>) -> (r: Vec<String>)
    ensures
        r@ == v@,
{
    let n = v.len();
    let mut r: Vec<String> = Vec::new();
    let mut i: usize = 0;
    while i < n
        invariant
            n == v@.len(),
            0 <= i <= n,
            r@.len() == i,
            forall|j: int| 0 <= j < i ==> r@[j] == v@[j],
        decreases n - i,
    {
        r.push(v[i].clone());
        i = i + 1;
    }
    proof {
        assert(r@ =~= v@);
    }
    r
}

/// Adds a value to a deduplicated list: a value already present is
/// dropped, so the list's element set gains the value and nothing
/// else.
fn insert_unique(values: &mut Vec<String>, value: &str)
    requires
        no_dup_views(old(values)@),
    ensures
        no_dup_views(final(values)@),
        string_views(final(values)@).to_set() == string_views(old(values)@).to_set().insert(
            value@,
        ),
{
    let n = values.len();
    let mut i: usize = 0;
    while i < n
        invariant
            n == values@.len(),
            values@ == old(values)@,
            no_dup_views(values@),
            0 <= i <= n,
            forall|j: int| 0 <= j < i ==> values@[j]@ != value@,
        decreases n - i,
    {
        if str_eq(values[i].as_str(), value) {
            proof {
                assert(string_views(values@)[i as int] == value@);
                assert(string_views(values@).to_set().contains(value@));
                assert(string_views(values@).to_set().insert(value@) =~= string_views(
                    values@,
                ).to_set());
            }
            return ;
        }
        i = i + 1;
    }
    let fresh = String::from_str(value);
    proof {
        assert forall|j: int| 0 <= j < values@.len() implies string_views(values@)[j] != value@ by {
            assert(string_views(values@)[j] == values@[j]@);
        }
        assert(!string_views(values@).contains(value@));
    }
    values.push(fresh);
    proof {
        lemma_string_views_push(old(values)@, fresh);
        lemma_push_to_set(string_views(old(values)@), value@);
        let vs = string_views(values@);
        let vs0 = string_views(old(values)@);
        assert(vs =~= vs0.push(value@));
        assert forall|a: int, b: int| 0 <= a < b < vs.len() implies vs[a] != vs[b] by {
            if b < vs.len() - 1 {
                assert(vs0[a] != vs0[b]);
            } else {
                assert(!vs0.contains(value@));
                assert(vs0[a] == vs[a]);
            }
        }
    }
}

/// Adds one row's value to the group of its key, creating the group
/// if the key is new: the grouping's key set gains the key, the key's
/// value set gains the value, and every other key is untouched.
fn group_insert(groups: &mut Vec<(String, Vec<String>)>, key: &str, value: &str)
    requires
        groups_wf(old(groups)@),
    ensures
        groups_wf(final(groups)@),
        pair_keys(final(groups)@).to_set() == pair_keys(old(groups)@).to_set().insert(key@),
        gvs(final(groups)@, key@) == gvs(old(groups)@, key@).insert(value@),
        forall|k: Seq<char>| k != key@ ==> gvs(final(groups)@, k) == gvs(old(groups)@, k),
{
    let n = groups.len();
    let mut i: usize = 0;
    while i < n
        invariant
            n == groups@.len(),
            groups@ == old(groups)@,
            groups_wf(groups@),
            0 <= i <= n,
            forall|j: int| 0 <= j < i ==> groups@[j].0@ != key@,
        decreases n - i,
    {
        if str_eq(groups[i].0.as_str(), key) {
            let key_copy = groups[i].0.clone();
            let mut vals = clone_string_vec(&groups[i].1);
            insert_unique(&mut vals, value);
            let ghost stored: (String, Vec<String>) = (key_copy, vals);
            groups.set(i, (key_copy, vals));
            proof {
                kvlist::lemma_lookup_at(old(groups)@, i as int);
                assert forall|k: Seq<char>|
                    lookup(groups@, k) == if k == key@ {
                        Some(stored.1)
                    } else {
                        lookup(old(groups)@, k)
                    } by {
                    kvlist::lemma_lookup_update(old(groups)@, i as int, stored, k);
                }
                assert forall|a: int, b: int| 0 <= a < b < groups@.len() implies groups@[a].0@
                    != groups@[b].0@ by {
                    assert(old(groups)@[a].0@ != old(groups)@[b].0@);
                }
                assert forall|j: int| 0 <= j < groups@.len() implies no_dup_views(
                    groups@[j].1@,
                ) by {
                    if j != i {
                        assert(groups@[j] == old(groups)@[j]);
                    }
                }
                assert(pair_keys(groups@) =~= pair_keys(old(groups)@));
                assert(pair_keys(old(groups)@)[i as int] == key@);
                assert(pair_keys(old(groups)@).to_set().contains(key@));
                assert(pair_keys(old(groups)@).to_set().insert(key@) =~= pair_keys(
                    old(groups)@,
                ).to_set());
            }
            return ;
        }
        i = i + 1;
    }
    let fresh_key = String::from_str(key);
    let mut vals: Vec<String> = Vec::new();
    vals.push(String::from_str(value));
    let ghost stored: (String, Vec<String>) = (fresh_key, vals);
    proof {
        kvlist::lemma_lookup_absent(old(groups)@, key@);
        assert forall|k: Seq<char>|
            lookup(old(groups)@.push(stored), k) == if k == key@ {
                Some(stored.1)
            } else {
                lookup(old(groups)@, k)
            } by {
            kvlist::lemma_lookup_push(old(groups)@, stored, k);
        }
        assert(string_views(stored.1@) =~= Seq::<Seq<char>>::empty().push(value@));
        lemma_push_to_set(Seq::<Seq<char>>::empty(), value@);
        assert(Seq::<Seq<char>>::empty().to_set() =~= Set::<Seq<char>>::empty());
        assert(string_views(stored.1@).to_set() =~= Set::<Seq<char>>::empty().insert(value@));
    }
    groups.push((fresh_key, vals));
    proof {
        assert forall|a: int, b: int| 0 <= a < b < groups@.len() implies groups@[a].0@
            != groups@[b].0@ by {
            if b < groups@.len() - 1 {
                assert(old(groups)@[a].0@ != old(groups)@[b].0@);
            } else {
                assert(groups@[a].0@ != key@);
            }
        }
        assert forall|j: int| 0 <= j < groups@.len() implies no_dup_views(groups@[j].1@) by {
            if j < groups@.len() - 1 {
                assert(groups@[j] == old(groups)@[j]);
            }
        }
        assert(pair_keys(groups@) =~= pair_keys(old(groups)@).push(key@));
        lemma_push_to_set(pair_keys(old(groups)@), key@);
    }
}

/// Turns a finished grouping into per-key counts, each the size of
/// that key's value set.
fn extract_counts(groups: &Vec<(String, Vec<String>)>) -> (r: Vec<(String, usize)>)
    requires
        groups_wf(groups@),
    ensures
        r@.len() == groups@.len(),
        forall|j: int| 0 <= j < r@.len() ==> r@[j].0@ == pair_keys(groups@)[j],
        forall|j: int| 0 <= j < r@.len() ==> r@[j].1 == gvs(groups@, r@[j].0@).len(),
{
    let n = groups.len();
    let mut r: Vec<(String, usize)> = Vec::new();
    let mut i: usize = 0;
    while i < n
        invariant
            n == groups@.len(),
            groups_wf(groups@),
            0 <= i <= n,
            r@.len() == i,
            forall|j: int| 0 <= j < i ==> r@[j].0@ == pair_keys(groups@)[j],
            forall|j: int| 0 <= j < i ==> r@[j].1 == gvs(groups@, r@[j].0@).len(),
        decreases n - i,
    {
        let key_copy = groups[i].0.clone();
        let count = groups[i].1.len();
        proof {
            kvlist::lemma_lookup_at(groups@, i as int);
            let vs = string_views(groups@[i as int].1@);
            vs.unique_seq_to_set();
            assert(gvs(groups@, groups@[i as int].0@).len() == count);
        }
        r.push((key_copy, count));
        i = i + 1;
    }
    r
}

/// The day's aggregated counts: the deduplicated house-number total
/// and the per-city and per-zip distinct-value counts, keys unordered
/// but unique.
pub struct DailyCounts {
    /// The number of distinct address tuples.
    pub total: usize,
    /// For each distinct city key, the size of its value set.
    pub cities: Vec<(String, usize)>,
    /// For each distinct raw postcode, the size of its value set.
    pub zips: Vec<(String, usize)>,
}

/// The day's counts are right: the total is the number of distinct
/// address tuples, and each breakdown holds every distinct group key
/// exactly once with the size of its value set.
pub open spec fn daily_counts_ok(r: DailyCounts, rows: Seq<StatsRow>) -> bool {
    &&& r.total == address_set(rows).len()
    &&& count_keys(r.cities@).no_duplicates()
    &&& count_keys(r.cities@).to_set() == group_keys(rows, true)
    &&& r.cities@.len() == group_keys(rows, true).len()
    &&& forall|j: int|
        0 <= j < r.cities@.len() ==> r.cities@[j].1 == group_values(
            rows,
            true,
            r.cities@[j].0@,
        ).len()
    &&& count_keys(r.zips@).no_duplicates()
    &&& count_keys(r.zips@).to_set() == group_keys(rows, false)
    &&& r.zips@.len() == group_keys(rows, false).len()
    &&& forall|j: int|
        0 <= j < r.zips@.len() ==> r.zips@[j].1 == group_values(
            rows,
            false,
            r.zips@[j].0@,
        ).len()
}

/// Counts the # of all house numbers as of today.
///
/// One pass over the rows: deduplicates address tuples for the total,
/// groups street-and-housenumber values by resolved city key and by
/// raw postcode, and upserts the total into the persistent store's
/// count series for the date.  The caller writes the dated count
/// files from the result.
pub fn update_stats_count(store: &mut Store, rows: &Vec<StatsRow>, today: &str) -> (r: DailyCounts)
    requires
        old(store).wf(),
    ensures
        final(store).wf(),
        daily_counts_ok(r, rows@),
        upsert_count_rel(*old(store), *final(store), today@, r.total as u64),
{
    let n = rows.len();
    let mut tuples: Vec<String> = Vec::new();
    let mut city_groups: Vec<(String, Vec<String>)> = Vec::new();
    let mut zip_groups: Vec<(String, Vec<String>)> = Vec::new();
    let mut i: usize = 0;
    proof {
        assert(rows@.take(0) =~= Seq::<StatsRow>::empty());
        assert(Seq::<Seq<char>>::empty().to_set() =~= Set::<Seq<char>>::empty());
        assert(pair_keys(Seq::<(String, Vec<String>)>::empty()) =~= Seq::<Seq<char>>::empty());
    }
    while i < n
        invariant
            n == rows@.len(),
            0 <= i <= n,
            no_dup_views(tuples@),
            string_views(tuples@).to_set() == address_set(rows@.take(i as int)),
            groups_wf(city_groups@),
            pair_keys(city_groups@).to_set() == group_keys(rows@.take(i as int), true),
            forall|k: Seq<char>|
                gvs(city_groups@, k) == group_values(rows@.take(i as int), true, k),
            groups_wf(zip_groups@),
            pair_keys(zip_groups@).to_set() == group_keys(rows@.take(i as int), false),
            forall|k: Seq<char>|
                gvs(zip_groups@, k) == group_values(rows@.take(i as int), false, k),
        decreases n - i,
    {
        let row = &rows[i];
        let tuple = row.postcode.clone().concat("\t").concat(row.city.as_str()).concat(
            "\t",
        ).concat(row.street.as_str()).concat("\t").concat(row.housenumber.as_str());
        let value = row.street.clone().concat("\t").concat(row.housenumber.as_str());
        proof {
            assert(rows@.take(i + 1).drop_last() =~= rows@.take(i as int));
            assert(rows@.take(i + 1).last() == rows@[i as int]);
        }
        insert_unique(&mut tuples, tuple.as_str());
        group_insert(&mut city_groups, row.city_key.as_str(), value.as_str());
        group_insert(&mut zip_groups, row.postcode.as_str(), value.as_str());
        i = i + 1;
    }
    proof {
        assert(rows@.take(n as int) =~= rows@);
    }
    let total = tuples.len();
    proof {
        let vs = string_views(tuples@);
        vs.unique_seq_to_set();
    }
    store.upsert_count(today, total as u64);
    let cities = extract_counts(&city_groups);
    let zips = extract_counts(&zip_groups);
    proof {
        assert(count_keys(cities@) =~= pair_keys(city_groups@));
        assert(count_keys(zips@) =~= pair_keys(zip_groups@));
        assert forall|a: int, b: int|
            0 <= a < b < pair_keys(city_groups@).len() implies pair_keys(city_groups@)[a]
            != pair_keys(city_groups@)[b] by {
            assert(city_groups@[a].0@ != city_groups@[b].0@);
        }
        assert forall|a: int, b: int|
            0 <= a < b < pair_keys(zip_groups@).len() implies pair_keys(zip_groups@)[a]
            != pair_keys(zip_groups@)[b] by {
            assert(zip_groups@[a].0@ != zip_groups@[b].0@);
        }
        pair_keys(city_groups@).unique_seq_to_set();
        pair_keys(zip_groups@).unique_seq_to_set();
    }
    DailyCounts { total, cities, zips }
}

/// One line of a breakdown report: a collaborator-supplied collation
/// key the file is ordered by, the key written out, and the size of
/// the key's value set.
pub struct KeyedCount {
    /// The collation key the entries sort by; the locale-aware city
    /// collation is the collaborator's, and the zip report uses the
    /// key itself.
    pub sort_key: String,
    /// The key as written to the file.
    pub key: String,
    /// The number of distinct values grouped under the key.
    pub count: usize,
}

/// The report order: by collation key, lexicographically.
pub open spec fn entry_le(a: KeyedCount, b: KeyedCount) -> bool {
    lex_le(a.sort_key@, b.sort_key@)
}

/// Entries that render identically: equal in every field's view.
pub open spec fn entry_eq_view(a: KeyedCount, b: KeyedCount) -> bool {
    a.sort_key@ == b.sort_key@ && a.key@ == b.key@ && a.count == b.count
}

/// The sequence is ordered by collation key.
pub open spec fn sorted_entries(s: Seq<KeyedCount>) -> bool {
    forall|i: int, j: int| 0 <= i <= j < s.len() ==> entry_le(s[i], s[j])
}

/// Adjacent duplicate entries removed, keeping the first of each run.
pub open spec fn dedup_adjacent(s: Seq<KeyedCount>) -> Seq<KeyedCount>
    decreases s.len(),
{
    if s.len() <= 1 {
        s
    } else if entry_eq_view(s.last(), s[s.len() - 2]) {
        dedup_adjacent(s.drop_last())
    } else {
        dedup_adjacent(s.drop_last()).push(s.last())
    }
}

/// One body line of a breakdown report: the key (an empty key is
/// rendered as the `_Empty` sentinel when asked), a tab, the count
/// and a newline.
pub open spec fn count_line(e: KeyedCount, empty_sentinel: bool) -> Seq<char> {
    (if empty_sentinel && e.key@.len() == 0 {
        "_Empty"@
    } else {
        e.key@
    }) + "\t"@ + dec_str(e.count as nat) + "\n"@
}

/// The header line of the city report.
pub open spec fn city_header() -> Seq<char> {
    "CITY\tCNT\n"@
}

/// The header line of the zip report.
pub open spec fn zip_header() -> Seq<char> {
    "ZIP\tCNT\n"@
}

/// Copies one entry.
fn clone_entry(e: &KeyedCount) -> (r: KeyedCount)
    ensures
        r == *e,
{
    KeyedCount { sort_key: e.sort_key.clone(), key: e.key.clone(), count: e.count }
}

/// Decides the report order of two entries.
fn entry_le_exec(a: &KeyedCount, b: &KeyedCount) -> (r: bool)
    ensures
        r == entry_le(*a, *b),
{
    str_lex_le(a.sort_key.as_str(), b.sort_key.as_str())
}

/// The order is total and transitive.
proof fn lemma_entry_le_total(a: KeyedCount, b: KeyedCount)
    ensures
        entry_le(a, b) || entry_le(b, a),
{
    lemma_lex_le_total(a.sort_key@, b.sort_key@);
}

proof fn lemma_entry_le_trans(a: KeyedCount, b: KeyedCount, c: KeyedCount)
    requires
        entry_le(a, b),
        entry_le(b, c),
    ensures
        entry_le(a, c),
{
    lemma_lex_le_trans(a.sort_key@, b.sort_key@, c.sort_key@);
}

/// Sorts entries by collation key: the result is ordered and holds
/// exactly the input entries.
fn sort_entries(input: &Vec<KeyedCount>) -> (out: Vec<KeyedCount>)
    ensures
        sorted_entries(out@),
        out@.to_multiset() == input@.to_multiset(),
        out@.len() == input@.len(),
{
    let n = input.len();
    let mut src: Vec<KeyedCount> = Vec::new();
    let mut i: usize = 0;
    while i < n
        invariant
            n == input@.len(),
            0 <= i <= n,
            src@.len() == i,
            forall|j: int| 0 <= j < i ==> src@[j] == input@[j],
        decreases n - i,
    {
        src.push(clone_entry(&input[i]));
        i = i + 1;
    }
    proof {
        broadcast use vstd::seq_lib::group_to_multiset_ensures;
        broadcast use vstd::multiset::group_multiset_axioms;

        assert(src@ =~= input@);
    }
    let mut out: Vec<KeyedCount> = Vec::new();
    proof {
        broadcast use vstd::seq_lib::group_to_multiset_ensures;
        broadcast use vstd::multiset::group_multiset_axioms;

        assert(out@.to_multiset() =~= Multiset::<KeyedCount>::empty());
        assert(out@.to_multiset().add(src@.to_multiset()) =~= input@.to_multiset());
    }
    while src.len() > 0
        invariant
            out@.to_multiset().add(src@.to_multiset()) =~= input@.to_multiset(),
            out@.len() + src@.len() == input@.len(),
            sorted_entries(out@),
            forall|a: int, b: int|
                0 <= a < out@.len() && 0 <= b < src@.len() ==> entry_le(out@[a], src@[b]),
        decreases src@.len(),
    {
        let m = src.len();
        let mut best: usize = 0;
        let mut j: usize = 1;
        proof {
            lemma_entry_le_total(src@[0], src@[0]);
        }
        while j < m
            invariant
                m == src@.len(),
                0 <= best < m,
                1 <= j <= m,
                forall|k: int| 0 <= k < j ==> entry_le(src@[best as int], src@[k]),
            decreases m - j,
        {
            if !entry_le_exec(&src[best], &src[j]) {
                proof {
                    lemma_entry_le_total(src@[best as int], src@[j as int]);
                    assert forall|k: int| 0 <= k < j + 1 implies entry_le(
                        src@[j as int],
                        src@[k],
                    ) by {
                        if k < j {
                            lemma_entry_le_trans(src@[j as int], src@[best as int], src@[k]);
                        } else {
                            lemma_entry_le_total(src@[j as int], src@[j as int]);
                        }
                    }
                }
                best = j;
            }
            j = j + 1;
        }
        let ghost src0 = src@;
        let x = src.remove(best);
        proof {
            broadcast use vstd::seq_lib::group_to_multiset_ensures;
            broadcast use vstd::multiset::group_multiset_axioms;

            assert(src0[best as int] == x);
            assert(src0.contains(x));
            assert(src0.to_multiset().count(x) > 0);
            assert(src@.to_multiset() =~= src0.to_multiset().remove(x));
            assert(src@.to_multiset().insert(x) =~= src0.to_multiset());
            assert(out@.push(x).to_multiset() =~= out@.to_multiset().insert(x));
        }
        let ghost out0 = out@;
        out.push(x);
        proof {
            broadcast use vstd::seq_lib::group_to_multiset_ensures;
            broadcast use vstd::multiset::group_multiset_axioms;

            assert(out@.to_multiset().add(src@.to_multiset()) =~= input@.to_multiset());
            assert forall|a: int, b: int|
                0 <= a < out@.len() && 0 <= b < src@.len() implies entry_le(
                out@[a],
                src@[b],
            ) by {
                if a < out@.len() - 1 {
                    assert(entry_le(out0[a], x));
                    if b < best {
                        assert(src@[b] == src0[b]);
                    } else {
                        assert(src@[b] == src0[b + 1]);
                    }
                } else {
                    if b < best {
                        assert(src@[b] == src0[b]);
                        assert(entry_le(x, src0[b]));
                    } else {
                        assert(src@[b] == src0[b + 1]);
                        assert(entry_le(x, src0[b + 1]));
                    }
                }
            }
            assert forall|a: int, b: int| 0 <= a <= b < out@.len() implies entry_le(
                out@[a],
                out@[b],
            ) by {
                if b < out@.len() - 1 {
                    assert(entry_le(out0[a], out0[b]));
                } else if a < b {
                    assert(entry_le(out0[a], x));
                }
            }
        }
    }
    proof {
        broadcast use vstd::seq_lib::group_to_multiset_ensures;
        broadcast use vstd::multiset::group_multiset_axioms;

        assert(src@.to_multiset() =~= Multiset::<KeyedCount>::empty());
        assert(out@.to_multiset() =~= input@.to_multiset());
    }
    out
}

/// Decides whether two entries render identically.
fn entry_eq_exec(a: &KeyedCount, b: &KeyedCount) -> (r: bool)
    ensures
        r == entry_eq_view(*a, *b),
{
    str_eq(a.sort_key.as_str(), b.sort_key.as_str()) && str_eq(a.key.as_str(), b.key.as_str())
        && a.count == b.count
}

/// Renders one body line.
fn render_count_line(e: &KeyedCount, empty_sentinel: bool) -> (r: String)
    ensures
        r@ == count_line(*e, empty_sentinel),
{
    let label = if empty_sentinel && e.key.as_str().is_empty() {
        String::from_str("_Empty")
    } else {
        e.key.clone()
    };
    label.concat("\t").concat(u64_to_string(e.count as u64).as_str()).concat("\n")
}

/// The body lines of a report: the sorted entries, adjacent
/// duplicates removed, rendered one per line.
fn render_lines(sorted: &Vec<KeyedCount>, header: &str, empty_sentinel: bool) -> (lines: Vec<
    String,
>)
    ensures
        string_views(lines@) == seq![header@] + dedup_adjacent(sorted@).map_values(
            |e: KeyedCount| count_line(e, empty_sentinel),
        ),
{
    let ghost line_of = |e: KeyedCount| count_line(e, empty_sentinel);
    let n = sorted.len();
    let mut lines: Vec<String> = Vec::new();
    lines.push(String::from_str(header));
    proof {
        assert(sorted@.take(0) =~= Seq::<KeyedCount>::empty());
        assert(string_views(lines@) =~= seq![header@] + dedup_adjacent(sorted@.take(0)).map_values(
            line_of,
        ));
    }
    let mut j: usize = 0;
    while j < n
        invariant
            n == sorted@.len(),
            0 <= j <= n,
            line_of == (|e: KeyedCount| count_line(e, empty_sentinel)),
            string_views(lines@) == seq![header@] + dedup_adjacent(sorted@.take(j as int)).map_values(
                line_of,
            ),
        decreases n - j,
    {
        proof {
            assert(sorted@.take(j + 1).drop_last() =~= sorted@.take(j as int));
            assert(sorted@.take(j + 1).last() == sorted@[j as int]);
        }
        if j > 0 && entry_eq_exec(&sorted[j], &sorted[j - 1]) {
            proof {
                assert(sorted@.take(j + 1)[j - 1] == sorted@[j - 1]);
                assert(dedup_adjacent(sorted@.take(j + 1)) == dedup_adjacent(
                    sorted@.take(j as int),
                ));
            }
        } else {
            let line = render_count_line(&sorted[j], empty_sentinel);
            let ghost lines0 = lines@;
            lines.push(line);
            proof {
                if j > 0 {
                    assert(sorted@.take(j + 1)[j - 1] == sorted@[j - 1]);
                    assert(!entry_eq_view(sorted@.take(j + 1).last(), sorted@.take(j + 1)[j - 1]));
                }
                assert(dedup_adjacent(sorted@.take(j + 1)) == dedup_adjacent(
                    sorted@.take(j as int),
                ).push(sorted@[j as int]));
                lemma_string_views_push(lines0, line);
                assert(string_views(lines@) =~= seq![header@] + dedup_adjacent(
                    sorted@.take(j + 1),
                ).map_values(line_of));
            }
        }
        j = j + 1;
    }
    proof {
        assert(sorted@.take(n as int) =~= sorted@);
    }
    lines
}

/// Writes a daily .citycount file.
///
/// Orders the entries by their collaborator-supplied collation keys,
/// removes adjacent duplicate rows, and renders the header and one
/// key-and-count line per entry; the caller writes the lines out.
/// Besides the lines, the ordered table itself is returned.
pub fn write_city_count_path(cities: &Vec<KeyedCount>) -> (r: (Vec<String>, Vec<KeyedCount>))
    ensures
        sorted_entries(r.1@),
        r.1@.to_multiset() == cities@.to_multiset(),
        string_views(r.0@) == seq![city_header()] + dedup_adjacent(r.1@).map_values(
            |e: KeyedCount| count_line(e, false),
        ),
{
    let sorted = sort_entries(cities);
    let lines = render_lines(&sorted, "CITY\tCNT\n", false);
    (lines, sorted)
}

/// Writes a daily .zipcount file.
///
/// As the city report, ordered by the raw postcode itself, and an
/// empty postcode is rendered under the `_Empty` sentinel label in
/// the output only.
pub fn write_zip_count_path(zips: &Vec<(String, usize)>) -> (r: (Vec<String>, Vec<KeyedCount>))
    ensures
        sorted_entries(r.1@),
        r.1@.to_multiset() == zip_entries(zips@).to_multiset(),
        string_views(r.0@) == seq![zip_header()] + dedup_adjacent(r.1@).map_values(
            |e: KeyedCount| count_line(e, true),
        ),
{
    let n = zips.len();
    let mut entries: Vec<KeyedCount> = Vec::new();
    let mut i: usize = 0;
    while i < n
        invariant
            n == zips@.len(),
            0 <= i <= n,
            entries@.len() == i,
            forall|j: int| 0 <= j < i ==> entries@[j] == zip_entries(zips@)[j],
        decreases n - i,
    {
        entries.push(KeyedCount {
            sort_key: zips[i].0.clone(),
            key: zips[i].0.clone(),
            count: zips[i].1,
        });
        i = i + 1;
    }
    proof {
        assert(entries@ =~= zip_entries(zips@));
    }
    let sorted = sort_entries(&entries);
    let lines = render_lines(&sorted, "ZIP\tCNT\n", true);
    (lines, sorted)
}

/// The zip report's entries: each postcode ordered by itself.
pub open spec fn zip_entries(zips: Seq<(String, usize)>) -> Seq<KeyedCount> {
    zips.map_values(
        |p: (String, usize)| KeyedCount { sort_key: p.0, key: p.0, count: p.1 },
    )
}

/// How often a user edited: the number of rows carrying the user.
pub open spec fn occ(rows: Seq<StatsRow>, user: Seq<char>) -> nat
    decreases rows.len(),
{
    if rows.len() == 0 {
        0
    } else {
        occ(rows.drop_last(), user) + if rows.last().user@ == user {
            1nat
        } else {
            0nat
        }
    }
}

/// The distinct editing users of the rows.
pub open spec fn user_set(rows: Seq<StatsRow>) -> Set<Seq<char>>
    decreases rows.len(),
{
    if rows.len() == 0 {
        Set::empty()
    } else {
        user_set(rows.drop_last()).insert(rows.last().user@)
    }
}

/// The user views of a count list.
pub open spec fn user_keys(s: Seq<(String, u64)>) -> Seq<Seq<char>> {
    s.map_values(|e: (String, u64)| e.0@)
}

/// The ranking order: more edits first, ties by username ascending.
/// Tie order would otherwise be an accident of the counting
/// container, so a deterministic tie-break is picked and documented
/// here.
pub open spec fn user_le(a: (String, u64), b: (String, u64)) -> bool {
    a.1 > b.1 || (a.1 == b.1 && lex_le(a.0@, b.0@))
}

/// The sequence is ordered by the ranking order.
pub open spec fn sorted_users(s: Seq<(String, u64)>) -> bool {
    forall|i: int, j: int| 0 <= i <= j < s.len() ==> user_le(s[i], s[j])
}

/// One body line of the top-user report: count, tab, user, newline.
pub open spec fn user_line(e: (String, u64)) -> Seq<char> {
    dec_str(e.1 as nat) + "\t"@ + e.0@ + "\n"@
}

/// The header line of the top-user report.
pub open spec fn topusers_header() -> Seq<char> {
    "CNT\tUSER\n"@
}

/// A correct ranking of the rows' users: ordered, each user exactly
/// once with their edit count, nobody missing and nobody added.
pub open spec fn ranking_of(s: Seq<(String, u64)>, rows: Seq<StatsRow>) -> bool {
    &&& sorted_users(s)
    &&& user_keys(s).no_duplicates()
    &&& user_keys(s).to_set() == user_set(rows)
    &&& s.len() == user_set(rows).len()
    &&& forall|j: int| 0 <= j < s.len() ==> s[j].1 as nat == occ(rows, s[j].0@)
}

/// A user no row carries has no edits.
proof fn lemma_occ_absent(rows: Seq<StatsRow>, user: Seq<char>)
    requires
        !user_set(rows).contains(user),
    ensures
        occ(rows, user) == 0,
    decreases rows.len(),
{
    if rows.len() > 0 {
        lemma_occ_absent(rows.drop_last(), user);
    }
}

/// Nobody edits more often than there are rows.
proof fn lemma_occ_le_len(rows: Seq<StatsRow>, user: Seq<char>)
    ensures
        occ(rows, user) <= rows.len(),
    decreases rows.len(),
{
    if rows.len() > 0 {
        lemma_occ_le_len(rows.drop_last(), user);
    }
}

/// Finds the entry of a user, or the list's length when absent.
fn find_user(counts: &Vec<(String, u64)>, user: &str) -> (found: usize)
    ensures
        found <= counts@.len(),
        found < counts@.len() ==> counts@[found as int].0@ == user@,
        found == counts@.len() ==> forall|j: int| 0 <= j < counts@.len() ==> counts@[j].0@ != user@,
{
    let m = counts.len();
    let mut k: usize = 0;
    while k < m
        invariant
            m == counts@.len(),
            0 <= k <= m,
            forall|j: int| 0 <= j < k ==> counts@[j].0@ != user@,
        decreases m - k,
    {
        if str_eq(counts[k].0.as_str(), user) {
            return k;
        }
        k = k + 1;
    }
    m
}

/// Counts the rows of each editing user.
fn count_users(rows: &Vec<StatsRow>) -> (counts: Vec<(String, u64)>)
    ensures
        unique_keys(counts@),
        user_keys(counts@).to_set() == user_set(rows@),
        forall|j: int| 0 <= j < counts@.len() ==> counts@[j].1 as nat == occ(rows@, counts@[j].0@),
{
    let n = rows.len();
    let mut counts: Vec<(String, u64)> = Vec::new();
    let mut i: usize = 0;
    proof {
        assert(rows@.take(0) =~= Seq::<StatsRow>::empty());
        assert(user_keys(counts@) =~= Seq::<Seq<char>>::empty());
        assert(Seq::<Seq<char>>::empty().to_set() =~= Set::<Seq<char>>::empty());
    }
    while i < n
        invariant
            n == rows@.len(),
            0 <= i <= n,
            unique_keys(counts@),
            user_keys(counts@).to_set() == user_set(rows@.take(i as int)),
            forall|j: int|
                0 <= j < counts@.len() ==> counts@[j].1 as nat == occ(
                    rows@.take(i as int),
                    counts@[j].0@,
                ),
        decreases n - i,
    {
        let user = &rows[i].user;
        proof {
            assert(rows@.take(i + 1).drop_last() =~= rows@.take(i as int));
            assert(rows@.take(i + 1).last() == rows@[i as int]);
        }
        let m = counts.len();
        let found = find_user(&counts, user.as_str());
        if found < m {
            let key_copy = counts[found].0.clone();
            let c = counts[found].1;
            proof {
                lemma_occ_le_len(rows@.take(i as int), counts@[found as int].0@);
            }
            let ghost counts0 = counts@;
            let ghost stored: (String, u64) = (key_copy, (c + 1) as u64);
            counts.set(found, (key_copy, c + 1));
            proof {
                assert forall|a: int, b: int| 0 <= a < b < counts@.len() implies counts@[a].0@
                    != counts@[b].0@ by {
                    assert(counts0[a].0@ != counts0[b].0@);
                }
                assert(user_keys(counts@) =~= user_keys(counts0));
                assert(user_keys(counts0)[found as int] == user@);
                assert(user_keys(counts0).to_set().contains(user@));
                assert(user_set(rows@.take(i + 1)) =~= user_set(rows@.take(i as int)).insert(
                    user@,
                ));
                assert(user_set(rows@.take(i + 1)) =~= user_set(rows@.take(i as int)));
                assert forall|j: int| 0 <= j < counts@.len() implies counts@[j].1 as nat == occ(
                    rows@.take(i + 1),
                    counts@[j].0@,
                ) by {
                    if j != found {
                        assert(counts@[j] == counts0[j]);
                        assert(counts0[j].0@ != counts0[found as int].0@);
                    }
                }
            }
        } else {
            proof {
                assert forall|j: int| 0 <= j < user_keys(counts@).len() implies user_keys(
                    counts@,
                )[j] != user@ by {
                    assert(user_keys(counts@)[j] == counts@[j].0@);
                }
                assert(!user_keys(counts@).contains(user@));
                assert(!user_keys(counts@).to_set().contains(user@));
                lemma_occ_absent(rows@.take(i as int), user@);
            }
            let fresh = user.clone();
            let ghost counts0 = counts@;
            counts.push((fresh, 1));
            proof {
                assert forall|a: int, b: int| 0 <= a < b < counts@.len() implies counts@[a].0@
                    != counts@[b].0@ by {
                    if b < counts@.len() - 1 {
                        assert(counts0[a].0@ != counts0[b].0@);
                    } else {
                        assert(counts@[a].0@ != user@);
                    }
                }
                assert(user_keys(counts@) =~= user_keys(counts0).push(user@));
                lemma_push_to_set(user_keys(counts0), user@);
                assert(user_set(rows@.take(i + 1)) =~= user_set(rows@.take(i as int)).insert(
                    user@,
                ));
                assert forall|j: int| 0 <= j < counts@.len() implies counts@[j].1 as nat == occ(
                    rows@.take(i + 1),
                    counts@[j].0@,
                ) by {
                    if j < counts@.len() - 1 {
                        assert(counts@[j] == counts0[j]);
                        assert(counts0[j].0@ != user@);
                    }
                }
            }
        }
        i = i + 1;
    }
    proof {
        assert(rows@.take(n as int) =~= rows@);
    }
    counts
}

/// Decides the ranking order of two entries.
fn user_le_exec(a: &(String, u64), b: &(String, u64)) -> (r: bool)
    ensures
        r == user_le(*a, *b),
{
    a.1 > b.1 || (a.1 == b.1 && str_lex_le(a.0.as_str(), b.0.as_str()))
}

/// The ranking order is total and transitive.
proof fn lemma_user_le_total(a: (String, u64), b: (String, u64))
    ensures
        user_le(a, b) || user_le(b, a),
{
    if a.1 == b.1 {
        lemma_lex_le_total(a.0@, b.0@);
    }
}

proof fn lemma_user_le_trans(a: (String, u64), b: (String, u64), c: (String, u64))
    requires
        user_le(a, b),
        user_le(b, c),
    ensures
        user_le(a, c),
{
    if a.1 == b.1 && b.1 == c.1 {
        lemma_lex_le_trans(a.0@, b.0@, c.0@);
    }
}

/// Sorts user counts by the ranking order.
fn sort_users(input: &Vec<(String, u64)>) -> (out: Vec<(String, u64)>)
    ensures
        sorted_users(out@),
        out@.to_multiset() == input@.to_multiset(),
        out@.len() == input@.len(),
{
    let n = input.len();
    let mut src: Vec<(String, u64)> = Vec::new();
    let mut i: usize = 0;
    while i < n
        invariant
            n == input@.len(),
            0 <= i <= n,
            src@.len() == i,
            forall|j: int| 0 <= j < i ==> src@[j] == input@[j],
        decreases n - i,
    {
        src.push((input[i].0.clone(), input[i].1));
        i = i + 1;
    }
    proof {
        broadcast use vstd::seq_lib::group_to_multiset_ensures;
        broadcast use vstd::multiset::group_multiset_axioms;

        assert(src@ =~= input@);
    }
    let mut out: Vec<(String, u64)> = Vec::new();
    proof {
        broadcast use vstd::seq_lib::group_to_multiset_ensures;
        broadcast use vstd::multiset::group_multiset_axioms;

        assert(out@.to_multiset() =~= Multiset::<(String, u64)>::empty());
        assert(out@.to_multiset().add(src@.to_multiset()) =~= input@.to_multiset());
    }
    while src.len() > 0
        invariant
            out@.to_multiset().add(src@.to_multiset()) =~= input@.to_multiset(),
            out@.len() + src@.len() == input@.len(),
            sorted_users(out@),
            forall|a: int, b: int|
                0 <= a < out@.len() && 0 <= b < src@.len() ==> user_le(out@[a], src@[b]),
        decreases src@.len(),
    {
        let m = src.len();
        let mut best: usize = 0;
        let mut j: usize = 1;
        proof {
            lemma_user_le_total(src@[0], src@[0]);
        }
        while j < m
            invariant
                m == src@.len(),
                0 <= best < m,
                1 <= j <= m,
                forall|k: int| 0 <= k < j ==> user_le(src@[best as int], src@[k]),
            decreases m - j,
        {
            if !user_le_exec(&src[best], &src[j]) {
                proof {
                    lemma_user_le_total(src@[best as int], src@[j as int]);
                    assert forall|k: int| 0 <= k < j + 1 implies user_le(
                        src@[j as int],
                        src@[k],
                    ) by {
                        if k < j {
                            lemma_user_le_trans(src@[j as int], src@[best as int], src@[k]);
                        } else {
                            lemma_user_le_total(src@[j as int], src@[j as int]);
                        }
                    }
                }
                best = j;
            }
            j = j + 1;
        }
        let ghost src0 = src@;
        let x = src.remove(best);
        proof {
            broadcast use vstd::seq_lib::group_to_multiset_ensures;
            broadcast use vstd::multiset::group_multiset_axioms;

            assert(src0[best as int] == x);
            assert(src0.contains(x));
            assert(src0.to_multiset().count(x) > 0);
            assert(src@.to_multiset() =~= src0.to_multiset().remove(x));
            assert(src@.to_multiset().insert(x) =~= src0.to_multiset());
            assert(out@.push(x).to_multiset() =~= out@.to_multiset().insert(x));
        }
        let ghost out0 = out@;
        out.push(x);
        proof {
            broadcast use vstd::seq_lib::group_to_multiset_ensures;
            broadcast use vstd::multiset::group_multiset_axioms;

            assert(out@.to_multiset().add(src@.to_multiset()) =~= input@.to_multiset());
            assert forall|a: int, b: int|
                0 <= a < out@.len() && 0 <= b < src@.len() implies user_le(
                out@[a],
                src@[b],
            ) by {
                if a < out@.len() - 1 {
                    assert(user_le(out0[a], x));
                    if b < best {
                        assert(src@[b] == src0[b]);
                    } else {
                        assert(src@[b] == src0[b + 1]);
                    }
                } else {
                    if b < best {
                        assert(src@[b] == src0[b]);
                        assert(user_le(x, src0[b]));
                    } else {
                        assert(src@[b] == src0[b + 1]);
                        assert(user_le(x, src0[b + 1]));
                    }
                }
            }
            assert forall|a: int, b: int| 0 <= a <= b < out@.len() implies user_le(
                out@[a],
                out@[b],
            ) by {
                if b < out@.len() - 1 {
                    assert(user_le(out0[a], out0[b]));
                } else if a < b {
                    assert(user_le(out0[a], x));
                }
            }
        }
    }
    proof {
        broadcast use vstd::seq_lib::group_to_multiset_ensures;
        broadcast use vstd::multiset::group_multiset_axioms;

        assert(src@.to_multiset() =~= Multiset::<(String, u64)>::empty());
        assert(out@.to_multiset() =~= input@.to_multiset());
    }
    out
}

/// A sorted permutation of a correct count list is a correct ranking.
proof fn lemma_ranking_transfer(
    counts: Seq<(String, u64)>,
    ranked: Seq<(String, u64)>,
    rows: Seq<StatsRow>,
)
    requires
        unique_keys(counts),
        user_keys(counts).to_set() == user_set(rows),
        forall|j: int| 0 <= j < counts.len() ==> counts[j].1 as nat == occ(rows, counts[j].0@),
        sorted_users(ranked),
        ranked.to_multiset() == counts.to_multiset(),
        ranked.len() == counts.len(),
    ensures
        ranking_of(ranked, rows),
{
    broadcast use vstd::seq_lib::group_to_multiset_ensures;
    broadcast use vstd::multiset::group_multiset_axioms;

    assert forall|j: int| 0 <= j < ranked.len() implies counts.contains(ranked[j]) by {
        assert(ranked.to_multiset().count(ranked[j]) > 0);
    }
    assert forall|j: int| 0 <= j < ranked.len() implies ranked[j].1 as nat == occ(
        rows,
        ranked[j].0@,
    ) by {
        let p = choose|p: int| 0 <= p < counts.len() && counts[p] == ranked[j];
        assert(counts[p].1 as nat == occ(rows, counts[p].0@));
    }
    assert forall|y: Seq<char>| user_keys(ranked).to_set().contains(y) implies user_set(
        rows,
    ).contains(y) by {
        let j = choose|j: int| 0 <= j < ranked.len() && user_keys(ranked)[j] == y;
        let p = choose|p: int| 0 <= p < counts.len() && counts[p] == ranked[j];
        assert(user_keys(counts)[p] == y);
        assert(user_keys(counts).to_set().contains(y));
    }
    assert forall|y: Seq<char>| user_set(rows).contains(y) implies user_keys(
        ranked,
    ).to_set().contains(y) by {
        assert(user_keys(counts).to_set().contains(y));
        let p = choose|p: int| 0 <= p < counts.len() && user_keys(counts)[p] == y;
        assert(counts.to_multiset().count(counts[p]) > 0);
        assert(ranked.contains(counts[p]));
        let j = choose|j: int| 0 <= j < ranked.len() && ranked[j] == counts[p];
        assert(user_keys(ranked)[j] == y);
    }
    assert(user_keys(ranked).to_set() =~= user_set(rows));
    assert forall|a: int, b: int| 0 <= a < b < counts.len() implies counts[a] != counts[b] by {
        assert(counts[a].0@ != counts[b].0@);
    }
    counts.lemma_multiset_has_no_duplicates();
    ranked.lemma_multiset_has_no_duplicates_conv();
    assert forall|a: int, b: int|
        0 <= a < b < user_keys(ranked).len() implies user_keys(ranked)[a] != user_keys(
        ranked,
    )[b] by {
        if ranked[a] == ranked[b] {
            assert(ranked.to_multiset().count(ranked[a]) > 0);
        } else {
            let p = choose|p: int| 0 <= p < counts.len() && counts[p] == ranked[a];
            let q = choose|q: int| 0 <= q < counts.len() && counts[q] == ranked[b];
            assert(p != q);
            assert(counts[p].0@ != counts[q].0@ || p == q);
        }
    }
    assert forall|a: int, b: int|
        0 <= a < b < user_keys(counts).len() implies user_keys(counts)[a] != user_keys(
        counts,
    )[b] by {
        assert(counts[a].0@ != counts[b].0@);
    }
    user_keys(counts).unique_seq_to_set();
    assert(counts.len() == user_set(rows).len());
}

/// The top-user report: its lines, the distinct-user count, and the
/// full ranking the lines were cut from.
pub struct TopUsers {
    /// The header and the top twenty ranked lines.
    pub lines: Vec<String>,
    /// How many distinct users edited.
    pub usercount: usize,
    /// Every user with their edit count, in ranking order.
    pub ranked: Vec<(String, u64)>,
}

/// The top-user report is right: the ranking is correct and complete,
/// the count is the number of distinct users, and the lines are the
/// header and the first twenty ranked entries.
pub open spec fn topusers_ok(r: TopUsers, rows: Seq<StatsRow>) -> bool {
    &&& ranking_of(r.ranked@, rows)
    &&& r.usercount == user_set(rows).len()
    &&& string_views(r.lines@) == seq![topusers_header()] + r.ranked@.take(
        if r.ranked@.len() < 20 {
            r.ranked@.len() as int
        } else {
            20
        },
    ).map_values(|e: (String, u64)| user_line(e))
}

/// Counts the top housenumber editors as of today.
///
/// Counts rows per editing user, ranks them by edit count (ties by
/// username ascending), keeps the top twenty for the report, and
/// upserts the distinct-user count into the persistent store's
/// user-count series for the date.  The caller writes the report and
/// the legacy scalar file from the result.
pub fn update_stats_topusers(store: &mut Store, rows: &Vec<StatsRow>, today: &str) -> (r: TopUsers)
    requires
        old(store).wf(),
    ensures
        final(store).wf(),
        topusers_ok(r, rows@),
        final(store).usercount_of(today@) == Some(r.usercount as u64),
        forall|d: Seq<char>|
            d != today@ ==> final(store).usercount_of(d) == old(store).usercount_of(d),
        final(store).mtimes@ == old(store).mtimes@,
        final(store).missing_hn_json@ == old(store).missing_hn_json@,
        final(store).additional_hn_json@ == old(store).additional_hn_json@,
        final(store).counts@ == old(store).counts@,
{
    let counts = count_users(rows);
    let usercount = counts.len();
    proof {
        assert forall|a: int, b: int|
            0 <= a < b < user_keys(counts@).len() implies user_keys(counts@)[a] != user_keys(
            counts@,
        )[b] by {
            assert(counts@[a].0@ != counts@[b].0@);
        }
        user_keys(counts@).unique_seq_to_set();
    }
    let ranked = sort_users(&counts);
    proof {
        lemma_ranking_transfer(counts@, ranked@, rows@);
    }
    let cut = if ranked.len() < 20 {
        ranked.len()
    } else {
        20
    };
    let mut lines: Vec<String> = Vec::new();
    lines.push(String::from_str("CNT\tUSER\n"));
    proof {
        assert(ranked@.take(0) =~= Seq::<(String, u64)>::empty());
        assert(string_views(lines@) =~= seq![topusers_header()] + ranked@.take(0).map_values(
            |e: (String, u64)| user_line(e),
        ));
    }
    let mut j: usize = 0;
    while j < cut
        invariant
            cut <= ranked@.len(),
            0 <= j <= cut,
            string_views(lines@) == seq![topusers_header()] + ranked@.take(j as int).map_values(
                |e: (String, u64)| user_line(e),
            ),
        decreases cut - j,
    {
        let line = u64_to_string(ranked[j].1).concat("\t").concat(ranked[j].0.as_str()).concat(
            "\n",
        );
        let ghost lines0 = lines@;
        lines.push(line);
        proof {
            lemma_string_views_push(lines0, line);
            assert(ranked@.take(j + 1).drop_last() =~= ranked@.take(j as int));
            assert(ranked@.take(j + 1).last() == ranked@[j as int]);
            assert(ranked@.take(j + 1) =~= ranked@.take(j as int).push(ranked@[j as int]));
            assert(string_views(lines@) =~= seq![topusers_header()] + ranked@.take(
                j + 1,
            ).map_values(|e: (String, u64)| user_line(e)));
        }
        j = j + 1;
    }
    store.upsert_usercount(today, usercount as u64);
    TopUsers { lines, usercount, ranked }
}

/// The sum of a reference count column.
pub open spec fn spec_sum(counts: Seq<u64>) -> nat
    decreases counts.len(),
{
    if counts.len() == 0 {
        0
    } else {
        (spec_sum(counts.drop_last()) + counts.last()) as nat
    }
}

/// A prefix never sums to more than the whole.
proof fn lemma_sum_take_le(s: Seq<u64>, i: int)
    requires
        0 <= i <= s.len(),
    ensures
        spec_sum(s.take(i)) <= spec_sum(s),
    decreases s.len() - i,
{
    if i < s.len() {
        assert(s.take(i + 1).drop_last() =~= s.take(i));
        assert(s.take(i + 1).last() == s[i]);
        lemma_sum_take_le(s, i + 1);
    } else {
        assert(s.take(i) =~= s);
    }
}

/// Performs the update of workdir/stats/ref.count.
///
/// Sums the count column of the reference city-count table, which the
/// caller reads and parses, and renders the scalar file's content.
pub fn update_stats_refcount(counts: &Vec<u64>) -> (r: String)
    requires
        spec_sum(counts@) <= u64::MAX,
    ensures
        r@ == dec_str(spec_sum(counts@)) + "\n"@,
{
    let n = counts.len();
    let mut sum: u64 = 0;
    let mut i: usize = 0;
    proof {
        assert(counts@.take(0) =~= Seq::<u64>::empty());
    }
    while i < n
        invariant
            n == counts@.len(),
            0 <= i <= n,
            sum as nat == spec_sum(counts@.take(i as int)),
            spec_sum(counts@) <= u64::MAX,
        decreases n - i,
    {
        proof {
            assert(counts@.take(i + 1).drop_last() =~= counts@.take(i as int));
            assert(counts@.take(i + 1).last() == counts@[i as int]);
            lemma_sum_take_le(counts@, i + 1);
        }
        sum = sum + counts[i];
        i = i + 1;
    }
    proof {
        assert(counts@.take(n as int) =~= counts@);
    }
    u64_to_string(sum).concat("\n")
}

/// The raw extract of the day: absent, or its parsed rows.
pub enum RawExtract {
    /// No extract exists for the day; the counting steps are skipped,
    /// which is not an error.
    Missing,
    /// The parsed rows of the extract.
    Rows(Vec<StatsRow>),
}

/// What one stats run produced.
pub struct StatsReport {
    /// The day's counts, when an extract was available.
    pub counts: Option<DailyCounts>,
    /// The top-user report, when an extract was available.
    pub topusers: Option<TopUsers>,
    /// The content of the ref.count scalar file.
    pub refcount: String,
}

/// Performs the update of country-level stats.
///
/// When the day's extract is available, counts house numbers, builds
/// the breakdowns and the top-user ranking, and upserts the date's
/// rows of both counter series; when it is absent those steps are
/// skipped entirely, which is not an error.  The reference count runs
/// either way.  Fetching the extract itself is the caller's retry
/// loop over [`crate::retry::run_fetch`], and the snapshot emission
/// that follows is the collaborator's.
pub fn update_stats(
    store: &mut Store,
    today: &str,
    extract: &RawExtract,
    refcounts: &Vec<u64>,
) -> (r: StatsReport)
    requires
        old(store).wf(),
        spec_sum(refcounts@) <= u64::MAX,
    ensures
        final(store).wf(),
        r.refcount@ == dec_str(spec_sum(refcounts@)) + "\n"@,
        final(store).mtimes@ == old(store).mtimes@,
        final(store).missing_hn_json@ == old(store).missing_hn_json@,
        final(store).additional_hn_json@ == old(store).additional_hn_json@,
        match *extract {
            RawExtract::Missing => {
                &&& r.counts is None
                &&& r.topusers is None
                &&& final(store).counts@ == old(store).counts@
                &&& final(store).usercounts@ == old(store).usercounts@
            },
            RawExtract::Rows(rows) => {
                &&& r.counts is Some
                &&& daily_counts_ok(r.counts.unwrap(), rows@)
                &&& r.topusers is Some
                &&& topusers_ok(r.topusers.unwrap(), rows@)
                &&& final(store).count_of(today@) == Some(r.counts.unwrap().total as u64)
                &&& forall|d: Seq<char>|
                    d != today@ ==> final(store).count_of(d) == old(store).count_of(d)
                &&& final(store).usercount_of(today@) == Some(
                    r.topusers.unwrap().usercount as u64,
                )
                &&& forall|d: Seq<char>|
                    d != today@ ==> final(store).usercount_of(d) == old(store).usercount_of(d)
            },
        },
{
    match extract {
        RawExtract::Missing => {
            let refcount = update_stats_refcount(refcounts);
            StatsReport { counts: None, topusers: None, refcount }
        },
        RawExtract::Rows(rows) => {
            let counts = update_stats_count(store, rows, today);
            let topusers = update_stats_topusers(store, rows, today);
            let refcount = update_stats_refcount(refcounts);
            StatsReport { counts: Some(counts), topusers: Some(topusers), refcount }
        },
    }
}

/// A dated file under the stats state directory, such as the `.count`
/// or `.citycount` file of a day.
pub fn dated_path(statedir: &str, today: &str, ext: &str) -> (r: String)
    ensures
        r@ == statedir@ + "/"@ + today@ + ext@,
{
    String::from_str(statedir).concat("/").concat(today).concat(ext)
}

/// The path of the whole-country raw extract.
pub fn whole_country_csv_path(statedir: &str) -> (r: String)
    ensures
        r@ == statedir@ + "/whole-country.csv"@,
{
    String::from_str(statedir).concat("/whole-country.csv")
}

/// The path of the reference count scalar file.
pub fn ref_count_path(statedir: &str) -> (r: String)
    ensures
        r@ == statedir@ + "/ref.count"@,
{
    String::from_str(statedir).concat("/ref.count")
}

/// The path of the JSON snapshot the collaborator emits.
pub fn stats_json_path(statedir: &str) -> (r: String)
    ensures
        r@ == statedir@ + "/stats.json"@,
{
    String::from_str(statedir).concat("/stats.json")
}

} // verus!
