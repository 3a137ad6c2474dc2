//! The persistent store: modification timestamps, cached JSON blobs
//! and the daily count series.
//!
//! The store is the single owner of timestamp and blob durability.  It
//! holds cache-key modification times, one JSON blob table per
//! cached-artifact family, and two date-keyed counter series with
//! upsert (insert-or-overwrite) semantics.  Each table keeps at most
//! one row per key.

use vstd::prelude::*;

use crate::kvlist;
use crate::kvlist::count_key;
use crate::kvlist::kv_lookup;
use crate::kvlist::kv_upsert;
use crate::kvlist::lookup;
use crate::kvlist::unique_keys;

verus! {

/// The two JSON blob tables, one per cached-artifact family.
#[derive(Clone, Copy, PartialEq, Eq, Structural, Debug)]
pub enum JsonNamespace {
    /// Blobs of the missing-housenumbers family.
    MissingHousenumbersCache,
    /// Blobs of the additional-housenumbers family.
    AdditionalHousenumbersCache,
}

/// The key-value store behind the freshness cache and the statistics
/// series.
pub struct Store {
    /// Cache-key modification times.
    pub mtimes: Vec<(String, u64)>,
    /// JSON blobs of the missing-housenumbers family.
    pub missing_hn_json: Vec<(String, String)>,
    /// JSON blobs of the additional-housenumbers family.
    pub additional_hn_json: Vec<(String, String)>,
    /// The per-date house-number count series.
    pub counts: Vec<(String, u64)>,
    /// The per-date distinct-user count series.
    pub usercounts: Vec<(String, u64)>,
}

impl Store {
    /// Every table keeps at most one row per key.
    pub open spec fn wf(self) -> bool {
        &&& unique_keys(self.mtimes@)
        &&& unique_keys(self.missing_hn_json@)
        &&& unique_keys(self.additional_hn_json@)
        &&& unique_keys(self.counts@)
        &&& unique_keys(self.usercounts@)
    }

    /// The modification time recorded for a cache key.
    pub open spec fn mtime_of(self, key: Seq<char>) -> Option<u64> {
        lookup(self.mtimes@, key)
    }

    /// The rows of the blob table of one family.
    pub open spec fn json_table(self, namespace: JsonNamespace) -> Seq<(String, String)> {
        match namespace {
            JsonNamespace::MissingHousenumbersCache => self.missing_hn_json@,
            JsonNamespace::AdditionalHousenumbersCache => self.additional_hn_json@,
        }
    }

    /// The JSON blob recorded for a key in one family.
    pub open spec fn json_of(self, namespace: JsonNamespace, key: Seq<char>) -> Option<Seq<char>> {
        match lookup(self.json_table(namespace), key) {
            Some(blob) => Some(blob@),
            None => None,
        }
    }

    /// The house-number count recorded for a date.
    pub open spec fn count_of(self, date: Seq<char>) -> Option<u64> {
        lookup(self.counts@, date)
    }

    /// The distinct-user count recorded for a date.
    pub open spec fn usercount_of(self, date: Seq<char>) -> Option<u64> {
        lookup(self.usercounts@, date)
    }

    /// How many rows of the count series carry a date.
    pub open spec fn count_rows_for(self, date: Seq<char>) -> nat {
        count_key(self.counts@, date)
    }

    /// An empty store: nothing recorded.
    pub fn new() -> (s: Store)
        ensures
            s.wf(),
            forall|k: Seq<char>| s.mtime_of(k) is None,
            forall|ns: JsonNamespace, k: Seq<char>| s.json_of(ns, k) is None,
            forall|d: Seq<char>| s.count_of(d) is None,
            forall|d: Seq<char>| s.usercount_of(d) is None,
    {
        Store {
            mtimes: Vec::new(),
            missing_hn_json: Vec::new(),
            additional_hn_json: Vec::new(),
            counts: Vec::new(),
            usercounts: Vec::new(),
        }
    }

    /// Whether a modification time is recorded for the key.
    pub fn has_sql_mtime(&self, key: &str) -> (r: bool)
        requires
            self.wf(),
        ensures
            r == (self.mtime_of(key@) is Some),
    {
        kv_lookup(&self.mtimes, key).is_some()
    }

    /// The modification time recorded for the key.
    pub fn get_sql_mtime(&self, key: &str) -> (r: u64)
        requires
            self.wf(),
            self.mtime_of(key@) is Some,
        ensures
            self.mtime_of(key@) == Some(r),
    {
        *kv_lookup(&self.mtimes, key).unwrap()
    }

    /// Records the given time as the key's modification time,
    /// overwriting any earlier record.  Blobs and counter series are
    /// untouched.
    pub fn set_sql_mtime(&mut self, key: &str, now: u64)
        requires
            old(self).wf(),
        ensures
            final(self).wf(),
            final(self).mtime_of(key@) == Some(now),
            forall|k: Seq<char>|
                k != key@ ==> final(self).mtime_of(k) == old(self).mtime_of(k),
            final(self).missing_hn_json@ == old(self).missing_hn_json@,
            final(self).additional_hn_json@ == old(self).additional_hn_json@,
            final(self).counts@ == old(self).counts@,
            final(self).usercounts@ == old(self).usercounts@,
    {
        kv_upsert(&mut self.mtimes, key, now);
    }

    /// The JSON blob recorded for the key in one family.
    pub fn get_sql_json(&self, namespace: JsonNamespace, key: &str) -> (r: Option<String>)
        requires
            self.wf(),
        ensures
            match r {
                Some(blob) => self.json_of(namespace, key@) == Some(blob@),
                None => self.json_of(namespace, key@) is None,
            },
    {
        let table = match namespace {
            JsonNamespace::MissingHousenumbersCache => &self.missing_hn_json,
            JsonNamespace::AdditionalHousenumbersCache => &self.additional_hn_json,
        };
        match kv_lookup(table, key) {
            Some(blob) => Some(blob.clone()),
            None => None,
        }
    }

    /// Records a JSON blob for the key in one family, overwriting any
    /// earlier blob.  The other family, timestamps and counter series
    /// are untouched.
    pub fn set_sql_json(&mut self, namespace: JsonNamespace, key: &str, value: &str)
        requires
            old(self).wf(),
        ensures
            final(self).wf(),
            final(self).json_of(namespace, key@) == Some(value@),
            forall|k: Seq<char>|
                k != key@ ==> final(self).json_of(namespace, k) == old(self).json_of(
                    namespace,
                    k,
                ),
            namespace == JsonNamespace::MissingHousenumbersCache
                ==> final(self).additional_hn_json@ == old(self).additional_hn_json@,
            namespace == JsonNamespace::AdditionalHousenumbersCache
                ==> final(self).missing_hn_json@ == old(self).missing_hn_json@,
            final(self).mtimes@ == old(self).mtimes@,
            final(self).counts@ == old(self).counts@,
            final(self).usercounts@ == old(self).usercounts@,
    {
        let stored = String::from_str(value);
        match namespace {
            JsonNamespace::MissingHousenumbersCache => {
                kv_upsert(&mut self.missing_hn_json, key, stored);
            },
            JsonNamespace::AdditionalHousenumbersCache => {
                kv_upsert(&mut self.additional_hn_json, key, stored);
            },
        }
    }

    /// Inserts or overwrites the house-number count row for a date.
    pub fn upsert_count(&mut self, date: &str, count: u64)
        requires
            old(self).wf(),
        ensures
            final(self).wf(),
            upsert_count_rel(*old(self), *final(self), date@, count),
    {
        kv_upsert(&mut self.counts, date, count);
    }

    /// Inserts or overwrites the distinct-user count row for a date.
    pub fn upsert_usercount(&mut self, date: &str, count: u64)
        requires
            old(self).wf(),
        ensures
            final(self).wf(),
            final(self).usercount_of(date@) == Some(count),
            forall|d: Seq<char>|
                d != date@ ==> final(self).usercount_of(d) == old(self).usercount_of(d),
            final(self).mtimes@ == old(self).mtimes@,
            final(self).missing_hn_json@ == old(self).missing_hn_json@,
            final(self).additional_hn_json@ == old(self).additional_hn_json@,
            final(self).counts@ == old(self).counts@,
    {
        kv_upsert(&mut self.usercounts, date, count);
    }
}

/// How one count upsert relates the store before it to the store after
/// it: the date's row holds the value, every other date is untouched,
/// and so is everything outside the count series.
pub open spec fn upsert_count_rel(before: Store, after: Store, date: Seq<char>, count: u64) -> bool {
    &&& after.count_of(date) == Some(count)
    &&& forall|d: Seq<char>| d != date ==> after.count_of(d) == before.count_of(d)
    &&& after.mtimes@ == before.mtimes@
    &&& after.missing_hn_json@ == before.missing_hn_json@
    &&& after.additional_hn_json@ == before.additional_hn_json@
    &&& after.usercounts@ == before.usercounts@
}

/// Law: upserting the same date and value twice is the same as doing it
/// once.  After either run the series holds exactly one row for that
/// date, carrying that value, and every other date reads as before.
pub proof fn lemma_upsert_count_idempotent(
    s0: Store,
    s1: Store,
    s2: Store,
    date: Seq<char>,
    value: u64,
)
    requires
        s0.wf(),
        s1.wf(),
        s2.wf(),
        upsert_count_rel(s0, s1, date, value),
        upsert_count_rel(s1, s2, date, value),
    ensures
        s1.count_of(date) == Some(value),
        s1.count_rows_for(date) == 1,
        s2.count_rows_for(date) == 1,
        forall|d: Seq<char>| s2.count_of(d) == s1.count_of(d),
        forall|d: Seq<char>| d != date ==> s2.count_of(d) == s0.count_of(d),
{
    kvlist::lemma_count_key(s1.counts@, date);
    kvlist::lemma_count_key(s2.counts@, date);
}

} // verus!
