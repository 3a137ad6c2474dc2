//! The freshness oracle and the cached-artifact store.
//!
//! A cache entry is current when its recorded modification time is at
//! least as new as every dependency: file dependencies, probed on the
//! file system by the caller and handed in as [`FileStat`] values, and
//! cache dependencies, other keys of the same store.  The two
//! cached-artifact families (missing and additional housenumbers) wrap
//! the oracle with lookup/store semantics over JSON blobs.
//!
//! The caller performs the file-system probes; a probe that fails with
//! an I/O error is the caller's to surface, so the decisions here are
//! total.

use vstd::prelude::*;

use crate::store::JsonNamespace;
use crate::textutil::string_views;
use crate::store::Store;

verus! {

/// What the caller observed of one file dependency: whether the path
/// exists, and its modification time when it does.
#[derive(Clone, Copy, PartialEq, Eq, Structural, Debug)]
pub struct FileStat {
    /// The path exists.
    pub exists: bool,
    /// The file-system modification time; meaningful only when the
    /// path exists.
    pub mtime: u64,
}

/// A file dependency does not invalidate a cache time: the path is
/// absent, or not strictly newer than the cache entry.
pub open spec fn file_dep_fresh(dep: FileStat, cache_mtime: u64) -> bool {
    !(dep.exists && dep.mtime > cache_mtime)
}

/// A cache dependency does not invalidate a cache time: it has no
/// recorded time, or one not strictly newer than the cache entry.
pub open spec fn sql_dep_fresh(store: Store, key: Seq<char>, cache_mtime: u64) -> bool {
    match store.mtime_of(key) {
        Some(t) => !(t > cache_mtime),
        None => true,
    }
}

/// The freshness decision: false when the key has no recorded time;
/// otherwise true exactly when no dependency is strictly newer than
/// the recorded time.
pub open spec fn cache_current(
    store: Store,
    cache_key: Seq<char>,
    dependencies: Seq<FileStat>,
    sql_dependencies: Seq<Seq<char>>,
) -> bool {
    match store.mtime_of(cache_key) {
        None => false,
        Some(m) => {
            &&& forall|i: int| 0 <= i < dependencies.len() ==> file_dep_fresh(dependencies[i], m)
            &&& forall|i: int|
                0 <= i < sql_dependencies.len() ==> sql_dep_fresh(store, sql_dependencies[i], m)
        },
    }
}

/// Decides if we have an up to date cache entry or not.
pub fn is_sql_cache_current(
    store: &Store,
    cache_key: &str,
    dependencies: &Vec<FileStat>,
    sql_dependencies: &Vec<String>,
) -> (r: bool)
    requires
        store.wf(),
    ensures
        r == cache_current(*store, cache_key@, dependencies@, string_views(sql_dependencies@)),
{
    if !store.has_sql_mtime(cache_key) {
        return false;
    }
    let cache_mtime = store.get_sql_mtime(cache_key);

    let n = dependencies.len();
    let mut i: usize = 0;
    while i < n
        invariant
            n == dependencies@.len(),
            store.wf(),
            store.mtime_of(cache_key@) == Some(cache_mtime),
            0 <= i <= n,
            forall|j: int| 0 <= j < i ==> file_dep_fresh(dependencies@[j], cache_mtime),
        decreases n - i,
    {
        if dependencies[i].exists && dependencies[i].mtime > cache_mtime {
            return false;
        }
        i = i + 1;
    }

    let m = sql_dependencies.len();
    let mut j: usize = 0;
    while j < m
        invariant
            n == dependencies@.len(),
            m == sql_dependencies@.len(),
            store.wf(),
            store.mtime_of(cache_key@) == Some(cache_mtime),
            forall|k: int| 0 <= k < n ==> file_dep_fresh(dependencies@[k], cache_mtime),
            0 <= j <= m,
            forall|k: int|
                0 <= k < j ==> sql_dep_fresh(*store, string_views(sql_dependencies@)[k], cache_mtime),
        decreases m - j,
    {
        let dep = &sql_dependencies[j];
        if store.has_sql_mtime(dep.as_str()) && store.get_sql_mtime(dep.as_str()) > cache_mtime {
            proof {
                assert(string_views(sql_dependencies@)[j as int] == dep@);
                assert(!sql_dep_fresh(*store, dep@, cache_mtime));
            }
            return false;
        }
        j = j + 1;
    }

    true
}

/// Law: a key with no recorded modification time is never current,
/// whatever its dependencies.
pub proof fn lemma_uncached_key_not_current(
    store: Store,
    cache_key: Seq<char>,
    dependencies: Seq<FileStat>,
    sql_dependencies: Seq<Seq<char>>,
)
    requires
        store.mtime_of(cache_key) is None,
    ensures
        !cache_current(store, cache_key, dependencies, sql_dependencies),
{
}

/// Law: when the key has a recorded time and every dependency's time
/// is strictly below it, the entry is current.
pub proof fn lemma_older_deps_current(
    store: Store,
    cache_key: Seq<char>,
    dependencies: Seq<FileStat>,
    sql_dependencies: Seq<Seq<char>>,
)
    requires
        store.mtime_of(cache_key) is Some,
        forall|i: int|
            0 <= i < dependencies.len() ==> (dependencies[i].exists ==> dependencies[i].mtime
                < store.mtime_of(cache_key).unwrap()),
        forall|i: int|
            0 <= i < sql_dependencies.len() ==> (store.mtime_of(sql_dependencies[i]) is Some
                ==> store.mtime_of(sql_dependencies[i]).unwrap() < store.mtime_of(
                cache_key,
            ).unwrap()),
    ensures
        cache_current(store, cache_key, dependencies, sql_dependencies),
{
}

/// Law: adding one file dependency that exists and is strictly newer
/// than the cache entry flips the decision to stale.
pub proof fn lemma_newer_file_dep_invalidates(
    store: Store,
    cache_key: Seq<char>,
    dependencies: Seq<FileStat>,
    sql_dependencies: Seq<Seq<char>>,
    dep: FileStat,
)
    requires
        store.mtime_of(cache_key) is Some ==> (dep.exists && dep.mtime > store.mtime_of(
            cache_key,
        ).unwrap()),
    ensures
        !cache_current(store, cache_key, dependencies.push(dep), sql_dependencies),
{
    if store.mtime_of(cache_key) is Some {
        let m = store.mtime_of(cache_key).unwrap();
        assert(dependencies.push(dep)[dependencies.len() as int] == dep);
        assert(!file_dep_fresh(dep, m));
    }
}

/// Law: adding one cache dependency whose recorded time is strictly
/// newer than the cache entry flips the decision to stale.
pub proof fn lemma_newer_sql_dep_invalidates(
    store: Store,
    cache_key: Seq<char>,
    dependencies: Seq<FileStat>,
    sql_dependencies: Seq<Seq<char>>,
    dep: Seq<char>,
)
    requires
        store.mtime_of(cache_key) is Some ==> (store.mtime_of(dep) is Some && store.mtime_of(
            dep,
        ).unwrap() > store.mtime_of(cache_key).unwrap()),
    ensures
        !cache_current(store, cache_key, dependencies, sql_dependencies.push(dep)),
{
    if store.mtime_of(cache_key) is Some {
        let m = store.mtime_of(cache_key).unwrap();
        assert(sql_dependencies.push(dep)[sql_dependencies.len() as int] == dep);
        assert(!sql_dep_fresh(store, dep, m));
    }
}

/// The freshness-record key of the missing-housenumbers blob of a
/// relation.
pub open spec fn missing_housenumbers_cache_key(name: Seq<char>) -> Seq<char> {
    "missing-housenumbers-cache/"@ + name
}

/// The freshness-record key of the additional-housenumbers blob of a
/// relation.
pub open spec fn additional_housenumbers_cache_key(name: Seq<char>) -> Seq<char> {
    "additional-housenumbers-cache/"@ + name
}

/// The cache-dependency key of a relation's street list.
pub open spec fn streets_key(name: Seq<char>) -> Seq<char> {
    "streets/"@ + name
}

/// The cache-dependency key of a relation's housenumber list.
pub open spec fn housenumbers_key(name: Seq<char>) -> Seq<char> {
    "housenumbers/"@ + name
}

/// The path of a relation's configuration file under the data
/// directory; its modification time is the file dependency of both
/// cached-artifact families.
pub open spec fn relation_config_path_spec(datadir: Seq<char>, name: Seq<char>) -> Seq<char> {
    datadir + "/relation-"@ + name + ".yaml"@
}

/// Builds the path of a relation's configuration file, for the caller
/// to probe.
pub fn relation_config_path(datadir: &str, name: &str) -> (r: String)
    ensures
        r@ == relation_config_path_spec(datadir@, name@),
{
    String::from_str(datadir).concat("/relation-").concat(name).concat(".yaml")
}

/// Both cached-artifact families share the relation's configuration
/// file as file dependency and its street and housenumber lists as
/// cache dependencies.
pub open spec fn family_cached(
    store: Store,
    cache_key: Seq<char>,
    name: Seq<char>,
    config: FileStat,
) -> bool {
    cache_current(
        store,
        cache_key,
        seq![config],
        seq![streets_key(name), housenumbers_key(name)],
    )
}

/// Decides if we have an up to date json cache entry or not.
pub fn is_missing_housenumbers_json_cached(store: &Store, name: &str, config: FileStat) -> (r:
    bool)
    requires
        store.wf(),
    ensures
        r == family_cached(*store, missing_housenumbers_cache_key(name@), name@, config),
{
    family_is_cached(store, "missing-housenumbers-cache/", name, config)
}

/// Decides if we have an up to date additional json cache entry or not.
pub fn is_additional_housenumbers_json_cached(store: &Store, name: &str, config: FileStat) -> (r:
    bool)
    requires
        store.wf(),
    ensures
        r == family_cached(*store, additional_housenumbers_cache_key(name@), name@, config),
{
    family_is_cached(store, "additional-housenumbers-cache/", name, config)
}

/// The shared freshness check of the two families: the namespaced key
/// against the configuration file and the street and housenumber
/// lists.
fn family_is_cached(store: &Store, prefix: &str, name: &str, config: FileStat) -> (r: bool)
    requires
        store.wf(),
    ensures
        r == family_cached(*store, prefix@ + name@, name@, config),
{
    let cache_key = String::from_str(prefix).concat(name);
    let dependencies = vec![config];
    let streets_dep = String::from_str("streets/").concat(name);
    let housenumbers_dep = String::from_str("housenumbers/").concat(name);
    let sql_dependencies = vec![streets_dep, housenumbers_dep];
    proof {
        assert(dependencies@ =~= seq![config]);
        assert(string_views(sql_dependencies@) =~= seq![
            streets_key(name@),
            housenumbers_key(name@),
        ]);
    }
    is_sql_cache_current(store, cache_key.as_str(), &dependencies, &sql_dependencies)
}

/// What a cache lookup came to: the stored blob is current and served,
/// or the entry is stale and the caller must recompute.
#[derive(Debug)]
pub enum CacheLookup {
    /// The entry is current; this is the stored blob.
    Fresh(String),
    /// The entry is stale or absent; the caller computes the value and
    /// then records it.
    Stale,
}

/// An invariant violation of the cached-artifact store.
#[derive(Clone, Copy, PartialEq, Eq, Structural, Debug)]
pub enum CacheError {
    /// The freshness record marks the entry current, but no blob is
    /// stored: the store must never be observed in this state.
    MissingBlob,
}

/// Gets the cached json of the missing housenumbers for a relation.
///
/// Serves the stored blob when the entry is current; reports a stale
/// entry for the caller to recompute (the computation itself is the
/// collaborator's, and after recording the result the caller also
/// rewrites the relation's lints, which are not cached); and surfaces
/// a current entry without a blob as the invariant violation it is.
pub fn get_missing_housenumbers_json(store: &Store, name: &str, config: FileStat) -> (r: Result<
    CacheLookup,
    CacheError,
>)
    requires
        store.wf(),
    ensures
        match r {
            Ok(CacheLookup::Fresh(blob)) => family_cached(
                *store,
                missing_housenumbers_cache_key(name@),
                name@,
                config,
            ) && store.json_of(JsonNamespace::MissingHousenumbersCache, name@) == Some(blob@),
            Ok(CacheLookup::Stale) => !family_cached(
                *store,
                missing_housenumbers_cache_key(name@),
                name@,
                config,
            ),
            Err(CacheError::MissingBlob) => family_cached(
                *store,
                missing_housenumbers_cache_key(name@),
                name@,
                config,
            ) && store.json_of(JsonNamespace::MissingHousenumbersCache, name@) is None,
        },
{
    if is_missing_housenumbers_json_cached(store, name, config) {
        match store.get_sql_json(JsonNamespace::MissingHousenumbersCache, name) {
            Some(blob) => Ok(CacheLookup::Fresh(blob)),
            None => Err(CacheError::MissingBlob),
        }
    } else {
        Ok(CacheLookup::Stale)
    }
}

/// Gets the cached json of the additional housenumbers for a relation.
///
/// As [`get_missing_housenumbers_json`], for the other family; a
/// recompute triggers no lint rewrite here.
pub fn get_additional_housenumbers_json(store: &Store, name: &str, config: FileStat) -> (r: Result<
    CacheLookup,
    CacheError,
>)
    requires
        store.wf(),
    ensures
        match r {
            Ok(CacheLookup::Fresh(blob)) => family_cached(
                *store,
                additional_housenumbers_cache_key(name@),
                name@,
                config,
            ) && store.json_of(JsonNamespace::AdditionalHousenumbersCache, name@) == Some(blob@),
            Ok(CacheLookup::Stale) => !family_cached(
                *store,
                additional_housenumbers_cache_key(name@),
                name@,
                config,
            ),
            Err(CacheError::MissingBlob) => family_cached(
                *store,
                additional_housenumbers_cache_key(name@),
                name@,
                config,
            ) && store.json_of(JsonNamespace::AdditionalHousenumbersCache, name@) is None,
        },
{
    if is_additional_housenumbers_json_cached(store, name, config) {
        match store.get_sql_json(JsonNamespace::AdditionalHousenumbersCache, name) {
            Some(blob) => Ok(CacheLookup::Fresh(blob)),
            None => Err(CacheError::MissingBlob),
        }
    } else {
        Ok(CacheLookup::Stale)
    }
}

/// How recording a freshly computed missing-housenumbers blob relates
/// the store before it to the store after it: the blob is stored, the
/// namespaced key's time is the recording time, and nothing else
/// changes.
pub open spec fn store_missing_rel(
    before: Store,
    after: Store,
    name: Seq<char>,
    json: Seq<char>,
    now: u64,
) -> bool {
    &&& after.json_of(JsonNamespace::MissingHousenumbersCache, name) == Some(json)
    &&& forall|k: Seq<char>|
        k != name ==> after.json_of(JsonNamespace::MissingHousenumbersCache, k) == before.json_of(
            JsonNamespace::MissingHousenumbersCache,
            k,
        )
    &&& after.additional_hn_json@ == before.additional_hn_json@
    &&& after.mtime_of(missing_housenumbers_cache_key(name)) == Some(now)
    &&& forall|k: Seq<char>|
        k != missing_housenumbers_cache_key(name) ==> after.mtime_of(k) == before.mtime_of(k)
    &&& after.counts@ == before.counts@
    &&& after.usercounts@ == before.usercounts@
}

/// Records a freshly computed missing-housenumbers blob: the blob is
/// written first and the freshness time only after it, so that no
/// observer can find a current timestamp pointing at no blob.
pub fn store_missing_housenumbers_json(store: &mut Store, name: &str, json: &str, now: u64)
    requires
        old(store).wf(),
    ensures
        final(store).wf(),
        store_missing_rel(*old(store), *final(store), name@, json@, now),
{
    store.set_sql_json(JsonNamespace::MissingHousenumbersCache, name, json);
    let key = String::from_str("missing-housenumbers-cache/").concat(name);
    store.set_sql_mtime(key.as_str(), now);
}

/// How recording a freshly computed additional-housenumbers blob
/// relates the store before it to the store after it.
pub open spec fn store_additional_rel(
    before: Store,
    after: Store,
    name: Seq<char>,
    json: Seq<char>,
    now: u64,
) -> bool {
    &&& after.json_of(JsonNamespace::AdditionalHousenumbersCache, name) == Some(json)
    &&& forall|k: Seq<char>|
        k != name ==> after.json_of(JsonNamespace::AdditionalHousenumbersCache, k)
            == before.json_of(JsonNamespace::AdditionalHousenumbersCache, k)
    &&& after.missing_hn_json@ == before.missing_hn_json@
    &&& after.mtime_of(additional_housenumbers_cache_key(name)) == Some(now)
    &&& forall|k: Seq<char>|
        k != additional_housenumbers_cache_key(name) ==> after.mtime_of(k) == before.mtime_of(k)
    &&& after.counts@ == before.counts@
    &&& after.usercounts@ == before.usercounts@
}

/// Records a freshly computed additional-housenumbers blob, blob
/// before timestamp as above.
pub fn store_additional_housenumbers_json(store: &mut Store, name: &str, json: &str, now: u64)
    requires
        old(store).wf(),
    ensures
        final(store).wf(),
        store_additional_rel(*old(store), *final(store), name@, json@, now),
{
    store.set_sql_json(JsonNamespace::AdditionalHousenumbersCache, name, json);
    let key = String::from_str("additional-housenumbers-cache/").concat(name);
    store.set_sql_mtime(key.as_str(), now);
}

/// Law: after a recompute is recorded, as long as no dependency grows
/// newer than the recording time, the entry is current and the stored
/// blob is what a lookup serves — a second lookup never invokes the
/// computation again.
pub proof fn lemma_recompute_then_cached(
    s0: Store,
    s1: Store,
    name: Seq<char>,
    json: Seq<char>,
    config: FileStat,
    now: u64,
)
    requires
        store_missing_rel(s0, s1, name, json, now),
        config.exists ==> config.mtime <= now,
        s0.mtime_of(streets_key(name)) is Some ==> s0.mtime_of(streets_key(name)).unwrap() <= now,
        s0.mtime_of(housenumbers_key(name)) is Some ==> s0.mtime_of(
            housenumbers_key(name),
        ).unwrap() <= now,
    ensures
        family_cached(s1, missing_housenumbers_cache_key(name), name, config),
        s1.json_of(JsonNamespace::MissingHousenumbersCache, name) == Some(json),
{
    lemma_family_keys_distinct(name);
    let deps = seq![config];
    let sql_deps = seq![streets_key(name), housenumbers_key(name)];
    assert(s1.mtime_of(streets_key(name)) == s0.mtime_of(streets_key(name)));
    assert(s1.mtime_of(housenumbers_key(name)) == s0.mtime_of(housenumbers_key(name)));
    assert forall|i: int| 0 <= i < deps.len() implies file_dep_fresh(deps[i], now) by {
        assert(deps[i] == config);
    }
    assert forall|i: int| 0 <= i < sql_deps.len() implies sql_dep_fresh(s1, sql_deps[i], now) by {
        assert(i == 0 || i == 1);
    }
}

/// Law: the same, for the additional-housenumbers family.
pub proof fn lemma_recompute_then_cached_additional(
    s0: Store,
    s1: Store,
    name: Seq<char>,
    json: Seq<char>,
    config: FileStat,
    now: u64,
)
    requires
        store_additional_rel(s0, s1, name, json, now),
        config.exists ==> config.mtime <= now,
        s0.mtime_of(streets_key(name)) is Some ==> s0.mtime_of(streets_key(name)).unwrap() <= now,
        s0.mtime_of(housenumbers_key(name)) is Some ==> s0.mtime_of(
            housenumbers_key(name),
        ).unwrap() <= now,
    ensures
        family_cached(s1, additional_housenumbers_cache_key(name), name, config),
        s1.json_of(JsonNamespace::AdditionalHousenumbersCache, name) == Some(json),
{
    lemma_family_keys_distinct(name);
    let deps = seq![config];
    let sql_deps = seq![streets_key(name), housenumbers_key(name)];
    assert(s1.mtime_of(streets_key(name)) == s0.mtime_of(streets_key(name)));
    assert(s1.mtime_of(housenumbers_key(name)) == s0.mtime_of(housenumbers_key(name)));
    assert forall|i: int| 0 <= i < deps.len() implies file_dep_fresh(deps[i], now) by {
        assert(deps[i] == config);
    }
    assert forall|i: int| 0 <= i < sql_deps.len() implies sql_dep_fresh(s1, sql_deps[i], now) by {
        assert(i == 0 || i == 1);
    }
}

/// The freshness keys of a relation's street and housenumber lists
/// differ from the cache keys of both artifact families.
proof fn lemma_family_keys_distinct(name: Seq<char>)
    ensures
        streets_key(name) != missing_housenumbers_cache_key(name),
        housenumbers_key(name) != missing_housenumbers_cache_key(name),
        streets_key(name) != additional_housenumbers_cache_key(name),
        housenumbers_key(name) != additional_housenumbers_cache_key(name),
{
    reveal_strlit("streets/");
    reveal_strlit("housenumbers/");
    reveal_strlit("missing-housenumbers-cache/");
    reveal_strlit("additional-housenumbers-cache/");
    assert(streets_key(name)[0] == 's');
    assert(housenumbers_key(name)[0] == 'h');
    assert(missing_housenumbers_cache_key(name)[0] == 'm');
    assert(additional_housenumbers_cache_key(name)[0] == 'a');
}

} // verus!
