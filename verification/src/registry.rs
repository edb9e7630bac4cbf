//! The Registry Builder: merges the discovered applications, injects the
//! mandatory system-utility fallbacks, deduplicates by raw name
//! (first-seen-wins, in discovery order), and produces the two read-only
//! projections — a normalized-name → path map and a sorted, deduplicated
//! display-name list.
//!
//! Two different deduplication passes carry different tie-break semantics:
//! the raw-name pass keeps the first entry seen, while the map built over
//! normalized keys lets a later entry overwrite an earlier one whose distinct
//! raw name normalizes to the same key.  Both behaviours are deliberate and
//! pinned by the contracts below.

use vstd::prelude::*;
use vstd::string::StringExecFns;

use crate::model::AppSource;
use crate::model::AppView;
use crate::model::InstalledApp;
use crate::names::dedup_sorted_names;
use crate::names::sort_names;
use crate::normalize::lemma_normalize_idempotent;
use crate::normalize::normalize_app_name;
use crate::normalize::normalize_chars;
use crate::order::sorted_strict;
use crate::text::str_eq;

verus! {

/// Whether some entry of the list carries this raw name.
pub open spec fn has_name(s: Seq<AppView>, name: Seq<char>) -> bool {
    exists|j: int| 0 <= j < s.len() && #[trigger] s[j].name == name
}

/// Whether some entry of the list carries this display name.
pub open spec fn has_display_name(s: Seq<AppView>, name: Seq<char>) -> bool {
    exists|j: int| 0 <= j < s.len() && #[trigger] s[j].display_name == name
}

/// The list deduplicated by raw name: of entries sharing a name, only the
/// first seen survives, and discovery order is preserved.
pub open spec fn dedup_by_name(s: Seq<AppView>) -> Seq<AppView>
    decreases s.len(),
{
    if s.len() == 0 {
        s
    } else {
        let rest = dedup_by_name(s.drop_last());
        if has_name(s.drop_last(), s.last().name) {
            rest
        } else {
            rest.push(s.last())
        }
    }
}

/// Deduplication keeps exactly the names of the input.
pub proof fn lemma_dedup_names(s: Seq<AppView>)
    ensures
        forall|nm: Seq<char>| has_name(dedup_by_name(s), nm) <==> has_name(s, nm),
    decreases s.len(),
{
    if s.len() > 0 {
        lemma_dedup_names(s.drop_last());
        let rest = dedup_by_name(s.drop_last());
        assert forall|nm: Seq<char>| has_name(dedup_by_name(s), nm) implies has_name(s, nm) by {
            let d = dedup_by_name(s);
            let j = choose|j: int| 0 <= j < d.len() && #[trigger] d[j].name == nm;
            if has_name(s.drop_last(), s.last().name) {
                assert(has_name(rest, nm));
                assert(has_name(s.drop_last(), nm));
                let k = choose|k: int|
                    0 <= k < s.drop_last().len() && #[trigger] s.drop_last()[k].name == nm;
                assert(s[k].name == nm);
            } else {
                if j < rest.len() {
                    assert(has_name(rest, nm)) by {
                        assert(rest[j].name == nm);
                    }
                    assert(has_name(s.drop_last(), nm));
                    let k = choose|k: int|
                        0 <= k < s.drop_last().len() && #[trigger] s.drop_last()[k].name == nm;
                    assert(s[k].name == nm);
                } else {
                    assert(d[j] == s.last());
                    assert(s[s.len() - 1].name == nm);
                }
            }
        }
        assert forall|nm: Seq<char>| has_name(s, nm) implies has_name(dedup_by_name(s), nm) by {
            let j = choose|j: int| 0 <= j < s.len() && #[trigger] s[j].name == nm;
            if j < s.len() - 1 {
                assert(s.drop_last()[j].name == nm);
                assert(has_name(s.drop_last(), nm));
                assert(has_name(rest, nm));
                let k = choose|k: int| 0 <= k < rest.len() && #[trigger] rest[k].name == nm;
                if has_name(s.drop_last(), s.last().name) {
                    assert(dedup_by_name(s)[k].name == nm);
                } else {
                    assert(dedup_by_name(s)[k].name == nm);
                }
            } else {
                if has_name(s.drop_last(), s.last().name) {
                    assert(has_name(s.drop_last(), nm));
                    assert(has_name(rest, nm));
                    let k = choose|k: int| 0 <= k < rest.len() && #[trigger] rest[k].name == nm;
                    assert(dedup_by_name(s)[k].name == nm);
                } else {
                    let d = dedup_by_name(s);
                    assert(d[d.len() - 1].name == nm);
                }
            }
        }
    }
}

/// The names surviving deduplication are pairwise distinct.
pub proof fn lemma_dedup_distinct(s: Seq<AppView>)
    ensures
        forall|i: int, j: int|
            0 <= i < j < dedup_by_name(s).len() ==> #[trigger] dedup_by_name(s)[i].name
                != #[trigger] dedup_by_name(s)[j].name,
    decreases s.len(),
{
    if s.len() > 0 {
        lemma_dedup_distinct(s.drop_last());
        let rest = dedup_by_name(s.drop_last());
        let d = dedup_by_name(s);
        if !has_name(s.drop_last(), s.last().name) {
            assert forall|i: int, j: int| 0 <= i < j < d.len() implies #[trigger] d[i].name
                != #[trigger] d[j].name by {
                if j < rest.len() {
                    assert(d[i] == rest[i] && d[j] == rest[j]);
                } else {
                    assert(d[j] == s.last());
                    assert(d[i] == rest[i]);
                    if rest[i].name == s.last().name {
                        assert(has_name(rest, s.last().name));
                        lemma_dedup_names(s.drop_last());
                        assert(false);
                    }
                }
            }
        }
    }
}

/// Deduplication leaves a list whose names are pairwise distinct unchanged.
pub proof fn lemma_dedup_fixed(s: Seq<AppView>)
    requires
        forall|i: int, j: int|
            0 <= i < j < s.len() ==> #[trigger] s[i].name != #[trigger] s[j].name,
    ensures
        dedup_by_name(s) == s,
    decreases s.len(),
{
    if s.len() > 0 {
        assert forall|i: int, j: int|
            0 <= i < j < s.drop_last().len() implies #[trigger] s.drop_last()[i].name
            != #[trigger] s.drop_last()[j].name by {
            assert(s.drop_last()[i] == s[i] && s.drop_last()[j] == s[j]);
        }
        lemma_dedup_fixed(s.drop_last());
        if has_name(s.drop_last(), s.last().name) {
            let k = choose|k: int|
                0 <= k < s.drop_last().len() && #[trigger] s.drop_last()[k].name == s.last().name;
            assert(s[k].name == s[s.len() - 1].name);
            assert(false);
        }
        assert(dedup_by_name(s) =~= s);
    }
}

/// Deduplication by raw name is idempotent: it is a no-op on a list that was
/// already deduplicated.
pub proof fn lemma_dedup_by_name_idempotent(s: Seq<AppView>)
    ensures
        dedup_by_name(dedup_by_name(s)) == dedup_by_name(s),
{
    lemma_dedup_distinct(s);
    lemma_dedup_fixed(dedup_by_name(s));
}

/// Appending one entry deduplicates to the deduplicated prefix, extended by
/// the entry when its name is new.
proof fn lemma_dedup_push(s: Seq<AppView>, a: AppView)
    ensures
        dedup_by_name(s.push(a)) == if has_name(s, a.name) {
            dedup_by_name(s)
        } else {
            dedup_by_name(s).push(a)
        },
{
    assert(s.push(a).drop_last() =~= s);
    assert(s.push(a).last() == a);
}

/// Lists with the same deduplication stay that way under one fallback
/// injection.
proof fn lemma_with_fallback_congruence(x: Seq<AppView>, y: Seq<AppView>, n: Seq<char>, p: Seq<char>)
    requires
        dedup_by_name(x) == dedup_by_name(y),
    ensures
        dedup_by_name(with_fallback(x, n, p)) == dedup_by_name(with_fallback(y, n, p)),
{
    lemma_dedup_names(x);
    lemma_dedup_names(y);
    assert(has_name(x, n) == has_name(y, n));
    if !has_name(x, n) {
        lemma_dedup_push(x, fallback_app(n, p));
        lemma_dedup_push(y, fallback_app(n, p));
    }
}

/// Building from an already-deduplicated list merges to the same result as
/// building from the raw list: the builder's deduplication is a no-op on it.
pub proof fn lemma_merge_of_dedup_is_merge(s: Seq<AppView>)
    ensures
        dedup_by_name(with_fallbacks(dedup_by_name(s))) == dedup_by_name(with_fallbacks(s)),
{
    lemma_dedup_by_name_idempotent(s);
    let d = dedup_by_name(s);
    lemma_with_fallback_congruence(d, s, "notepad"@, "notepad.exe"@);
    lemma_with_fallback_congruence(
        with_fallback(d, "notepad"@, "notepad.exe"@),
        with_fallback(s, "notepad"@, "notepad.exe"@),
        "explorer"@,
        "explorer.exe"@,
    );
    lemma_with_fallback_congruence(
        with_fallback(with_fallback(d, "notepad"@, "notepad.exe"@), "explorer"@, "explorer.exe"@),
        with_fallback(with_fallback(s, "notepad"@, "notepad.exe"@), "explorer"@, "explorer.exe"@),
        "cmd"@,
        "cmd.exe"@,
    );
}

/// A mandatory system-utility entry.
pub open spec fn fallback_app(name: Seq<char>, path: Seq<char>) -> AppView {
    AppView { name: name, display_name: name, path: path, source: AppSource::Fallback }
}

/// The list with one system-utility fallback appended, unless an entry of
/// that raw name is already present.
pub open spec fn with_fallback(s: Seq<AppView>, name: Seq<char>, path: Seq<char>) -> Seq<AppView> {
    if has_name(s, name) {
        s
    } else {
        s.push(fallback_app(name, path))
    }
}

/// The list with all mandatory system-utility fallbacks appended.
pub open spec fn with_fallbacks(s: Seq<AppView>) -> Seq<AppView> {
    with_fallback(
        with_fallback(with_fallback(s, "notepad"@, "notepad.exe"@), "explorer"@, "explorer.exe"@),
        "cmd"@,
        "cmd.exe"@,
    )
}

/// Whether the list already holds an entry of this raw name.
fn has_app_named(apps: &Vec<InstalledApp>, name: &str) -> (r: bool)
    ensures
        r == has_name(apps.deep_view(), name@),
{
    let ghost avs = apps.deep_view();
    let n = apps.len();
    let mut j: usize = 0;
    while j < n
        invariant
            0 <= j <= n,
            n == avs.len(),
            avs == apps.deep_view(),
            forall|k: int| 0 <= k < j ==> #[trigger] avs[k].name != name@,
        decreases n - j,
    {
        proof {
            assert(avs[j as int] == apps@[j as int]@);
        }
        if str_eq(apps[j].name.as_str(), name) {
            proof {
                assert(avs[j as int].name == name@);
            }
            return true;
        }
        j = j + 1;
    }
    false
}

/// Appends one system-utility fallback when no entry of that name exists yet.
fn push_fallback(apps: &mut Vec<InstalledApp>, name: &str, path: &str)
    ensures
        final(apps).deep_view() == with_fallback(old(apps).deep_view(), name@, path@),
{
    let ghost avs = apps.deep_view();
    if !has_app_named(apps, name) {
        apps.push(
            InstalledApp {
                name: String::from_str(name),
                display_name: String::from_str(name),
                path: String::from_str(path),
                source: AppSource::Fallback,
            },
        );
        proof {
            assert(apps.deep_view() =~= avs.push(fallback_app(name@, path@))) by {
                assert(forall|k: int|
                    0 <= k < apps.deep_view().len() ==> apps.deep_view()[k] == #[trigger] apps@[k]@);
            }
        }
    }
}

/// Deduplicates the list by raw name, first-seen-wins, preserving discovery
/// order.
pub fn dedup_apps(apps: Vec<InstalledApp>) -> (r: Vec<InstalledApp>)
    ensures
        r.deep_view() == dedup_by_name(apps.deep_view()),
{
    let ghost avs = apps.deep_view();
    let n = apps.len();
    let mut out: Vec<InstalledApp> = Vec::new();
    let mut i: usize = 0;
    while i < n
        invariant
            0 <= i <= n,
            n == avs.len(),
            avs == apps.deep_view(),
            out.deep_view() == dedup_by_name(avs.take(i as int)),
        decreases n - i,
    {
        let ghost prev = out.deep_view();
        let a = &apps[i];
        proof {
            assert(avs[i as int] == apps@[i as int]@);
            assert(avs.take(i + 1).drop_last() =~= avs.take(i as int));
            assert(avs.take(i + 1).last() == avs[i as int]);
            lemma_dedup_names(avs.take(i as int));
        }
        let seen = has_app_named(&out, a.name.as_str());
        if !seen {
            out.push(
                InstalledApp {
                    name: a.name.clone(),
                    display_name: a.display_name.clone(),
                    path: a.path.clone(),
                    source: a.source,
                },
            );
            proof {
                assert(out.deep_view() =~= prev.push(avs[i as int])) by {
                    assert(forall|k: int|
                        0 <= k < out.deep_view().len() ==> out.deep_view()[k] == #[trigger] out@[k]@);
                }
            }
        }
        i = i + 1;
    }
    proof {
        assert(avs.take(n as int) =~= avs);
    }
    out
}

/// One entry of the registry's lookup table: a normalized key and the path it
/// resolves to.
pub struct RegisteredApp {
    pub key: String,
    pub path: String,
}

/// Mathematical image of a [`RegisteredApp`].
pub ghost struct RegisteredAppView {
    pub key: Seq<char>,
    pub path: Seq<char>,
}

impl View for RegisteredApp {
    type V = RegisteredAppView;

    open spec fn view(&self) -> RegisteredAppView {
        RegisteredAppView { key: self.key@, path: self.path@ }
    }
}

impl DeepView for RegisteredApp {
    type V = RegisteredAppView;

    open spec fn deep_view(&self) -> RegisteredAppView {
        self.view()
    }
}

/// The map described by an entry list, later entries overwriting earlier ones
/// of the same key.
pub open spec fn assoc_map(s: Seq<RegisteredAppView>) -> Map<Seq<char>, Seq<char>>
    decreases s.len(),
{
    if s.len() == 0 {
        Map::empty()
    } else {
        assoc_map(s.drop_last()).insert(s.last().key, s.last().path)
    }
}

/// Pairwise-distinct keys.
pub open spec fn unique_keys(s: Seq<RegisteredAppView>) -> bool {
    forall|i: int, j: int| 0 <= i < j < s.len() ==> #[trigger] s[i].key != #[trigger] s[j].key
}

/// With distinct keys, the map holds exactly the listed entries.
pub proof fn lemma_assoc_map_characterization(s: Seq<RegisteredAppView>)
    requires
        unique_keys(s),
    ensures
        forall|k: Seq<char>|
            #[trigger] assoc_map(s).contains_key(k) <==> exists|i: int|
                0 <= i < s.len() && #[trigger] s[i].key == k,
        forall|i: int|
            0 <= i < s.len() ==> assoc_map(s).contains_key(#[trigger] s[i].key) && assoc_map(
                s,
            )[s[i].key] == s[i].path,
    decreases s.len(),
{
    if s.len() > 0 {
        assert(unique_keys(s.drop_last())) by {
            assert(forall|i: int|
                0 <= i < s.drop_last().len() ==> #[trigger] s.drop_last()[i] == s[i]);
        }
        lemma_assoc_map_characterization(s.drop_last());
        assert forall|k: Seq<char>| #[trigger] assoc_map(s).contains_key(k) implies exists|i: int|
            0 <= i < s.len() && #[trigger] s[i].key == k by {
            if k == s.last().key {
                assert(s[s.len() - 1].key == k);
            } else {
                assert(assoc_map(s.drop_last()).contains_key(k));
                let i = choose|i: int|
                    0 <= i < s.drop_last().len() && #[trigger] s.drop_last()[i].key == k;
                assert(s[i].key == k);
            }
        }
        assert forall|i: int|
            0 <= i < s.len() implies assoc_map(s).contains_key(#[trigger] s[i].key) && assoc_map(
            s,
        )[s[i].key] == s[i].path by {
            if i == s.len() - 1 {
            } else {
                assert(s.drop_last()[i] == s[i]);
                assert(assoc_map(s.drop_last())[s[i].key] == s[i].path);
                assert(s[i].key != s.last().key);
            }
        }
        assert forall|k: Seq<char>|
            (exists|i: int| 0 <= i < s.len() && #[trigger] s[i].key == k) implies assoc_map(
            s,
        ).contains_key(k) by {
            let i = choose|i: int| 0 <= i < s.len() && #[trigger] s[i].key == k;
        }
    }
}

/// Replaces the value of an existing key in place, or appends a new entry.
fn insert_or_replace(v: &mut Vec<RegisteredApp>, key: String, path: String)
    requires
        unique_keys(old(v).deep_view()),
    ensures
        unique_keys(final(v).deep_view()),
        assoc_map(final(v).deep_view()) == assoc_map(old(v).deep_view()).insert(key@, path@),
        forall|i: int|
            0 <= i < final(v).deep_view().len() ==> #[trigger] final(v).deep_view()[i].key == key@
                || has_key(old(v).deep_view(), final(v).deep_view()[i].key),
{
    let ghost es = v.deep_view();
    let n = v.len();
    let mut idx: usize = 0;
    while idx < n
        invariant
            0 <= idx <= n,
            n == es.len(),
            es == v.deep_view(),
            v@ == old(v)@,
            es == old(v).deep_view(),
            unique_keys(es),
            forall|k: int| 0 <= k < idx ==> #[trigger] es[k].key != key@,
        decreases n - idx,
    {
        proof {
            assert(es[idx as int] == v@[idx as int]@);
        }
        if str_eq(v[idx].key.as_str(), key.as_str()) {
            let ghost target = RegisteredAppView { key: key@, path: path@ };
            let _ = v.remove(idx);
            v.insert(idx, RegisteredApp { key, path });
            proof {
                let fs = v.deep_view();
                assert(fs =~= es.update(idx as int, target)) by {
                    es.remove(idx as int).insert_ensures(idx as int, target);
                    assert(forall|k: int| 0 <= k < fs.len() ==> fs[k] == #[trigger] v@[k]@);
                }
                assert(es[idx as int].key == key@);
                lemma_assoc_update(es, idx as int, path@);
                assert forall|i: int, j: int| 0 <= i < j < fs.len() implies #[trigger] fs[i].key
                    != #[trigger] fs[j].key by {
                    if i == idx as int {
                        assert(fs[i].key == es[idx as int].key);
                        assert(fs[j].key == es[j].key);
                        assert(es[idx as int].key != es[j].key);
                    } else if j == idx as int {
                        assert(fs[j].key == es[idx as int].key);
                        assert(fs[i].key == es[i].key);
                        assert(es[i].key != es[idx as int].key);
                    } else {
                        assert(fs[i].key == es[i].key);
                        assert(fs[j].key == es[j].key);
                    }
                }
                assert forall|i: int| 0 <= i < fs.len() implies #[trigger] fs[i].key == key@
                    || has_key(es, fs[i].key) by {
                    if i != idx as int {
                        assert(es[i].key == fs[i].key);
                    }
                }
            }
            return ;
        }
        idx = idx + 1;
    }
    let ghost target = RegisteredAppView { key: key@, path: path@ };
    v.push(RegisteredApp { key, path });
    proof {
        let fs = v.deep_view();
        assert(fs =~= es.push(target)) by {
            assert(forall|k: int| 0 <= k < fs.len() ==> fs[k] == #[trigger] v@[k]@);
        }
        assert(fs.drop_last() =~= es);
        assert forall|i: int| 0 <= i < fs.len() implies #[trigger] fs[i].key == key@ || has_key(
            es,
            fs[i].key,
        ) by {
            if i < es.len() {
                assert(es[i].key == fs[i].key);
            }
        }
    }
}

/// Whether some entry carries this key.
pub open spec fn has_key(s: Seq<RegisteredAppView>, k: Seq<char>) -> bool {
    exists|i: int| 0 <= i < s.len() && #[trigger] s[i].key == k
}

/// Overwriting the value at an existing key updates the map at that key only.
proof fn lemma_assoc_update(s: Seq<RegisteredAppView>, i: int, p: Seq<char>)
    requires
        unique_keys(s),
        0 <= i < s.len(),
    ensures
        assoc_map(s.update(i, RegisteredAppView { key: s[i].key, path: p })) == assoc_map(
            s,
        ).insert(s[i].key, p),
    decreases s.len(),
{
    let x = RegisteredAppView { key: s[i].key, path: p };
    let t = s.update(i, x);
    if i == s.len() - 1 {
        assert(t.drop_last() =~= s.drop_last());
        assert(t.last() == x);
        assert(assoc_map(t) == assoc_map(s.drop_last()).insert(s[i].key, p));
        assert(assoc_map(s.drop_last()).insert(s.last().key, s.last().path).insert(s[i].key, p)
            =~= assoc_map(s.drop_last()).insert(s[i].key, p));
    } else {
        assert(unique_keys(s.drop_last())) by {
            assert(forall|k: int|
                0 <= k < s.drop_last().len() ==> #[trigger] s.drop_last()[k] == s[k]);
        }
        assert(t.drop_last() =~= s.drop_last().update(i, x));
        assert(s.drop_last()[i] == s[i]);
        lemma_assoc_update(s.drop_last(), i, p);
        assert(t.last() == s.last());
        assert(assoc_map(t) == assoc_map(s.drop_last()).insert(s[i].key, p).insert(
            s.last().key,
            s.last().path,
        ));
        assert(s[i].key != s.last().key);
        assert(assoc_map(s.drop_last()).insert(s[i].key, p).insert(s.last().key, s.last().path)
            =~= assoc_map(s.drop_last()).insert(s.last().key, s.last().path).insert(s[i].key, p));
    }
}

/// The normalized-name → path map described by a merged application list:
/// each entry inserted in order, a later normalized-name collision
/// overwriting an earlier entry.
pub open spec fn registry_map_of(s: Seq<AppView>) -> Map<Seq<char>, Seq<char>>
    decreases s.len(),
{
    if s.len() == 0 {
        Map::empty()
    } else {
        registry_map_of(s.drop_last()).insert(normalize_chars(s.last().name), s.last().path)
    }
}

/// The process-wide application registry: built once at startup, read-only
/// thereafter.
pub struct AppRegistry {
    /// Normalized name → executable path, keys unique.
    pub apps: Vec<RegisteredApp>,
    /// Sorted, deduplicated display names across all sources.
    pub display_names: Vec<String>,
}

impl AppRegistry {
    /// The lookup entries, in their deterministic scan order.
    pub open spec fn entries(self) -> Seq<RegisteredAppView> {
        self.apps.deep_view()
    }

    /// The normalized-name → path map.
    pub open spec fn apps_map(self) -> Map<Seq<char>, Seq<char>> {
        assoc_map(self.entries())
    }

    /// Well-formedness: keys are unique and in normalized form, and the
    /// display-name list is strictly sorted.
    pub open spec fn wf(self) -> bool {
        &&& unique_keys(self.entries())
        &&& forall|i: int|
            0 <= i < self.entries().len() ==> normalize_chars(#[trigger] self.entries()[i].key)
                == self.entries()[i].key
        &&& sorted_strict(self.display_names.deep_view())
    }
}

/// Builds the registry from the concatenated discoveries: appends the
/// mandatory fallbacks, deduplicates by raw name (first-seen-wins), and
/// produces the normalized lookup map and the sorted display-name list.
pub fn build_app_registry(apps: Vec<InstalledApp>) -> (r: AppRegistry)
    ensures
        r.wf(),
        r.apps_map() == registry_map_of(dedup_by_name(with_fallbacks(apps.deep_view()))),
        forall|y: Seq<char>|
            r.display_names.deep_view().contains(y) <==> has_display_name(
                dedup_by_name(with_fallbacks(apps.deep_view())),
                y,
            ),
{
    let mut v = apps;
    push_fallback(&mut v, "notepad", "notepad.exe");
    push_fallback(&mut v, "explorer", "explorer.exe");
    push_fallback(&mut v, "cmd", "cmd.exe");
    let merged = dedup_apps(v);
    let ghost mv = merged.deep_view();

    let n = merged.len();
    let mut display: Vec<String> = Vec::new();
    let mut i: usize = 0;
    while i < n
        invariant
            0 <= i <= n,
            n == mv.len(),
            mv == merged.deep_view(),
            forall|y: Seq<char>|
                display.deep_view().contains(y) <==> exists|j: int|
                    0 <= j < i && #[trigger] mv[j].display_name == y,
        decreases n - i,
    {
        let ghost prev = display.deep_view();
        proof {
            assert(mv[i as int] == merged@[i as int]@);
        }
        display.push(merged[i].display_name.clone());
        proof {
            let nd = display.deep_view();
            assert(nd =~= prev.push(mv[i as int].display_name)) by {
                assert(forall|k: int| 0 <= k < nd.len() ==> nd[k] == #[trigger] display@[k]@);
            }
            assert forall|y: Seq<char>|
                nd.contains(y) <==> exists|j: int|
                    0 <= j < i + 1 && #[trigger] mv[j].display_name == y by {
                if nd.contains(y) {
                    let k = choose|k: int| 0 <= k < nd.len() && nd[k] == y;
                    if k < prev.len() {
                        assert(prev[k] == y);
                        assert(prev.contains(y));
                    } else {
                        assert(mv[i as int].display_name == y);
                    }
                }
                if exists|j: int| 0 <= j < i + 1 && #[trigger] mv[j].display_name == y {
                    let j = choose|j: int| 0 <= j < i + 1 && #[trigger] mv[j].display_name == y;
                    if j < i as int {
                        assert(prev.contains(y));
                        let k = choose|k: int| 0 <= k < prev.len() && prev[k] == y;
                        assert(nd[k] == y);
                    } else {
                        assert(nd[nd.len() - 1] == y);
                    }
                }
            }
        }
        i = i + 1;
    }
    let display_sorted = sort_names(display);
    let display_names = dedup_sorted_names(display_sorted);

    let mut table: Vec<RegisteredApp> = Vec::new();
    let mut i2: usize = 0;
    while i2 < n
        invariant
            0 <= i2 <= n,
            n == mv.len(),
            mv == merged.deep_view(),
            unique_keys(table.deep_view()),
            assoc_map(table.deep_view()) == registry_map_of(mv.take(i2 as int)),
            forall|k: int|
                0 <= k < table.deep_view().len() ==> normalize_chars(
                    #[trigger] table.deep_view()[k].key,
                ) == table.deep_view()[k].key,
        decreases n - i2,
    {
        let ghost prev = table.deep_view();
        proof {
            assert(mv[i2 as int] == merged@[i2 as int]@);
            assert(mv.take(i2 + 1).drop_last() =~= mv.take(i2 as int));
            assert(mv.take(i2 + 1).last() == mv[i2 as int]);
            lemma_normalize_idempotent(mv[i2 as int].name);
        }
        let key = normalize_app_name(merged[i2].name.as_str());
        let path = merged[i2].path.clone();
        insert_or_replace(&mut table, key, path);
        proof {
            assert forall|k: int|
                0 <= k < table.deep_view().len() implies normalize_chars(
                #[trigger] table.deep_view()[k].key,
            ) == table.deep_view()[k].key by {
                if table.deep_view()[k].key != normalize_chars(mv[i2 as int].name) {
                    assert(has_key(prev, table.deep_view()[k].key));
                    let m = choose|m: int|
                        0 <= m < prev.len() && #[trigger] prev[m].key == table.deep_view()[k].key;
                }
            }
        }
        i2 = i2 + 1;
    }
    proof {
        assert(mv.take(n as int) =~= mv);
    }
    AppRegistry { apps: table, display_names }
}

} // verus!
