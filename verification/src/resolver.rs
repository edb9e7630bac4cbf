//! The Resolver: finds the best matching registry entry for a free-text
//! query under the three-tier match policy — exact key lookup, then prefix
//! matches, then substring matches, the latter only for queries of at least
//! four normalized characters.  Candidates are scanned in the registry's
//! deterministic entry order; of equally scored matches the first wins.

use vstd::prelude::*;
use vstd::string::StrSliceExecFns;

use crate::normalize::normalize_app_name;
use crate::normalize::normalize_chars;
use crate::registry::lemma_assoc_map_characterization;
use crate::registry::AppRegistry;
use crate::text::contains_seq;
use crate::text::contains_str;
use crate::text::starts_with_str;
use crate::text::str_eq;

verus! {

/// The score of a registry key against a normalized query: a prefix match
/// scores 2000 plus the key length, a substring match (attempted only for
/// queries of length at least 4) scores 1000 plus the key length, anything
/// else scores zero.
pub open spec fn key_match_score(k: Seq<char>, q: Seq<char>) -> int {
    if q.is_prefix_of(k) {
        2000 + k.len() as int
    } else if q.len() >= 4 && contains_seq(k, q) {
        1000 + k.len() as int
    } else {
        0
    }
}

/// Whether a registry key matches a normalized query at all.
pub open spec fn key_matches(k: Seq<char>, q: Seq<char>) -> bool {
    key_match_score(k, q) > 0
}

/// A query shorter than four normalized characters can only match a key as a
/// prefix: substring matching is disabled for it.
pub proof fn lemma_short_query_matches_are_prefix(k: Seq<char>, q: Seq<char>)
    requires
        q.len() < 4,
        key_matches(k, q),
    ensures
        q.is_prefix_of(k),
{
}

/// A prefix match outranks a substring-only match whenever the
/// substring-matched key is not longer than the prefix-matched key by a
/// thousand characters or more.
pub proof fn lemma_prefix_beats_substring(k1: Seq<char>, k2: Seq<char>, q: Seq<char>)
    requires
        q.is_prefix_of(k1),
        !q.is_prefix_of(k2),
        k2.len() < 1000 + k1.len(),
    ensures
        key_match_score(k2, q) < key_match_score(k1, q),
{
}

/// What resolution must return for a registry and a normalized query: the
/// exact entry when the key is registered, else the path of the
/// first-encountered highest-scoring fuzzy match, else nothing.
pub open spec fn resolution_spec(registry: AppRegistry, q: Seq<char>, res: Option<Seq<char>>) -> bool {
    let es = registry.entries();
    if registry.apps_map().contains_key(q) {
        res == Some(registry.apps_map()[q])
    } else if exists|i: int| 0 <= i < es.len() && #[trigger] key_matches(es[i].key, q) {
        exists|i: int|
            {
                &&& 0 <= i < es.len()
                &&& #[trigger] key_matches(es[i].key, q)
                &&& res == Some(es[i].path)
                &&& forall|j: int|
                    0 <= j < es.len() && #[trigger] key_matches(es[j].key, q) ==> key_match_score(
                        es[j].key,
                        q,
                    ) <= key_match_score(es[i].key, q)
                &&& forall|j: int|
                    0 <= j < i && #[trigger] key_matches(es[j].key, q) ==> key_match_score(
                        es[j].key,
                        q,
                    ) < key_match_score(es[i].key, q)
            }
    } else {
        res is None
    }
}

/// The view of an optionally returned path.
pub open spec fn opt_path_view(r: Option<String>) -> Option<Seq<char>> {
    match r {
        Some(p) => Some(p@),
        None => None,
    }
}

/// Prefix priority at the level of a whole resolution: when some registered
/// key extends the query as a prefix, and every key is shorter than a
/// thousand characters, whatever resolution returns is the path of a
/// prefix-matched key — a substring-only match never wins.
pub proof fn lemma_resolution_prefers_prefix(
    registry: AppRegistry,
    q: Seq<char>,
    res: Option<Seq<char>>,
)
    requires
        registry.wf(),
        resolution_spec(registry, q, res),
        exists|i: int|
            0 <= i < registry.entries().len() && q.is_prefix_of(
                #[trigger] registry.entries()[i].key,
            ),
        forall|i: int|
            0 <= i < registry.entries().len() ==> (#[trigger] registry.entries()[i].key).len()
                < 1000,
    ensures
        exists|i: int|
            0 <= i < registry.entries().len() && q.is_prefix_of(
                #[trigger] registry.entries()[i].key,
            ) && res == Some(registry.entries()[i].path),
{
    let es = registry.entries();
    let i0 = choose|i: int| 0 <= i < es.len() && q.is_prefix_of(#[trigger] es[i].key);
    if registry.apps_map().contains_key(q) {
        lemma_assoc_map_characterization(es);
        let k = choose|k: int| 0 <= k < es.len() && #[trigger] es[k].key == q;
        assert(q.is_prefix_of(es[k].key)) by {
            assert(es[k].key.subrange(0, q.len() as int) =~= q);
        }
        assert(registry.apps_map()[q] == es[k].path);
    } else {
        assert(key_matches(es[i0].key, q));
        let i = choose|i: int|
            {
                &&& 0 <= i < es.len()
                &&& #[trigger] key_matches(es[i].key, q)
                &&& res == Some(es[i].path)
                &&& forall|j: int|
                    0 <= j < es.len() && #[trigger] key_matches(es[j].key, q) ==> key_match_score(
                        es[j].key,
                        q,
                    ) <= key_match_score(es[i].key, q)
                &&& forall|j: int|
                    0 <= j < i && #[trigger] key_matches(es[j].key, q) ==> key_match_score(
                        es[j].key,
                        q,
                    ) < key_match_score(es[i].key, q)
            };
        assert(key_match_score(es[i0].key, q) <= key_match_score(es[i].key, q));
        if !q.is_prefix_of(es[i].key) {
            assert(key_match_score(es[i].key, q) <= 1000 + es[i].key.len());
            assert(key_match_score(es[i0].key, q) == 2000 + es[i0].key.len() as int);
            assert(es[i].key.len() < 1000);
            assert(false);
        }
    }
}

/// With a normalized query shorter than four characters, a registry that
/// holds no key extending the query as a prefix resolves it to nothing:
/// substring matching is disabled for short queries.
pub proof fn lemma_short_query_resolves_by_prefix_only(
    registry: AppRegistry,
    q: Seq<char>,
    res: Option<Seq<char>>,
)
    requires
        registry.wf(),
        resolution_spec(registry, q, res),
        q.len() < 4,
        forall|i: int|
            0 <= i < registry.entries().len() ==> !q.is_prefix_of(
                #[trigger] registry.entries()[i].key,
            ),
    ensures
        res is None,
{
    let es = registry.entries();
    if registry.apps_map().contains_key(q) {
        lemma_assoc_map_characterization(es);
        let k = choose|k: int| 0 <= k < es.len() && #[trigger] es[k].key == q;
        assert(q.is_prefix_of(es[k].key)) by {
            assert(es[k].key.subrange(0, q.len() as int) =~= q);
        }
        assert(false);
    }
    assert forall|i: int| 0 <= i < es.len() implies !#[trigger] key_matches(es[i].key, q) by {
        if key_matches(es[i].key, q) {
            lemma_short_query_matches_are_prefix(es[i].key, q);
        }
    }
}

/// Resolves a free-text query against the registry.
///
/// The query is normalized like every registry key.  An exact key lookup wins
/// outright; otherwise the highest-scoring fuzzy match wins, the first such
/// entry in registry order on a tie; with no match at all the query resolves
/// to nothing and the caller falls back to OS-native resolution.
pub fn resolve_app(registry: &AppRegistry, query: &str) -> (r: Option<String>)
    requires
        registry.wf(),
    ensures
        resolution_spec(*registry, normalize_chars(query@), opt_path_view(r)),
{
    let ghost es = registry.entries();
    proof {
        lemma_assoc_map_characterization(es);
    }
    let q = normalize_app_name(query);

    let n = registry.apps.len();
    let mut i: usize = 0;
    while i < n
        invariant
            0 <= i <= n,
            n == es.len(),
            es == registry.entries(),
            q@ == normalize_chars(query@),
            registry.wf(),
            forall|k: int| 0 <= k < i ==> #[trigger] es[k].key != q@,
        decreases n - i,
    {
        proof {
            assert(es[i as int] == registry.apps@[i as int]@);
        }
        if str_eq(registry.apps[i].key.as_str(), q.as_str()) {
            proof {
                assert(es[i as int].key == q@);
                lemma_assoc_map_characterization(es);
            }
            return Some(registry.apps[i].path.clone());
        }
        i = i + 1;
    }
    proof {
        if registry.apps_map().contains_key(q@) {
            let k = choose|k: int| 0 <= k < es.len() && #[trigger] es[k].key == q@;
            assert(false);
        }
    }

    let qlen = q.unicode_len();
    let mut best: Option<usize> = None;
    let mut best_score: u128 = 0;
    let mut j: usize = 0;
    while j < n
        invariant
            0 <= j <= n,
            n == es.len(),
            es == registry.entries(),
            q@ == normalize_chars(query@),
            qlen == q@.len(),
            registry.wf(),
            match best {
                Some(b) => 0 <= b < j && key_matches(es[b as int].key, q@) && best_score as int
                    == key_match_score(es[b as int].key, q@) && (forall|k: int|
                    0 <= k < j && #[trigger] key_matches(es[k].key, q@) ==> key_match_score(
                        es[k].key,
                        q@,
                    ) <= key_match_score(es[b as int].key, q@)) && (forall|k: int|
                    0 <= k < b && #[trigger] key_matches(es[k].key, q@) ==> key_match_score(
                        es[k].key,
                        q@,
                    ) < key_match_score(es[b as int].key, q@)),
                None => forall|k: int| 0 <= k < j ==> !#[trigger] key_matches(es[k].key, q@),
            },
        decreases n - j,
    {
        let entry = &registry.apps[j];
        proof {
            assert(es[j as int] == registry.apps@[j as int]@);
        }
        let klen = entry.key.unicode_len();
        let score: u128 = if starts_with_str(entry.key.as_str(), q.as_str()) {
            2000 + klen as u128
        } else if qlen >= 4 && contains_str(entry.key.as_str(), q.as_str()) {
            1000 + klen as u128
        } else {
            0
        };
        proof {
            assert(score as int == key_match_score(es[j as int].key, q@));
        }
        if score > 0 {
            match best {
                Some(_) => {
                    if score > best_score {
                        best = Some(j);
                        best_score = score;
                    }
                },
                None => {
                    best = Some(j);
                    best_score = score;
                },
            }
        }
        j = j + 1;
    }
    match best {
        Some(b) => {
            proof {
                assert(es[b as int] == registry.apps@[b as int]@);
            }
            Some(registry.apps[b].path.clone())
        },
        None => None,
    }
}

} // verus!
