//! The sorted, deduplicated display-name list of the registry.

use vstd::prelude::*;

use crate::order::lemma_lex_le_antisymmetric;
use crate::order::lemma_lex_le_total;
use crate::order::lemma_lex_le_transitive;
use crate::order::lex_le;
use crate::order::sorted_le;
use crate::order::sorted_strict;
use crate::order::str_le;
use crate::text::str_eq;

verus! {

/// Inserts a name into a sorted list, keeping it sorted.
fn insert_sorted(out: &mut Vec<String>, x: String)
    requires
        sorted_le(old(out).deep_view()),
    ensures
        sorted_le(final(out).deep_view()),
        forall|y: Seq<char>|
            final(out).deep_view().contains(y) <==> (old(out).deep_view().contains(y) || y == x@),
{
    let ghost dv = out.deep_view();
    let n = out.len();
    let mut pos: usize = 0;
    while pos < n && str_le(out[pos].as_str(), x.as_str())
        invariant
            0 <= pos <= n,
            n == dv.len(),
            dv == out.deep_view(),
            forall|k: int| 0 <= k < pos ==> lex_le(#[trigger] dv[k], x@),
        decreases n - pos,
    {
        proof {
            assert(dv[pos as int] == out@[pos as int]@);
        }
        pos = pos + 1;
    }
    proof {
        if pos < n {
            assert(dv[pos as int] == out@[pos as int]@);
            lemma_lex_le_total(dv[pos as int], x@);
        }
    }
    out.insert(pos, x);
    proof {
        let new_dv = out.deep_view();
        assert(new_dv =~= dv.insert(pos as int, x@)) by {
            dv.insert_ensures(pos as int, x@);
            assert(forall|k: int|
                0 <= k < new_dv.len() ==> new_dv[k] == #[trigger] out@[k]@);
        }
        dv.insert_ensures(pos as int, x@);
        assert forall|i: int, j: int| 0 <= i < j < new_dv.len() implies lex_le(
            #[trigger] new_dv[i],
            #[trigger] new_dv[j],
        ) by {
            let p = pos as int;
            if i < p && j == p {
                assert(new_dv[i] == dv[i]);
            } else if i == p && j > p {
                assert(new_dv[j] == dv[j - 1]);
                if j > p + 1 {
                    lemma_lex_le_transitive(x@, dv[p], dv[j - 1]);
                } else {
                    assert(lex_le(x@, dv[j - 1]));
                }
            } else if i < p && j > p {
                assert(new_dv[i] == dv[i] && new_dv[j] == dv[j - 1]);
                if i == j - 1 {
                    lemma_lex_le_total(dv[i], dv[i]);
                } else {
                    assert(lex_le(dv[i], dv[j - 1]));
                }
            } else if i > p && j > p {
                assert(new_dv[i] == dv[i - 1] && new_dv[j] == dv[j - 1]);
            } else {
                assert(i < p && j < p);
                assert(new_dv[i] == dv[i] && new_dv[j] == dv[j]);
            }
        }
        assert forall|y: Seq<char>|
            new_dv.contains(y) <==> (dv.contains(y) || y == x@) by {
            if new_dv.contains(y) {
                let k = choose|k: int| 0 <= k < new_dv.len() && new_dv[k] == y;
                if k < pos as int {
                    assert(dv[k] == y);
                } else if k == pos as int {
                } else {
                    assert(dv[k - 1] == y);
                }
            }
            if dv.contains(y) {
                let k = choose|k: int| 0 <= k < dv.len() && dv[k] == y;
                if k < pos as int {
                    assert(new_dv[k] == y);
                } else {
                    assert(new_dv[k + 1] == y);
                }
            }
            if y == x@ {
                assert(new_dv[pos as int] == y);
            }
        }
    }
}

/// Sorts a list of names in lexicographic order.  The result holds exactly
/// the names of the input.
pub fn sort_names(names: Vec<String>) -> (r: Vec<String>)
    ensures
        sorted_le(r.deep_view()),
        forall|y: Seq<char>| r.deep_view().contains(y) <==> names.deep_view().contains(y),
{
    let ghost dv = names.deep_view();
    let n = names.len();
    let mut out: Vec<String> = Vec::new();
    let mut i: usize = 0;
    while i < n
        invariant
            0 <= i <= n,
            n == dv.len(),
            dv == names.deep_view(),
            sorted_le(out.deep_view()),
            forall|y: Seq<char>|
                out.deep_view().contains(y) <==> dv.take(i as int).contains(y),
        decreases n - i,
    {
        let ghost prev = out.deep_view();
        let x = names[i].clone();
        proof {
            assert(x@ == dv[i as int]);
        }
        insert_sorted(&mut out, x);
        proof {
            assert forall|y: Seq<char>|
                out.deep_view().contains(y) <==> dv.take(i + 1).contains(y) by {
                assert(dv.take(i + 1) =~= dv.take(i as int).push(dv[i as int]));
                if out.deep_view().contains(y) {
                    if y == dv[i as int] {
                        assert(dv.take(i + 1)[i as int] == y);
                    } else {
                        assert(prev.contains(y));
                        let k = choose|k: int|
                            0 <= k < dv.take(i as int).len() && dv.take(i as int)[k] == y;
                        assert(dv.take(i + 1)[k] == y);
                    }
                }
                if dv.take(i + 1).contains(y) {
                    let k = choose|k: int| 0 <= k < dv.take(i + 1).len() && #[trigger] dv.take(i + 1)[k] == y;
                    if k == i as int {
                        assert(y == dv[i as int]);
                    } else {
                        assert(dv.take(i as int)[k] == y);
                    }
                }
            }
        }
        i = i + 1;
    }
    proof {
        assert(dv.take(n as int) =~= dv);
    }
    out
}

/// Removes duplicates from a sorted list of names.  The result is strictly
/// sorted and holds exactly the names of the input.
pub fn dedup_sorted_names(names: Vec<String>) -> (r: Vec<String>)
    requires
        sorted_le(names.deep_view()),
    ensures
        sorted_strict(r.deep_view()),
        forall|y: Seq<char>| r.deep_view().contains(y) <==> names.deep_view().contains(y),
{
    let ghost dv = names.deep_view();
    let n = names.len();
    let mut out: Vec<String> = Vec::new();
    let mut i: usize = 0;
    while i < n
        invariant
            0 <= i <= n,
            n == dv.len(),
            dv == names.deep_view(),
            sorted_le(dv),
            sorted_strict(out.deep_view()),
            i > 0 ==> out.deep_view().len() > 0 && out.deep_view().last() == dv[i - 1],
            i == 0 ==> out.deep_view().len() == 0,
            forall|y: Seq<char>|
                out.deep_view().contains(y) <==> dv.take(i as int).contains(y),
        decreases n - i,
    {
        let ghost prev = out.deep_view();
        let push_needed = if out.len() == 0 {
            true
        } else {
            let last_idx = out.len() - 1;
            proof {
                assert(prev[last_idx as int] == out@[last_idx as int]@);
            }
            !str_eq(out[last_idx].as_str(), names[i].as_str())
        };
        proof {
            assert(dv[i as int] == names@[i as int]@);
        }
        if push_needed {
            let x = names[i].clone();
            out.push(x);
            proof {
                let new_dv = out.deep_view();
                assert(new_dv =~= prev.push(dv[i as int])) by {
                    assert(forall|k: int|
                        0 <= k < new_dv.len() ==> new_dv[k] == #[trigger] out@[k]@);
                }
                assert forall|a: int, b: int| 0 <= a < b < new_dv.len() implies lex_le(
                    #[trigger] new_dv[a],
                    #[trigger] new_dv[b],
                ) && new_dv[a] != new_dv[b] by {
                    if b == new_dv.len() - 1 {
                        assert(new_dv[b] == dv[i as int]);
                        assert(prev.len() > 0);
                        assert(i > 0);
                        assert(prev.last() == dv[i - 1]);
                        assert(prev.last() != dv[i as int]);
                        assert(lex_le(dv[i - 1], dv[i as int]));
                        if a == prev.len() - 1 {
                            assert(new_dv[a] == prev.last());
                        } else {
                            assert(new_dv[a] == prev[a]);
                            assert(lex_le(prev[a], prev.last()) && prev[a] != prev.last());
                            lemma_lex_le_transitive(prev[a], prev.last(), dv[i as int]);
                            if new_dv[a] == new_dv[b] {
                                lemma_lex_le_antisymmetric(dv[i as int], prev.last());
                                assert(false);
                            }
                        }
                    } else {
                        assert(new_dv[a] == prev[a] && new_dv[b] == prev[b]);
                    }
                }
                assert forall|y: Seq<char>|
                    out.deep_view().contains(y) <==> dv.take(i + 1).contains(y) by {
                    assert(dv.take(i + 1) =~= dv.take(i as int).push(dv[i as int]));
                    if out.deep_view().contains(y) {
                        let k = choose|k: int| 0 <= k < new_dv.len() && new_dv[k] == y;
                        if k == new_dv.len() - 1 {
                            assert(dv.take(i + 1)[i as int] == y);
                        } else {
                            assert(prev.contains(y));
                            let m = choose|m: int|
                                0 <= m < dv.take(i as int).len() && dv.take(i as int)[m] == y;
                            assert(dv.take(i + 1)[m] == y);
                        }
                    }
                    if dv.take(i + 1).contains(y) {
                        let k = choose|k: int|
                            0 <= k < dv.take(i + 1).len() && #[trigger] dv.take(i + 1)[k] == y;
                        if k == i as int {
                            assert(new_dv[new_dv.len() - 1] == y);
                        } else {
                            assert(dv.take(i as int)[k] == y);
                            assert(prev.contains(y));
                            let m = choose|m: int| 0 <= m < prev.len() && prev[m] == y;
                            assert(new_dv[m] == y);
                        }
                    }
                }
            }
        } else {
            proof {
                assert(prev.last() == dv[i as int]);
                assert forall|y: Seq<char>|
                    out.deep_view().contains(y) <==> dv.take(i + 1).contains(y) by {
                    assert(dv.take(i + 1) =~= dv.take(i as int).push(dv[i as int]));
                    if out.deep_view().contains(y) {
                        let m = choose|m: int|
                            0 <= m < dv.take(i as int).len() && dv.take(i as int)[m] == y;
                        assert(dv.take(i + 1)[m] == y);
                    }
                    if dv.take(i + 1).contains(y) {
                        let k = choose|k: int|
                            0 <= k < dv.take(i + 1).len() && #[trigger] dv.take(i + 1)[k] == y;
                        if k == i as int {
                            assert(prev.contains(y)) by {
                                assert(prev[prev.len() - 1] == y);
                            }
                        } else {
                            assert(dv.take(i as int)[k] == y);
                        }
                    }
                }
            }
        }
        i = i + 1;
    }
    proof {
        assert(dv.take(n as int) =~= dv);
    }
    out
}

/// Two strictly sorted lists with the same members are the same list: the
/// sorted, deduplicated projection of a name set is unique.
pub proof fn lemma_sorted_strict_unique(a: Seq<Seq<char>>, b: Seq<Seq<char>>)
    requires
        sorted_strict(a),
        sorted_strict(b),
        forall|y: Seq<char>| a.contains(y) <==> b.contains(y),
    ensures
        a == b,
    decreases a.len(),
{
    if a.len() == 0 {
        if b.len() > 0 {
            assert(a.contains(b[0]));
            assert(false);
        }
        assert(a =~= b);
    } else {
        assert(b.contains(a.last())) by {
            assert(a.contains(a.last()));
        }
        assert(a.contains(b.last())) by {
            assert(b.contains(b.last()));
        }
        let ka = choose|k: int| 0 <= k < b.len() && b[k] == a.last();
        let kb = choose|k: int| 0 <= k < a.len() && a[k] == b.last();
        assert(a.last() == b.last()) by {
            if ka < b.len() - 1 {
                assert(lex_le(b[ka], b.last()) && b[ka] != b.last());
            }
            if kb < a.len() - 1 {
                assert(lex_le(a[kb], a.last()) && a[kb] != a.last());
            }
            if a.last() != b.last() {
                assert(lex_le(a.last(), b.last()));
                assert(lex_le(b.last(), a.last()));
                lemma_lex_le_antisymmetric(a.last(), b.last());
            }
        }
        assert forall|y: Seq<char>| a.drop_last().contains(y) <==> b.drop_last().contains(y) by {
            if a.drop_last().contains(y) {
                let k = choose|k: int| 0 <= k < a.len() - 1 && a[k] == y;
                assert(a.contains(y));
                assert(y != a.last());
                let m = choose|m: int| 0 <= m < b.len() && b[m] == y;
                assert(m < b.len() - 1) by {
                    if m == b.len() - 1 {
                        assert(y == b.last());
                    }
                }
                assert(b.drop_last()[m] == y);
            }
            if b.drop_last().contains(y) {
                let k = choose|k: int| 0 <= k < b.len() - 1 && b[k] == y;
                assert(b.contains(y));
                assert(y != b.last());
                let m = choose|m: int| 0 <= m < a.len() && a[m] == y;
                assert(m < a.len() - 1) by {
                    if m == a.len() - 1 {
                        assert(y == a.last());
                    }
                }
                assert(a.drop_last()[m] == y);
            }
        }
        assert(sorted_strict(a.drop_last()));
        assert(sorted_strict(b.drop_last()));
        lemma_sorted_strict_unique(a.drop_last(), b.drop_last());
        assert(a.drop_last().len() == b.drop_last().len());
        assert forall|i: int| 0 <= i < a.len() implies a[i] == b[i] by {
            if i < a.len() - 1 {
                assert(a.drop_last()[i] == b.drop_last()[i]);
            }
        }
        assert(a =~= b);
    }
}

} // verus!
