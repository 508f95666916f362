//! Point-in-time snapshots of an artifact set and their diffs. A snapshot
//! stores a canonicalized artifact list: sorted by derived identity key,
//! with adjacent key-duplicates collapsed. Diffing two snapshots is pure set
//! difference over the derived keys.
use vstd::prelude::*;
use vstd::seq_lib::*;

use crate::engine::{format_key, now_utc_seconds, spec_key, Artifact, TargetOs};
use crate::strops::{
    lemma_lex_le_antisymmetric, lemma_lex_le_total, lemma_lex_le_transitive, lex_le, lex_lt,
    str_eq, str_le,
};

verus! {

/// A persisted capture of one collection run: OS, Unix-seconds timestamp,
/// and the canonicalized artifact list. Rules are deliberately not embedded,
/// so the same snapshot can be diffed under an evolving rule set.
#[derive(Debug)]
pub struct ArtifactSnapshot {
    pub os: TargetOs,
    pub collected_at_utc: i64,
    pub artifacts: Vec<Artifact>,
}

/// The added/removed artifact lists that comparing two snapshots yields.
#[derive(Debug)]
pub struct SnapshotDelta {
    pub added: Vec<Artifact>,
    pub removed: Vec<Artifact>,
}

/// Non-strictly sorted by derived key.
pub open spec fn sorted_by_key(s: Seq<Artifact>) -> bool {
    forall|i: int, j: int|
        0 <= i < j < s.len() ==> lex_le(spec_key(#[trigger] s[i]), spec_key(#[trigger] s[j]))
}

/// Strictly sorted by derived key: sorted and all keys distinct.
pub open spec fn strictly_sorted_by_key(s: Seq<Artifact>) -> bool {
    forall|i: int, j: int|
        0 <= i < j < s.len() ==> lex_lt(spec_key(#[trigger] s[i]), spec_key(#[trigger] s[j]))
}

/// Some artifact in the list has the given derived key.
pub open spec fn key_in(s: Seq<Artifact>, k: Seq<char>) -> bool {
    exists|i: int| 0 <= i < s.len() && spec_key(#[trigger] s[i]) == k
}

/// In a strictly key-sorted list all derived keys are distinct: collapsing
/// adjacent duplicates after sorting leaves exactly one artifact per key.
pub proof fn lemma_sorted_keys_unique(s: Seq<Artifact>)
    requires
        strictly_sorted_by_key(s),
    ensures
        forall|i: int, j: int|
            0 <= i < j < s.len() ==> spec_key(#[trigger] s[i]) != spec_key(#[trigger] s[j]),
{
}

fn sort_by_key(mut artifacts: Vec<Artifact>) -> (r: Vec<Artifact>)
    ensures
        sorted_by_key(r@),
        r@.to_multiset() == artifacts@.to_multiset(),
{
    let ghost orig = artifacts@.to_multiset();
    let mut out: Vec<Artifact> = Vec::new();
    proof {
        broadcast use vstd::seq_lib::group_to_multiset_ensures;

        assert(out@.to_multiset().add(artifacts@.to_multiset()) =~= orig);
    }
    while artifacts.len() > 0
        invariant
            sorted_by_key(out@),
            out@.to_multiset().add(artifacts@.to_multiset()) == orig,
        decreases artifacts@.len(),
    {
        let ghost pre = artifacts@;
        let x = artifacts.remove(0);
        proof {
            broadcast use vstd::seq_lib::group_to_multiset_ensures;

            assert(artifacts@.to_multiset() =~= pre.to_multiset().remove(x));
            assert(pre.to_multiset().count(x) > 0);
        }
        let kx = format_key(&x);
        // Insertion after all keys less-or-equal keeps the sort stable.
        let mut pos: usize = 0;
        while pos < out.len() && str_le(format_key(&out[pos]).as_str(), kx.as_str())
            invariant
                pos <= out@.len(),
                kx@ == spec_key(x),
                forall|k: int| 0 <= k < pos ==> lex_le(spec_key(#[trigger] out@[k]), spec_key(x)),
            decreases out@.len() - pos,
        {
            pos = pos + 1;
        }
        proof {
            if pos < out@.len() {
                lemma_lex_le_total(spec_key(out@[pos as int]), spec_key(x));
            }
        }
        let ghost s = out@;
        let ghost p = pos as int;
        out.insert(pos, x);
        proof {
            broadcast use vstd::seq_lib::group_to_multiset_ensures;

            assert(out@ == s.insert(p, x));
            to_multiset_insert(s, p, x);
            assert(s.to_multiset().insert(x).add(pre.to_multiset().remove(x)) =~= s.to_multiset()
                .add(pre.to_multiset()));
            s.insert_ensures(p, x);
            assert forall|i: int, j: int| 0 <= i < j < out@.len() implies lex_le(
                spec_key(#[trigger] out@[i]),
                spec_key(#[trigger] out@[j]),
            ) by {
                if j < p {
                } else if i < p && j == p {
                } else if i < p && j > p {
                    assert(out@[j] == s[j - 1]);
                } else if i == p {
                    assert(out@[j] == s[j - 1]);
                    if p < j - 1 {
                        lemma_lex_le_transitive(
                            spec_key(x),
                            spec_key(s[p]),
                            spec_key(s[j - 1]),
                        );
                    }
                } else {
                    assert(out@[i] == s[i - 1]);
                    assert(out@[j] == s[j - 1]);
                }
            }
        }
    }
    out
}

fn dedup_by_key(sorted: &Vec<Artifact>) -> (r: Vec<Artifact>)
    requires
        sorted_by_key(sorted@),
    ensures
        strictly_sorted_by_key(r@),
        forall|i: int| 0 <= i < r@.len() ==> sorted@.contains(#[trigger] r@[i]),
        forall|j: int| 0 <= j < sorted@.len() ==> key_in(r@, spec_key(#[trigger] sorted@[j])),
{
    let mut out: Vec<Artifact> = Vec::new();
    let mut i: usize = 0;
    while i < sorted.len()
        invariant
            i <= sorted@.len(),
            sorted_by_key(sorted@),
            strictly_sorted_by_key(out@),
            forall|k: int| 0 <= k < out@.len() ==> sorted@.contains(#[trigger] out@[k]),
            forall|j: int| 0 <= j < i ==> key_in(out@, spec_key(#[trigger] sorted@[j])),
            out@.len() > 0 ==> i > 0 && spec_key(out@.last()) == spec_key(sorted@[i - 1]),
            out@.len() == 0 ==> i == 0,
        decreases sorted@.len() - i,
    {
        let a = &sorted[i];
        let keep = if out.len() == 0 {
            true
        } else {
            let klast = format_key(&out[out.len() - 1]);
            let ka = format_key(a);
            !str_eq(klast.as_str(), ka.as_str())
        };
        let ghost pre = out@;
        if keep {
            out.push(a.clone());
            proof {
                assert(out@.last() == sorted@[i as int]);
                assert(sorted@.contains(sorted@[i as int]));
                if pre.len() > 0 {
                    assert(lex_le(spec_key(pre.last()), spec_key(sorted@[i as int])));
                    assert forall|p: int, q: int| 0 <= p < q < out@.len() implies lex_lt(
                        spec_key(#[trigger] out@[p]),
                        spec_key(#[trigger] out@[q]),
                    ) by {
                        assert(out@[p] == pre[p]);
                        if q == out@.len() - 1 {
                            let kn = spec_key(out@[q]);
                            let kp = spec_key(pre[p]);
                            let kl = spec_key(pre.last());
                            assert(lex_le(kl, kn));
                            assert(kl != kn);
                            if p == pre.len() - 1 {
                                assert(kp == kl);
                            } else {
                                assert(lex_lt(kp, kl));
                                lemma_lex_le_transitive(kp, kl, kn);
                                if kp == kn {
                                    lemma_lex_le_antisymmetric(kl, kp);
                                }
                            }
                        } else {
                            assert(out@[q] == pre[q]);
                            assert(lex_lt(spec_key(pre[p]), spec_key(pre[q])));
                        }
                    }
                }
                assert(key_in(out@, spec_key(sorted@[i as int])));
                assert forall|j: int| 0 <= j < i + 1 implies key_in(
                    out@,
                    spec_key(#[trigger] sorted@[j]),
                ) by {
                    if j < i {
                        assert(key_in(pre, spec_key(sorted@[j])));
                        let w = choose|w: int|
                            0 <= w < pre.len() && spec_key(#[trigger] pre[w]) == spec_key(
                                sorted@[j],
                            );
                        assert(out@[w] == pre[w]);
                    }
                }
            }
        } else {
            proof {
                assert(spec_key(out@.last()) == spec_key(sorted@[i as int]));
                let w = pre.len() - 1;
                assert(spec_key(out@[w]) == spec_key(sorted@[i as int]));
                assert(key_in(out@, spec_key(sorted@[i as int])));
            }
        }
        i = i + 1;
    }
    out
}

impl ArtifactSnapshot {
    /// Canonicalize a collection: sort by derived identity key, then collapse
    /// adjacent key-duplicates, so each derived key appears exactly once. The
    /// timestamp is the current UTC time.
    pub fn from_artifacts(os: TargetOs, artifacts: Vec<Artifact>) -> (r: Self)
        ensures
            r.os == os,
            strictly_sorted_by_key(r.artifacts@),
            forall|i: int|
                0 <= i < r.artifacts@.len() ==> artifacts@.contains(#[trigger] r.artifacts@[i]),
            forall|j: int|
                0 <= j < artifacts@.len() ==> key_in(
                    r.artifacts@,
                    spec_key(#[trigger] artifacts@[j]),
                ),
    {
        let ghost input = artifacts@;
        let sorted = sort_by_key(artifacts);
        proof {
            broadcast use vstd::seq_lib::group_to_multiset_ensures;

            assert forall|i: int| 0 <= i < sorted@.len() implies input.contains(
                #[trigger] sorted@[i],
            ) by {
                assert(sorted@.to_multiset().count(sorted@[i]) > 0);
            }
            assert forall|j: int| 0 <= j < input.len() implies sorted@.contains(
                #[trigger] input[j],
            ) by {
                assert(input.to_multiset().count(input[j]) > 0);
            }
        }
        let deduped = dedup_by_key(&sorted);
        proof {
            assert forall|j: int| 0 <= j < input.len() implies key_in(
                deduped@,
                spec_key(#[trigger] input[j]),
            ) by {
                let w = choose|w: int| 0 <= w < sorted@.len() && sorted@[w] == input[j];
                assert(key_in(deduped@, spec_key(sorted@[w])));
            }
            assert forall|i: int| 0 <= i < deduped@.len() implies input.contains(
                #[trigger] deduped@[i],
            ) by {
                let w = choose|w: int| 0 <= w < sorted@.len() && sorted@[w] == deduped@[i];
            }
        }
        ArtifactSnapshot { os, collected_at_utc: now_utc_seconds(), artifacts: deduped }
    }
}

/// The artifacts of `from` whose derived key does not occur in `base`, in
/// the order `from` lists them.
pub open spec fn keys_not_in(from: Seq<Artifact>, base: Seq<Artifact>) -> Seq<Artifact> {
    from.filter(|a: Artifact| !key_in(base, spec_key(a)))
}

fn contains_key(artifacts: &Vec<Artifact>, k: &String) -> (r: bool)
    ensures
        r == key_in(artifacts@, k@),
{
    let mut i: usize = 0;
    while i < artifacts.len()
        invariant
            i <= artifacts@.len(),
            forall|j: int| 0 <= j < i ==> spec_key(#[trigger] artifacts@[j]) != k@,
        decreases artifacts@.len() - i,
    {
        let ka = format_key(&artifacts[i]);
        if str_eq(ka.as_str(), k.as_str()) {
            return true;
        }
        i = i + 1;
    }
    false
}

fn filter_absent(from: &Vec<Artifact>, base: &Vec<Artifact>) -> (r: Vec<Artifact>)
    ensures
        r@ == keys_not_in(from@, base@),
{
    let mut out: Vec<Artifact> = Vec::new();
    let mut i: usize = 0;
    proof {
        reveal(Seq::filter);
        assert(out@ =~= keys_not_in(from@.take(0), base@));
    }
    while i < from.len()
        invariant
            i <= from@.len(),
            out@ == keys_not_in(from@.take(i as int), base@),
        decreases from@.len() - i,
    {
        let a = &from[i];
        let ka = format_key(a);
        let ghost pre = out@;
        if !contains_key(base, &ka) {
            out.push(a.clone());
        }
        proof {
            reveal(Seq::filter);
            assert(from@.take(i as int + 1).drop_last() =~= from@.take(i as int));
            assert(from@.take(i as int + 1).last() == from@[i as int]);
        }
        i = i + 1;
    }
    proof {
        assert(from@.take(from@.len() as int) =~= from@);
    }
    out
}

/// Pure set difference over derived identity keys: an artifact of `current`
/// is added iff its key is absent from `base`, one of `base` is removed iff
/// its key is absent from `current`. Both lists keep the order of the
/// snapshot they come from, i.e. the canonical sort order.
pub fn diff_snapshots(base: &ArtifactSnapshot, current: &ArtifactSnapshot) -> (r: SnapshotDelta)
    ensures
        r.added@ == keys_not_in(current.artifacts@, base.artifacts@),
        r.removed@ == keys_not_in(base.artifacts@, current.artifacts@),
{
    let added = filter_absent(&current.artifacts, &base.artifacts);
    let removed = filter_absent(&base.artifacts, &current.artifacts);
    SnapshotDelta { added, removed }
}

/// Diffing a snapshot against itself yields no additions and no removals.
pub proof fn lemma_diff_self_empty(arts: Seq<Artifact>)
    ensures
        keys_not_in(arts, arts) =~= Seq::<Artifact>::empty(),
{
    lemma_all_keys_present_filter_empty(arts, arts);
}

proof fn lemma_all_keys_present_filter_empty(from: Seq<Artifact>, base: Seq<Artifact>)
    requires
        forall|i: int| 0 <= i < from.len() ==> base.contains(#[trigger] from[i]),
    ensures
        keys_not_in(from, base) =~= Seq::<Artifact>::empty(),
    decreases from.len(),
{
    reveal(Seq::filter);
    if from.len() > 0 {
        lemma_all_keys_present_filter_empty(from.drop_last(), base);
        let a = from.last();
        let w = choose|w: int| 0 <= w < base.len() && base[w] == a;
        assert(spec_key(base[w]) == spec_key(a));
        assert(key_in(base, spec_key(a)));
    }
}

/// The marked copy of a removed artifact: `source` and `name` carry the
/// removal prefix, every other field is unchanged.
pub open spec fn marked_removed(m: Artifact, a: Artifact) -> bool {
    &&& m.kind == a.kind
    &&& m.source@ == "(REMOVED) "@ + a.source@
    &&& m.name@ == "(REMOVED) "@ + a.name@
    &&& m.command == a.command
    &&& m.path == a.path
    &&& m.raw == a.raw
}

fn mark_removed(a: &Artifact) -> (r: Artifact)
    ensures
        marked_removed(r, *a),
{
    let mut source = "(REMOVED) ".to_owned();
    source.append(a.source.as_str());
    let mut name = "(REMOVED) ".to_owned();
    name.append(a.name.as_str());
    Artifact {
        kind: a.kind.clone(),
        source,
        name,
        command: crate::strops::clone_opt_string(&a.command),
        path: crate::strops::clone_opt_string(&a.path),
        raw: crate::strops::clone_opt_string(&a.raw),
    }
}

/// Turn a delta into the artifact list a diff-scoped scan works on: all
/// added artifacts unchanged and, when asked for, each removed artifact as a
/// fresh copy whose `source` and `name` carry a "(REMOVED) " prefix. The
/// snapshots the delta came from are never touched.
pub fn artifacts_from_delta(delta: &SnapshotDelta, include_removed: bool) -> (r: Vec<Artifact>)
    ensures
        r@.len() == delta.added@.len() + (if include_removed {
            delta.removed@.len()
        } else {
            0
        }),
        forall|i: int| 0 <= i < delta.added@.len() ==> #[trigger] r@[i] == delta.added@[i],
        include_removed ==> forall|i: int|
            0 <= i < delta.removed@.len() ==> marked_removed(
                #[trigger] r@[delta.added@.len() + i],
                delta.removed@[i],
            ),
{
    let mut out: Vec<Artifact> = Vec::new();
    let mut i: usize = 0;
    while i < delta.added.len()
        invariant
            i <= delta.added@.len(),
            out@.len() == i,
            forall|k: int| 0 <= k < i ==> #[trigger] out@[k] == delta.added@[k],
        decreases delta.added@.len() - i,
    {
        out.push(delta.added[i].clone());
        i = i + 1;
    }
    if include_removed {
        let mut j: usize = 0;
        while j < delta.removed.len()
            invariant
                j <= delta.removed@.len(),
                out@.len() == delta.added@.len() + j,
                forall|k: int| 0 <= k < delta.added@.len() ==> #[trigger] out@[k]
                    == delta.added@[k],
                forall|k: int| 0 <= k < j ==> marked_removed(
                    #[trigger] out@[delta.added@.len() + k],
                    delta.removed@[k],
                ),
            decreases delta.removed@.len() - j,
        {
            out.push(mark_removed(&delta.removed[j]));
            j = j + 1;
        }
    }
    out
}

} // verus!
