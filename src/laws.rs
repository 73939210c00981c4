//! Properties of interning and of the batch fold.
use vstd::prelude::*;
use crate::batch::{fold_requests, merged_batch, RequestView};
use crate::context::{BuildContext, ContextView};
use crate::keyed::lemma_key_count_distinct;
use crate::merge::{combine, merge_step, with_export_dir};
use crate::unit::{intern_spec, keys_unique, Unit, UnitKey};

verus! {

/// Interning an identity a second time hands out the same unit and leaves
/// the table as the first call left it.
pub proof fn lemma_intern_idempotent(s: Seq<UnitKey>, id: UnitKey)
    requires
        keys_unique(s),
        s.len() < usize::MAX,
    ensures
        keys_unique(intern_spec(s, id).0),
        intern_spec(intern_spec(s, id).0, id) == intern_spec(s, id),
        intern_spec(s, id).1.index < intern_spec(s, id).0.len(),
        intern_spec(s, id).0[intern_spec(s, id).1.index as int] == id,
{
    let (s1, u1) = intern_spec(s, id);
    if exists|i: int| 0 <= i < s.len() && s[i] == id {
        let c = choose|i: int| 0 <= i < s.len() && s[i] == id;
        assert(s1[c] == id);
    } else {
        assert(s1[s.len() as int] == id);
        let c = choose|i: int| 0 <= i < s1.len() && s1[i] == id;
        assert(c == s.len());
    }
}

/// Every platform, package, source, root and unit of any request of a batch
/// is in the context folded from it.
pub proof fn lemma_union_complete(reqs: Seq<RequestView>, i: int)
    requires
        0 <= i < reqs.len(),
    ensures
        reqs[i].context.platform_kinds.subset_of(fold_requests(reqs).unwrap().platform_kinds),
        reqs[i].context.packages.dom().subset_of(fold_requests(reqs).unwrap().packages.dom()),
        reqs[i].context.sources.dom().subset_of(fold_requests(reqs).unwrap().sources.dom()),
        reqs[i].context.target_config.dom().subset_of(
            fold_requests(reqs).unwrap().target_config.dom(),
        ),
        reqs[i].context.target_info.dom().subset_of(
            fold_requests(reqs).unwrap().target_info.dom(),
        ),
        reqs[i].context.roots.subset_of(fold_requests(reqs).unwrap().roots),
        reqs[i].context.unit_graph.dom().subset_of(fold_requests(reqs).unwrap().unit_graph.dom()),
    decreases reqs.len(),
{
    if i < reqs.len() - 1 {
        let t = reqs.drop_last();
        assert(t[i] == reqs[i]);
        lemma_union_complete(t, i);
    }
}

/// However many requests of a batch share a unit, the merged graph holds
/// exactly one node for it.
pub proof fn lemma_shared_unit_single_node(
    reqs: Seq<RequestView>,
    merged: BuildContext,
    u: Unit,
)
    requires
        merged.wf(),
        merged@ == merged_batch(reqs),
        exists|i: int| 0 <= i < reqs.len() && (#[trigger] reqs[i]).context.unit_graph.contains_key(u),
    ensures
        merged.unit_graph.occurrences(u) == 1,
{
    let i = choose|i: int|
        0 <= i < reqs.len() && (#[trigger] reqs[i]).context.unit_graph.contains_key(u);
    lemma_union_complete(reqs, i);
    lemma_key_count_distinct(merged.unit_graph.entry_seq(), u);
}

/// The requests of a batch each chose an export directory and only give
/// export entries to their own roots, and no two share a root.
pub open spec fn isolated_requests(reqs: Seq<RequestView>) -> bool {
    &&& forall|i: int| 0 <= i < reqs.len() ==> (#[trigger] reqs[i]).export_dir is Some
    &&& forall|i: int|
        0 <= i < reqs.len() ==> (#[trigger] reqs[i]).context.export_dirs.dom().subset_of(
            reqs[i].context.roots,
        )
    &&& forall|i: int, j: int|
        0 <= i < reqs.len() && 0 <= j < reqs.len() && i != j ==> (#[trigger] reqs[i]).context.roots.disjoint(
            (#[trigger] reqs[j]).context.roots,
        )
}

/// In a batch of isolated requests, each root is exported to the directory
/// of the request it belongs to, and only roots are exported.
pub proof fn lemma_export_isolation(reqs: Seq<RequestView>, i: int, u: Unit)
    requires
        isolated_requests(reqs),
        0 <= i < reqs.len(),
        reqs[i].context.roots.contains(u),
    ensures
        fold_requests(reqs).unwrap().export_dirs.contains_key(u),
        fold_requests(reqs).unwrap().export_dirs[u] == reqs[i].export_dir.unwrap(),
    decreases reqs.len(),
{
    lemma_exports_within_roots(reqs);
    let last = reqs.len() - 1;
    let n = with_export_dir(reqs[last].context, reqs[last].export_dir);
    if i < last {
        let t = reqs.drop_last();
        assert(t[i] == reqs[i]);
        assert(isolated_requests(t)) by {
            assert forall|a: int, b: int|
                0 <= a < t.len() && 0 <= b < t.len() && a != b implies (#[trigger] t[a]).context.roots.disjoint(
                (#[trigger] t[b]).context.roots,
            ) by {
                assert(t[a] == reqs[a] && t[b] == reqs[b]);
            }
            assert forall|a: int| 0 <= a < t.len() implies (#[trigger] t[a]).export_dir is Some by {
                assert(t[a] == reqs[a]);
            }
            assert forall|a: int| 0 <= a < t.len() implies (#[trigger] t[a]).context.export_dirs.dom().subset_of(
                t[a].context.roots,
            ) by {
                assert(t[a] == reqs[a]);
            }
        }
        lemma_export_isolation(t, i, u);
        assert(reqs[i].context.roots.disjoint(reqs[last].context.roots));
        assert(!n.export_dirs.contains_key(u));
    }
}

/// The export entries of a folded batch of isolated requests belong to the
/// roots of the batch.
proof fn lemma_exports_within_roots(reqs: Seq<RequestView>)
    requires
        isolated_requests(reqs),
        reqs.len() > 0,
    ensures
        forall|v: Unit|
            #[trigger] fold_requests(reqs).unwrap().export_dirs.contains_key(v) ==> exists|j: int|
                0 <= j < reqs.len() && (#[trigger] reqs[j]).context.roots.contains(v),
    decreases reqs.len(),
{
    let last = reqs.len() - 1;
    assert(reqs[last].context.export_dirs.dom().subset_of(reqs[last].context.roots));
    if reqs.len() > 1 {
        let t = reqs.drop_last();
        assert(isolated_requests(t)) by {
            assert forall|a: int, b: int|
                0 <= a < t.len() && 0 <= b < t.len() && a != b implies (#[trigger] t[a]).context.roots.disjoint(
                (#[trigger] t[b]).context.roots,
            ) by {
                assert(t[a] == reqs[a] && t[b] == reqs[b]);
            }
            assert forall|a: int| 0 <= a < t.len() implies (#[trigger] t[a]).export_dir is Some by {
                assert(t[a] == reqs[a]);
            }
            assert forall|a: int| 0 <= a < t.len() implies (#[trigger] t[a]).context.export_dirs.dom().subset_of(
                t[a].context.roots,
            ) by {
                assert(t[a] == reqs[a]);
            }
        }
        lemma_exports_within_roots(t);
        assert forall|v: Unit| #[trigger] fold_requests(reqs).unwrap().export_dirs.contains_key(v)
            implies exists|j: int| 0 <= j < reqs.len() && (#[trigger] reqs[j]).context.roots.contains(v) by {
            if fold_requests(t).unwrap().export_dirs.contains_key(v) {
                let j = choose|j: int| 0 <= j < t.len() && (#[trigger] t[j]).context.roots.contains(v);
                assert(t[j] == reqs[j]);
            } else {
                assert(reqs[last].context.roots.contains(v));
            }
        }
    }
}

/// Every dependency of a node of the graph is a node, and so is every root.
pub open spec fn graph_closed(c: ContextView) -> bool {
    &&& c.roots.subset_of(c.unit_graph.dom())
    &&& forall|u: Unit, j: int|
        #[trigger] c.unit_graph.contains_key(u) && 0 <= j < c.unit_graph[u]@.len()
            ==> c.unit_graph.contains_key(#[trigger] c.unit_graph[u]@[j])
}

/// Folding requests whose graphs are closed gives a closed graph: whichever
/// request's dependency list a unit keeps, the units on it are in the result.
pub proof fn lemma_merged_graph_closed(reqs: Seq<RequestView>)
    requires
        reqs.len() > 0,
        forall|i: int| 0 <= i < reqs.len() ==> graph_closed(#[trigger] reqs[i].context),
    ensures
        graph_closed(fold_requests(reqs).unwrap()),
        graph_closed(merged_batch(reqs)),
    decreases reqs.len(),
{
    let last = reqs.len() - 1;
    let n = with_export_dir(reqs[last].context, reqs[last].export_dir);
    assert(graph_closed(reqs[last].context));
    assert(graph_closed(n));
    let m = fold_requests(reqs).unwrap();
    if reqs.len() == 1 {
        assert(reqs.drop_last().len() == 0);
        assert(m == n);
    } else {
        let t = reqs.drop_last();
        assert forall|i: int| 0 <= i < t.len() implies graph_closed(#[trigger] t[i].context) by {
            assert(t[i] == reqs[i]);
        }
        lemma_merged_graph_closed(t);
        let a = fold_requests(t).unwrap();
        assert(m == combine(a, n));
        assert(m.roots.subset_of(m.unit_graph.dom()));
        assert forall|u: Unit, j: int|
            #[trigger] m.unit_graph.contains_key(u) && 0 <= j < m.unit_graph[u]@.len()
            implies m.unit_graph.contains_key(#[trigger] m.unit_graph[u]@[j]) by {
            if n.unit_graph.contains_key(u) {
                assert(n.unit_graph.contains_key(n.unit_graph[u]@[j]));
            } else {
                assert(a.unit_graph.contains_key(a.unit_graph[u]@[j]));
            }
        }
    }
    assert(graph_closed(m));
    assert(merged_batch(reqs).unit_graph == m.unit_graph);
    assert(merged_batch(reqs).roots == m.roots);
}

/// A merged batch of two or more requests never uplifts, whatever the
/// requests asked for.
pub proof fn lemma_uplift_suppressed(reqs: Seq<RequestView>)
    requires
        reqs.len() >= 2,
    ensures
        !merged_batch(reqs).uplift,
{
}

/// Folding one more request into the result of a batch gives the result of
/// the longer batch.
pub proof fn lemma_fold_sequential(reqs: Seq<RequestView>, next: RequestView)
    requires
        reqs.len() >= 1,
    ensures
        fold_requests(reqs.push(next)) == Some(
            merge_step(fold_requests(reqs), next.context, next.export_dir),
        ),
        fold_requests(reqs.push(next)) == Some(
            combine(fold_requests(reqs).unwrap(), with_export_dir(next.context, next.export_dir)),
        ),
{
    assert(reqs.push(next).drop_last() =~= reqs);
}

/// Extending contexts is associative.
pub proof fn lemma_combine_associative(a: ContextView, b: ContextView, c: ContextView)
    ensures
        combine(combine(a, b), c) == combine(a, combine(b, c)),
{
    let l = combine(combine(a, b), c);
    let r = combine(a, combine(b, c));
    assert(l.unit_graph =~= r.unit_graph);
    assert(l.roots =~= r.roots);
    assert(l.export_dirs =~= r.export_dirs);
    assert(l.platform_kinds =~= r.platform_kinds);
    assert(l.target_config =~= r.target_config);
    assert(l.target_info =~= r.target_info);
    assert(l.packages =~= r.packages);
    assert(l.sources =~= r.sources);
    assert(l.extra_compile_args =~= r.extra_compile_args);
}

} // verus!
