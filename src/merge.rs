//! Folding per-request build contexts into one.
use vstd::prelude::*;
use crate::context::{BuildContext, ContextView};
use crate::unit::Unit;

verus! {

/// The export map that sends every unit of `roots` to `dir`.
pub open spec fn dir_for_roots(roots: Set<Unit>, dir: String) -> Map<Unit, String> {
    Map::new(|u: Unit| roots.contains(u), |u: Unit| dir)
}

/// A request's context once its chosen export directory, if any, applies to
/// each of its roots.
pub open spec fn with_export_dir(c: ContextView, dir: Option<String>) -> ContextView {
    match dir {
        Some(d) => ContextView {
            export_dirs: c.export_dirs.union_prefer_right(dir_for_roots(c.roots, d)),
            ..c
        },
        None => c,
    }
}

/// The context `acc` extended by `next`: unions of sets, key-wise unions of
/// maps in which `next` wins a shared key; the uplift flag of `acc` stays.
pub open spec fn combine(acc: ContextView, next: ContextView) -> ContextView {
    ContextView {
        unit_graph: acc.unit_graph.union_prefer_right(next.unit_graph),
        roots: acc.roots.union(next.roots),
        export_dirs: acc.export_dirs.union_prefer_right(next.export_dirs),
        platform_kinds: acc.platform_kinds.union(next.platform_kinds),
        target_config: acc.target_config.union_prefer_right(next.target_config),
        target_info: acc.target_info.union_prefer_right(next.target_info),
        packages: acc.packages.union_prefer_right(next.packages),
        sources: acc.sources.union_prefer_right(next.sources),
        extra_compile_args: acc.extra_compile_args.union_prefer_right(next.extra_compile_args),
        uplift: acc.uplift,
    }
}

/// One step of the fold: the request with its export directory applied
/// becomes the accumulator, or is combined into it.
pub open spec fn merge_step(
    acc: Option<ContextView>,
    next: ContextView,
    dir: Option<String>,
) -> ContextView {
    match acc {
        Some(a) => combine(a, with_export_dir(next, dir)),
        None => with_export_dir(next, dir),
    }
}

pub open spec fn context_views(c: Option<BuildContext>) -> Option<ContextView> {
    match c {
        Some(b) => Some(b@),
        None => None,
    }
}

impl BuildContext {
    /// Sends every root of this context to `dir`.
    pub fn apply_export_dir(&mut self, dir: &String)
        requires
            old(self).wf(),
        ensures
            final(self).wf(),
            final(self)@ == with_export_dir(old(self)@, Some(*dir)),
    {
        let ghost old_exports = self.export_dirs@;
        let ghost members = self.roots.member_seq();
        proof {
            self.roots.lemma_members();
        }
        let n = self.roots.len();
        let mut i: usize = 0;
        assert(old_exports.union_prefer_right(
            dir_for_roots(Set::new(|u: Unit| exists|j: int| 0 <= j < 0 && members[j] == u), *dir),
        ) =~= old_exports);
        while i < n
            invariant
                self.wf(),
                n == members.len(),
                members == self.roots.member_seq(),
                i <= n,
                self.export_dirs@ == old_exports.union_prefer_right(
                    dir_for_roots(
                        Set::new(|u: Unit| exists|j: int| 0 <= j < i && members[j] == u),
                        *dir,
                    ),
                ),
                self.roots == old(self).roots,
                self.unit_graph == old(self).unit_graph,
                self.platform_kinds == old(self).platform_kinds,
                self.target_config == old(self).target_config,
                self.target_info == old(self).target_info,
                self.packages == old(self).packages,
                self.sources == old(self).sources,
                self.extra_compile_args == old(self).extra_compile_args,
                self.uplift == old(self).uplift,
            decreases n - i,
        {
            let u = self.roots.member_at(i);
            self.export_dirs.insert(u, dir.clone());
            proof {
                let before = Set::new(|v: Unit| exists|j: int| 0 <= j < i && members[j] == v);
                let after = Set::new(|v: Unit| exists|j: int| 0 <= j < i + 1 && members[j] == v);
                assert(after =~= before.insert(u)) by {
                    assert forall|v: Unit| after.contains(v) implies before.insert(u).contains(v) by {
                        let j = choose|j: int| 0 <= j < i + 1 && members[j] == v;
                        if j < i {
                            assert(before.contains(v));
                        }
                    }
                    assert forall|v: Unit| before.insert(u).contains(v) implies after.contains(v) by {
                        if v == u {
                            assert(members[i as int] == v);
                        } else {
                            let j = choose|j: int| 0 <= j < i && members[j] == v;
                            assert(0 <= j < i + 1 && members[j] == v);
                        }
                    }
                }
                assert(self.export_dirs@ =~= old_exports.union_prefer_right(
                    dir_for_roots(after, *dir),
                ));
            }
            i = i + 1;
        }
        proof {
            let all = Set::new(|v: Unit| exists|j: int| 0 <= j < n && members[j] == v);
            assert(all =~= self.roots@) by {
                assert forall|v: Unit| all.contains(v) implies self.roots@.contains(v) by {
                    let j = choose|j: int| 0 <= j < n && members[j] == v;
                    assert(members.contains(v));
                }
                assert forall|v: Unit| self.roots@.contains(v) implies all.contains(v) by {
                    assert(members.contains(v));
                    let j = choose|j: int| 0 <= j < members.len() && members[j] == v;
                    assert(0 <= j < n && members[j] == v);
                }
            }
        }
    }

    /// Extends this context by `next`, field by field.
    pub fn absorb(&mut self, next: BuildContext)
        requires
            old(self).wf(),
            next.wf(),
        ensures
            final(self).wf(),
            final(self)@ == combine(old(self)@, next@),
    {
        self.unit_graph.extend(next.unit_graph);
        self.roots.extend(next.roots);
        self.export_dirs.extend(next.export_dirs);
        self.platform_kinds.extend(next.platform_kinds);
        self.target_config.extend(next.target_config);
        self.target_info.extend(next.target_info);
        self.packages.extend(next.packages);
        self.sources.extend(next.sources);
        self.extra_compile_args.extend(next.extra_compile_args);
    }
}

/// Folds one request's context into the accumulator: its export directory,
/// if given, is first applied to its own roots; with no accumulator yet the
/// request's context becomes it.
pub fn merge(acc: Option<BuildContext>, next: BuildContext, export_dir: Option<String>) -> (r:
    BuildContext)
    requires
        acc matches Some(a) ==> a.wf(),
        next.wf(),
    ensures
        r.wf(),
        r@ == merge_step(context_views(acc), next@, export_dir),
{
    let mut next = next;
    match export_dir {
        Some(d) => next.apply_export_dir(&d),
        None => {},
    }
    match acc {
        Some(a) => {
            let mut a = a;
            a.absorb(next);
            a
        },
        None => next,
    }
}

} // verus!
