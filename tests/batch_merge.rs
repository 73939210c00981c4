use cargo_batch::batch::{merge_requests, BatchMerger, BuildRequest, Handoff};
use cargo_batch::context::BuildContext;
use cargo_batch::keyed::{KeySet, KeyedMap};
use cargo_batch::merge::merge;
use cargo_batch::unit::{
    PackageId, PlatformKind, SourceId, TargetKind, Unit, UnitIdentity, UnitInterner,
};

fn identity(package: u64, kind: TargetKind, name: &str, profile: &str) -> UnitIdentity {
    UnitIdentity {
        package: PackageId { id: package },
        target_kind: kind,
        target_name: name.to_string(),
        profile: profile.to_string(),
        platform: PlatformKind::Host,
        features: vec!["default".to_string()],
        extra_args: Vec::new(),
    }
}

fn request(ctx: BuildContext, dir: Option<&str>) -> BuildRequest {
    BuildRequest { context: ctx, export_dir: dir.map(|d| d.to_string()) }
}

/// A context that builds `root`, which depends on `dep`.
fn single_root(root: Unit, dep: Unit, uplift: bool) -> BuildContext {
    let mut ctx = BuildContext::new(uplift);
    ctx.unit_graph.insert(root, vec![dep]);
    ctx.unit_graph.insert(dep, Vec::new());
    ctx.roots.insert(root);
    ctx
}

#[test]
fn intern_twice_gives_same_unit() {
    let mut interner = UnitInterner::new();
    let a = interner.intern(identity(1, TargetKind::Lib, "bar", "dev"));
    let b = interner.intern(identity(1, TargetKind::Lib, "bar", "dev"));
    assert_eq!(a, b);
    assert_eq!(interner.len(), 1);
    assert_eq!(interner.identity(a).target_name, "bar");
}

#[test]
fn intern_distinct_identities_differ() {
    let mut interner = UnitInterner::new();
    let a = interner.intern(identity(1, TargetKind::Lib, "bar", "dev"));
    let b = interner.intern(identity(1, TargetKind::Lib, "bar", "release"));
    let c = interner.intern(identity(1, TargetKind::Bin, "bar", "dev"));
    let mut other = identity(1, TargetKind::Lib, "bar", "dev");
    other.features = vec!["std".to_string()];
    let d = interner.intern(other);
    let mut cross = identity(1, TargetKind::Lib, "bar", "dev");
    cross.platform = PlatformKind::Target(7);
    let e = interner.intern(cross);
    assert_eq!(interner.len(), 5);
    assert!(a != b && a != c && a != d && a != e && b != c && d != e);
    assert_eq!(a, interner.intern(identity(1, TargetKind::Lib, "bar", "dev")));
    assert_eq!(interner.len(), 5);
}

#[test]
fn two_requests_share_dependency() {
    let mut interner = UnitInterner::new();
    let foo = interner.intern(identity(1, TargetKind::Bin, "foo", "dev"));
    let bar_a = interner.intern(identity(2, TargetKind::Lib, "bar", "dev"));
    let baz = interner.intern(identity(3, TargetKind::Lib, "baz", "check"));
    let bar_b = interner.intern(identity(2, TargetKind::Lib, "bar", "dev"));
    assert_eq!(bar_a, bar_b);

    let a = single_root(foo, bar_a, true);
    let b = single_root(baz, bar_b, true);
    let merged = merge_requests(vec![request(a, Some("/out/a")), request(b, Some("/out/b"))])
        .unwrap();

    assert_eq!(merged.unit_graph.len(), 3);
    assert_eq!(merged.unit_graph.get(&bar_a), Some(&Vec::new()));
    assert_eq!(merged.unit_graph.get(&foo), Some(&vec![bar_a]));
    assert_eq!(merged.unit_graph.get(&baz), Some(&vec![bar_a]));
    assert_eq!(merged.roots.len(), 2);
    assert!(merged.roots.contains(&foo) && merged.roots.contains(&baz));
    assert!(!merged.roots.contains(&bar_a));
    assert_eq!(merged.export_dirs.len(), 2);
    assert_eq!(merged.export_dirs.get(&foo), Some(&"/out/a".to_string()));
    assert_eq!(merged.export_dirs.get(&baz), Some(&"/out/b".to_string()));
    assert!(!merged.uplift);
}

#[test]
fn shared_unit_has_one_node_over_many_requests() {
    let common = Unit { index: 0 };
    let mut reqs = Vec::new();
    for i in 1..5usize {
        reqs.push(request(single_root(Unit { index: i }, common, false), None));
    }
    let merged = merge_requests(reqs).unwrap();
    assert_eq!(merged.unit_graph.len(), 5);
    let mut seen = 0;
    for i in 0..merged.unit_graph.len() {
        if merged.unit_graph.key_at(i) == common {
            seen += 1;
        }
    }
    assert_eq!(seen, 1);
    assert_eq!(merged.roots.len(), 4);
}

#[test]
fn export_dirs_stay_with_their_request() {
    let mut a = BuildContext::new(false);
    a.roots.insert(Unit { index: 1 });
    a.roots.insert(Unit { index: 2 });
    let mut b = BuildContext::new(false);
    b.roots.insert(Unit { index: 3 });
    let mut c = BuildContext::new(false);
    c.roots.insert(Unit { index: 4 });
    let merged = merge_requests(vec![
        request(a, Some("/a")),
        request(b, Some("/b")),
        request(c, None),
    ])
    .unwrap();
    assert_eq!(merged.export_dirs.get(&Unit { index: 1 }), Some(&"/a".to_string()));
    assert_eq!(merged.export_dirs.get(&Unit { index: 2 }), Some(&"/a".to_string()));
    assert_eq!(merged.export_dirs.get(&Unit { index: 3 }), Some(&"/b".to_string()));
    assert_eq!(merged.export_dirs.get(&Unit { index: 4 }), None);
    assert_eq!(merged.export_dirs.len(), 3);
}

#[test]
fn later_export_dir_wins_on_shared_root() {
    let root = Unit { index: 9 };
    let mut a = BuildContext::new(false);
    a.roots.insert(root);
    let mut b = BuildContext::new(false);
    b.roots.insert(root);
    let merged = merge_requests(vec![request(a, Some("/first")), request(b, Some("/second"))])
        .unwrap();
    assert_eq!(merged.export_dirs.get(&root), Some(&"/second".to_string()));
    assert_eq!(merged.roots.len(), 1);
}

#[test]
fn uplift_is_off_after_merging() {
    let a = single_root(Unit { index: 0 }, Unit { index: 1 }, true);
    let b = single_root(Unit { index: 2 }, Unit { index: 1 }, true);
    let merged = merge_requests(vec![request(a, None), request(b, None)]).unwrap();
    assert!(!merged.uplift);
    let single = merge_requests(vec![request(single_root(Unit { index: 0 }, Unit { index: 1 }, true), None)])
        .unwrap();
    assert!(!single.uplift);
}

#[test]
fn empty_batch_gives_nothing() {
    assert!(merge_requests(Vec::new()).is_none());
    assert!(BatchMerger::new().finish(true).is_none());
}

#[test]
fn platforms_packages_and_sources_are_kept() {
    let mut a = BuildContext::new(false);
    a.platform_kinds.insert(PlatformKind::Host);
    a.target_config.insert(PlatformKind::Host, "host-config".to_string());
    a.target_info.insert(PlatformKind::Host, "host-info".to_string());
    a.packages.insert(PackageId { id: 1 }, "foo 1.0.0".to_string());
    a.sources.insert(SourceId { id: 10 }, "registry".to_string());
    let mut b = BuildContext::new(false);
    b.platform_kinds.insert(PlatformKind::Host);
    b.platform_kinds.insert(PlatformKind::Target(5));
    b.target_config.insert(PlatformKind::Target(5), "cross-config".to_string());
    b.target_info.insert(PlatformKind::Target(5), "cross-info".to_string());
    b.packages.insert(PackageId { id: 2 }, "bar 2.0.0".to_string());
    b.sources.insert(SourceId { id: 11 }, "git".to_string());
    b.extra_compile_args.insert(Unit { index: 3 }, vec!["-Copt-level=3".to_string()]);
    let merged = merge_requests(vec![request(a, None), request(b, None)]).unwrap();
    assert_eq!(merged.platform_kinds.len(), 2);
    assert!(merged.platform_kinds.contains(&PlatformKind::Host));
    assert!(merged.platform_kinds.contains(&PlatformKind::Target(5)));
    assert_eq!(merged.target_config.len(), 2);
    assert_eq!(merged.target_info.get(&PlatformKind::Target(5)), Some(&"cross-info".to_string()));
    assert_eq!(merged.packages.get(&PackageId { id: 1 }), Some(&"foo 1.0.0".to_string()));
    assert_eq!(merged.packages.get(&PackageId { id: 2 }), Some(&"bar 2.0.0".to_string()));
    assert_eq!(merged.sources.len(), 2);
    assert_eq!(
        merged.extra_compile_args.get(&Unit { index: 3 }),
        Some(&vec!["-Copt-level=3".to_string()])
    );
}

#[test]
fn later_request_overwrites_shared_keys() {
    let shared = Unit { index: 1 };
    let mut a = BuildContext::new(false);
    a.unit_graph.insert(shared, vec![Unit { index: 2 }]);
    a.target_config.insert(PlatformKind::Host, "old".to_string());
    let mut b = BuildContext::new(false);
    b.unit_graph.insert(shared, vec![Unit { index: 3 }]);
    b.target_config.insert(PlatformKind::Host, "new".to_string());
    let merged = merge_requests(vec![request(a, None), request(b, None)]).unwrap();
    assert_eq!(merged.unit_graph.get(&shared), Some(&vec![Unit { index: 3 }]));
    assert_eq!(merged.unit_graph.len(), 1);
    assert_eq!(merged.target_config.get(&PlatformKind::Host), Some(&"new".to_string()));
}

fn three_requests() -> Vec<BuildRequest> {
    vec![
        request(single_root(Unit { index: 0 }, Unit { index: 9 }, true), Some("/one")),
        request(single_root(Unit { index: 1 }, Unit { index: 9 }, false), None),
        request(single_root(Unit { index: 2 }, Unit { index: 8 }, true), Some("/three")),
    ]
}

fn summary(c: &BuildContext) -> (usize, usize, usize, Vec<Option<String>>) {
    let dirs = (0..3usize).map(|i| c.export_dirs.get(&Unit { index: i }).cloned()).collect();
    (c.unit_graph.len(), c.roots.len(), c.export_dirs.len(), dirs)
}

#[test]
fn folding_step_by_step_matches_whole_batch() {
    let whole = merge_requests(three_requests()).unwrap();
    let mut reqs = three_requests();
    let third = reqs.pop().unwrap();
    let mut merger = BatchMerger::new();
    for r in reqs {
        merger.fold(r);
    }
    merger.fold(third);
    let stepwise = match merger.finish(false) {
        Some(Handoff::Execute(c)) => c,
        _ => panic!("expected a context to execute"),
    };
    assert_eq!(summary(&whole), summary(&stepwise));
    assert_eq!(summary(&whole), (5, 3, 2, vec![Some("/one".to_string()), None, Some("/three".to_string())]));
}

#[test]
fn report_only_hands_out_report() {
    let mut merger = BatchMerger::new();
    merger.fold(request(single_root(Unit { index: 0 }, Unit { index: 1 }, true), None));
    match merger.finish(true) {
        Some(Handoff::Report(c)) => {
            assert!(!c.uplift);
            assert_eq!(c.roots.len(), 1);
        }
        _ => panic!("expected a report"),
    }
}

#[test]
fn merge_without_accumulator_takes_request() {
    let ctx = single_root(Unit { index: 4 }, Unit { index: 5 }, true);
    let r = merge(None, ctx, Some("/dir".to_string()));
    assert!(r.uplift);
    assert_eq!(r.export_dirs.get(&Unit { index: 4 }), Some(&"/dir".to_string()));
    assert_eq!(r.export_dirs.get(&Unit { index: 5 }), None);
    let next = single_root(Unit { index: 6 }, Unit { index: 5 }, false);
    let r2 = merge(Some(r), next, None);
    assert!(r2.uplift);
    assert_eq!(r2.unit_graph.len(), 3);
    assert_eq!(r2.export_dirs.len(), 1);
}

#[test]
fn keyed_map_replaces_and_extends() {
    let mut m: KeyedMap<Unit, String> = KeyedMap::new();
    m.insert(Unit { index: 1 }, "a".to_string());
    m.insert(Unit { index: 1 }, "b".to_string());
    assert_eq!(m.len(), 1);
    assert_eq!(m.get(&Unit { index: 1 }), Some(&"b".to_string()));
    let mut n: KeyedMap<Unit, String> = KeyedMap::new();
    n.insert(Unit { index: 1 }, "c".to_string());
    n.insert(Unit { index: 2 }, "d".to_string());
    m.extend(n);
    assert_eq!(m.len(), 2);
    assert_eq!(m.get(&Unit { index: 1 }), Some(&"c".to_string()));
    assert!(m.contains_key(&Unit { index: 2 }));
    let mut s: KeySet<PlatformKind> = KeySet::new();
    s.insert(PlatformKind::Host);
    s.insert(PlatformKind::Host);
    assert_eq!(s.len(), 1);
    assert_eq!(s.member_at(0), PlatformKind::Host);
}
