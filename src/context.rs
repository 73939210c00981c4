//! The build context of one request, and of a merged batch.
use vstd::prelude::*;
use crate::keyed::{KeyedMap, KeySet};
use crate::unit::{PackageId, PlatformKind, SourceId, Unit};

verus! {

/// The value of a build context.
pub struct ContextView {
    pub unit_graph: Map<Unit, Vec<Unit>>,
    pub roots: Set<Unit>,
    pub export_dirs: Map<Unit, String>,
    pub platform_kinds: Set<PlatformKind>,
    pub target_config: Map<PlatformKind, String>,
    pub target_info: Map<PlatformKind, String>,
    pub packages: Map<PackageId, String>,
    pub sources: Map<SourceId, String>,
    pub extra_compile_args: Map<Unit, Vec<String>>,
    pub uplift: bool,
}

/// A build plan: a unit graph with its roots, where root artifacts are
/// exported, the platforms and their metadata, and the packages and sources
/// that the graph needs.
pub struct BuildContext {
    /// Each unit and the units it depends on.
    pub unit_graph: KeyedMap<Unit, Vec<Unit>>,
    /// The units that the request asked for.
    pub roots: KeySet<Unit>,
    /// The directory each exported root artifact is copied to.
    pub export_dirs: KeyedMap<Unit, String>,
    pub platform_kinds: KeySet<PlatformKind>,
    /// User-level target configuration, per platform.
    pub target_config: KeyedMap<PlatformKind, String>,
    /// Compiler-probed target information, per platform.
    pub target_info: KeyedMap<PlatformKind, String>,
    /// Resolved packages: identity to manifest data.
    pub packages: KeyedMap<PackageId, String>,
    /// Source locations to the sources that supply their files.
    pub sources: KeyedMap<SourceId, String>,
    pub extra_compile_args: KeyedMap<Unit, Vec<String>>,
    /// Whether root artifacts are also copied to the shared output location.
    pub uplift: bool,
}

impl View for BuildContext {
    type V = ContextView;

    open spec fn view(&self) -> ContextView {
        ContextView {
            unit_graph: self.unit_graph@,
            roots: self.roots@,
            export_dirs: self.export_dirs@,
            platform_kinds: self.platform_kinds@,
            target_config: self.target_config@,
            target_info: self.target_info@,
            packages: self.packages@,
            sources: self.sources@,
            extra_compile_args: self.extra_compile_args@,
            uplift: self.uplift,
        }
    }
}

impl BuildContext {
    pub open spec fn wf(&self) -> bool {
        &&& self.unit_graph.wf()
        &&& self.roots.wf()
        &&& self.export_dirs.wf()
        &&& self.platform_kinds.wf()
        &&& self.target_config.wf()
        &&& self.target_info.wf()
        &&& self.packages.wf()
        &&& self.sources.wf()
        &&& self.extra_compile_args.wf()
    }

    /// An empty context.
    pub fn new(uplift: bool) -> (r: Self)
        ensures
            r.wf(),
            r@.unit_graph == Map::<Unit, Vec<Unit>>::empty(),
            r@.roots == Set::<Unit>::empty(),
            r@.export_dirs == Map::<Unit, String>::empty(),
            r@.platform_kinds == Set::<PlatformKind>::empty(),
            r@.target_config == Map::<PlatformKind, String>::empty(),
            r@.target_info == Map::<PlatformKind, String>::empty(),
            r@.packages == Map::<PackageId, String>::empty(),
            r@.sources == Map::<SourceId, String>::empty(),
            r@.extra_compile_args == Map::<Unit, Vec<String>>::empty(),
            r@.uplift == uplift,
    {
        BuildContext {
            unit_graph: KeyedMap::new(),
            roots: KeySet::new(),
            export_dirs: KeyedMap::new(),
            platform_kinds: KeySet::new(),
            target_config: KeyedMap::new(),
            target_info: KeyedMap::new(),
            packages: KeyedMap::new(),
            sources: KeyedMap::new(),
            extra_compile_args: KeyedMap::new(),
            uplift,
        }
    }
}

} // verus!
