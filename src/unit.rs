//! Build units, their identities, and the table that interns them.
use vstd::prelude::*;
use crate::keyed::MapKey;

verus! {

/// A handle to an interned unit: its position in the interner's table.
#[derive(Clone, Copy, Debug, PartialEq, Eq, Structural)]
pub struct Unit {
    pub index: usize,
}

/// An interned package identity.
#[derive(Clone, Copy, Debug, PartialEq, Eq, Structural)]
pub struct PackageId {
    pub id: u64,
}

/// An interned package source location.
#[derive(Clone, Copy, Debug, PartialEq, Eq, Structural)]
pub struct SourceId {
    pub id: u64,
}

/// The platform a unit is compiled for: the host, or a cross-compilation
/// target given by its interned triple.
#[derive(Clone, Copy, Debug, PartialEq, Eq, Structural)]
pub enum PlatformKind {
    Host,
    Target(u64),
}

/// The kind of target a unit compiles.
#[derive(Clone, Copy, Debug, PartialEq, Eq, Structural)]
pub enum TargetKind {
    Lib,
    Bin,
    Test,
    Bench,
    Example,
    BuildScript,
}

impl MapKey for Unit {
    fn same(&self, other: &Self) -> (r: bool) {
        *self == *other
    }
}

impl MapKey for PackageId {
    fn same(&self, other: &Self) -> (r: bool) {
        *self == *other
    }
}

impl MapKey for SourceId {
    fn same(&self, other: &Self) -> (r: bool) {
        *self == *other
    }
}

impl MapKey for PlatformKind {
    fn same(&self, other: &Self) -> (r: bool) {
        *self == *other
    }
}

/// Everything that makes two units the same unit.
pub struct UnitIdentity {
    pub package: PackageId,
    pub target_kind: TargetKind,
    pub target_name: String,
    pub profile: String,
    pub platform: PlatformKind,
    pub features: Vec<String>,
    pub extra_args: Vec<String>,
}

/// The value of a unit identity.
pub struct UnitKey {
    pub package: PackageId,
    pub target_kind: TargetKind,
    pub target_name: Seq<char>,
    pub profile: Seq<char>,
    pub platform: PlatformKind,
    pub features: Seq<Seq<char>>,
    pub extra_args: Seq<Seq<char>>,
}

pub open spec fn strings_view(v: Seq<String>) -> Seq<Seq<char>> {
    v.map_values(|s: String| s@)
}

impl View for UnitIdentity {
    type V = UnitKey;

    open spec fn view(&self) -> UnitKey {
        UnitKey {
            package: self.package,
            target_kind: self.target_kind,
            target_name: self.target_name@,
            profile: self.profile@,
            platform: self.platform,
            features: strings_view(self.features@),
            extra_args: strings_view(self.extra_args@),
        }
    }
}

/// Whether two lists of strings hold the same strings in the same order.
fn same_strings(a: &Vec<String>, b: &Vec<String>) -> (r: bool)
    ensures
        r == (strings_view(a@) == strings_view(b@)),
{
    if a.len() != b.len() {
        proof {
            assert(strings_view(a@).len() != strings_view(b@).len());
        }
        return false;
    }
    let mut i: usize = 0;
    while i < a.len()
        invariant
            a@.len() == b@.len(),
            i <= a@.len(),
            forall|j: int| 0 <= j < i ==> #[trigger] a@[j]@ == b@[j]@,
        decreases a@.len() - i,
    {
        if a[i] != b[i] {
            proof {
                assert(strings_view(a@)[i as int] != strings_view(b@)[i as int]);
            }
            return false;
        }
        i = i + 1;
    }
    proof {
        assert(strings_view(a@) =~= strings_view(b@));
    }
    true
}

impl UnitIdentity {
    /// Whether `self` and `other` identify the same unit.
    pub fn matches(&self, other: &UnitIdentity) -> (r: bool)
        ensures
            r == (self@ == other@),
    {
        self.package == other.package && self.target_kind == other.target_kind
            && self.target_name == other.target_name && self.profile == other.profile
            && self.platform == other.platform && same_strings(&self.features, &other.features)
            && same_strings(&self.extra_args, &other.extra_args)
    }
}

/// No identity occurs twice in the table.
pub open spec fn keys_unique(s: Seq<UnitKey>) -> bool {
    forall|i: int, j: int|
        0 <= i < s.len() && 0 <= j < s.len() && i != j ==> #[trigger] s[i] != #[trigger] s[j]
}

/// The table after interning `id`, and the unit handed out for it: the unit
/// already stored for an equal identity, or a new one at the end.
pub open spec fn intern_spec(s: Seq<UnitKey>, id: UnitKey) -> (Seq<UnitKey>, Unit) {
    if exists|i: int| 0 <= i < s.len() && s[i] == id {
        (s, Unit { index: (choose|i: int| 0 <= i < s.len() && s[i] == id) as usize })
    } else {
        (s.push(id), Unit { index: s.len() as usize })
    }
}

/// The table that gives structurally equal units one shared handle.
pub struct UnitInterner {
    identities: Vec<UnitIdentity>,
}

impl UnitInterner {
    /// The identities stored, a unit's index being its position.
    pub closed spec fn keys(&self) -> Seq<UnitKey> {
        self.identities@.map_values(|u: UnitIdentity| u@)
    }

    pub open spec fn wf(&self) -> bool {
        keys_unique(self.keys())
    }

    pub fn new() -> (r: Self)
        ensures
            r.wf(),
            r.keys() == Seq::<UnitKey>::empty(),
    {
        let r = UnitInterner { identities: Vec::new() };
        assert(r.keys() =~= Seq::<UnitKey>::empty());
        r
    }

    pub fn len(&self) -> (r: usize)
        ensures
            r == self.keys().len(),
    {
        self.identities.len()
    }

    /// The unit for `id`: the one already handed out for an equal identity,
    /// else a new one.
    pub fn intern(&mut self, id: UnitIdentity) -> (r: Unit)
        requires
            old(self).wf(),
            old(self).keys().len() < usize::MAX,
        ensures
            final(self).wf(),
            (final(self).keys(), r) == intern_spec(old(self).keys(), id@),
            r.index < final(self).keys().len(),
            final(self).keys()[r.index as int] == id@,
    {
        let ghost s = self.keys();
        let mut i: usize = 0;
        while i < self.identities.len()
            invariant
                s == self.keys(),
                keys_unique(s),
                i <= s.len(),
                forall|j: int| 0 <= j < i ==> #[trigger] s[j] != id@,
            decreases s.len() - i,
        {
            if self.identities[i].matches(&id) {
                proof {
                    assert(s[i as int] == id@);
                    let c = choose|c: int| 0 <= c < s.len() && s[c] == id@;
                    assert(c == i as int);
                }
                return Unit { index: i };
            }
            i = i + 1;
        }
        let n = self.identities.len();
        self.identities.push(id);
        proof {
            assert(self.keys() =~= s.push(id@));
        }
        Unit { index: n }
    }

    /// The identity of an interned unit.
    pub fn identity(&self, u: Unit) -> (r: &UnitIdentity)
        requires
            u.index < self.keys().len(),
        ensures
            r@ == self.keys()[u.index as int],
    {
        &self.identities[u.index]
    }
}

} // verus!
