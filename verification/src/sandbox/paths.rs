//! Paths, and the components that they are made of. How a path is taken apart, and how its
//! components are put together again, is for the system to say.

use vstd::prelude::*;

use crate::text;

verus! {

// ---------------------------------------------------------------------------
// Prefixes
// ---------------------------------------------------------------------------

/// What a Windows path may start with: a drive or a share, as it is or marked as verbatim, or
/// a device. Paths of other systems start with none of these.
#[derive(Debug)]
pub enum PrefixKind {
    Verbatim(String),
    VerbatimUnc(String, String),
    VerbatimDisk(u8),
    DeviceNs(String),
    Unc(String, String),
    Disk(u8),
}

/// What a Windows path may start with.
pub enum PrefixKindView {
    Verbatim(Seq<char>),
    VerbatimUnc(Seq<char>, Seq<char>),
    VerbatimDisk(u8),
    DeviceNs(Seq<char>),
    Unc(Seq<char>, Seq<char>),
    Disk(u8),
}

impl View for PrefixKind {
    type V = PrefixKindView;

    open spec fn view(&self) -> PrefixKindView {
        match *self {
            PrefixKind::Verbatim(name) => PrefixKindView::Verbatim(name@),
            PrefixKind::VerbatimUnc(server, share) => PrefixKindView::VerbatimUnc(server@, share@),
            PrefixKind::VerbatimDisk(drive) => PrefixKindView::VerbatimDisk(drive),
            PrefixKind::DeviceNs(name) => PrefixKindView::DeviceNs(name@),
            PrefixKind::Unc(server, share) => PrefixKindView::Unc(server@, share@),
            PrefixKind::Disk(drive) => PrefixKindView::Disk(drive),
        }
    }
}

impl PrefixKind {
    /// Whether two prefixes name the same.
    pub fn same(&self, other: &PrefixKind) -> (same: bool)
        ensures
            same == (self@ == other@),
    {
        match (self, other) {
            (PrefixKind::Verbatim(a), PrefixKind::Verbatim(b)) => text::same_text(
                a.as_str(),
                b.as_str(),
            ),
            (PrefixKind::VerbatimUnc(a, s), PrefixKind::VerbatimUnc(b, t)) => text::same_text(
                a.as_str(),
                b.as_str(),
            ) && text::same_text(s.as_str(), t.as_str()),
            (PrefixKind::VerbatimDisk(a), PrefixKind::VerbatimDisk(b)) => *a == *b,
            (PrefixKind::DeviceNs(a), PrefixKind::DeviceNs(b)) => text::same_text(
                a.as_str(),
                b.as_str(),
            ),
            (PrefixKind::Unc(a, s), PrefixKind::Unc(b, t)) => text::same_text(
                a.as_str(),
                b.as_str(),
            ) && text::same_text(s.as_str(), t.as_str()),
            (PrefixKind::Disk(a), PrefixKind::Disk(b)) => *a == *b,
            _ => false,
        }
    }
}

impl Clone for PrefixKind {
    fn clone(&self) -> (copy: Self)
        ensures
            copy@ == self@,
    {
        match self {
            PrefixKind::Verbatim(name) => PrefixKind::Verbatim(name.clone()),
            PrefixKind::VerbatimUnc(server, share) => PrefixKind::VerbatimUnc(
                server.clone(),
                share.clone(),
            ),
            PrefixKind::VerbatimDisk(drive) => PrefixKind::VerbatimDisk(*drive),
            PrefixKind::DeviceNs(name) => PrefixKind::DeviceNs(name.clone()),
            PrefixKind::Unc(server, share) => PrefixKind::Unc(server.clone(), share.clone()),
            PrefixKind::Disk(drive) => PrefixKind::Disk(*drive),
        }
    }
}

// ---------------------------------------------------------------------------
// Components
// ---------------------------------------------------------------------------

/// A component of a path.
#[derive(Debug)]
pub enum PathComponent {
    Prefix(PrefixKind),
    RootDir,
    CurDir,
    ParentDir,
    Normal(String),
}

/// A component of a path.
pub enum ComponentView {
    Prefix(PrefixKindView),
    RootDir,
    CurDir,
    ParentDir,
    Normal(Seq<char>),
}

impl View for PathComponent {
    type V = ComponentView;

    open spec fn view(&self) -> ComponentView {
        match *self {
            PathComponent::Prefix(prefix) => ComponentView::Prefix(prefix@),
            PathComponent::RootDir => ComponentView::RootDir,
            PathComponent::CurDir => ComponentView::CurDir,
            PathComponent::ParentDir => ComponentView::ParentDir,
            PathComponent::Normal(name) => ComponentView::Normal(name@),
        }
    }
}

impl Clone for PathComponent {
    fn clone(&self) -> (copy: Self)
        ensures
            copy@ == self@,
    {
        match self {
            PathComponent::Prefix(prefix) => PathComponent::Prefix(prefix.clone()),
            PathComponent::RootDir => PathComponent::RootDir,
            PathComponent::CurDir => PathComponent::CurDir,
            PathComponent::ParentDir => PathComponent::ParentDir,
            PathComponent::Normal(name) => PathComponent::Normal(name.clone()),
        }
    }
}

impl PathComponent {
    /// Whether two components are the same.
    pub fn same(&self, other: &PathComponent) -> (same: bool)
        ensures
            same == (self@ == other@),
    {
        match (self, other) {
            (PathComponent::Prefix(p), PathComponent::Prefix(q)) => p.same(q),
            (PathComponent::RootDir, PathComponent::RootDir) => true,
            (PathComponent::CurDir, PathComponent::CurDir) => true,
            (PathComponent::ParentDir, PathComponent::ParentDir) => true,
            (PathComponent::Normal(x), PathComponent::Normal(y)) => text::same_text(
                x.as_str(),
                y.as_str(),
            ),
            _ => false,
        }
    }
}

/// What a list of components stands for.
pub open spec fn component_views(parts: Seq<PathComponent>) -> Seq<ComponentView> {
    parts.map_values(|c: PathComponent| c@)
}

/// Copies a list of components.
pub fn copy_components(parts: &Vec<PathComponent>) -> (copy: Vec<PathComponent>)
    ensures
        component_views(copy@) == component_views(parts@),
{
    let mut copy: Vec<PathComponent> = Vec::new();
    let mut i: usize = 0;
    while i < parts.len()
        invariant
            i <= parts@.len(),
            copy@.len() == i,
            forall|j: int| 0 <= j < i ==> (#[trigger] copy@[j])@ == parts@[j]@,
        decreases parts@.len() - i,
    {
        copy.push(parts[i].clone());
        i += 1;
    }
    proof {
        assert(component_views(copy@) =~= component_views(parts@));
    }
    copy
}

// ---------------------------------------------------------------------------
// Paths
// ---------------------------------------------------------------------------

/// A path of the host: how it is shown, and the components that the system finds in it.
#[derive(Debug)]
pub struct HostPath {
    pub shown: String,
    pub parts: Vec<PathComponent>,
}

/// A path of the host.
pub struct HostPathView {
    pub shown: Seq<char>,
    pub parts: Seq<ComponentView>,
}

impl View for HostPath {
    type V = HostPathView;

    open spec fn view(&self) -> HostPathView {
        HostPathView { shown: self.shown@, parts: component_views(self.parts@) }
    }
}

impl Clone for HostPath {
    fn clone(&self) -> (copy: Self)
        ensures
            copy@ == self@,
    {
        HostPath { shown: self.shown.clone(), parts: copy_components(&self.parts) }
    }
}

// ---------------------------------------------------------------------------
// Containment
// ---------------------------------------------------------------------------

/// A path lies at or below another: its first components are those of the other.
pub open spec fn lies_under(path: HostPathView, root: HostPathView) -> bool {
    root.parts.is_prefix_of(path.parts)
}

/// Whether a path lies at or below another.
pub fn path_starts_with(path: &HostPath, root: &HostPath) -> (under: bool)
    ensures
        under == lies_under(path@, root@),
{
    if root.parts.len() > path.parts.len() {
        return false;
    }
    let mut i: usize = 0;
    while i < root.parts.len()
        invariant
            i <= root.parts@.len() <= path.parts@.len(),
            forall|j: int| 0 <= j < i ==> root@.parts[j] == path@.parts[j],
        decreases root.parts@.len() - i,
    {
        if !root.parts[i].same(&path.parts[i]) {
            proof {
                assert(root@.parts[i as int] != path@.parts.subrange(
                    0,
                    root@.parts.len() as int,
                )[i as int]);
            }
            return false;
        }
        i += 1;
    }
    proof {
        assert(root@.parts =~= path@.parts.subrange(0, root@.parts.len() as int));
    }
    true
}

/// Every path lies under itself.
pub proof fn law_path_lies_under_itself(path: HostPathView)
    ensures
        lies_under(path, path),
{
    assert(path.parts =~= path.parts.subrange(0, path.parts.len() as int));
}

/// What lies under a path lies under all that the path lies under.
pub proof fn law_lying_under_is_transitive(
    path: HostPathView,
    middle: HostPathView,
    root: HostPathView,
)
    requires
        lies_under(path, middle),
        lies_under(middle, root),
    ensures
        lies_under(path, root),
{
    assert(root.parts =~= path.parts.subrange(0, root.parts.len() as int));
}

/// Whatever follows the components of a path, the result lies under it; and what lies under it
/// starts with all of its components.
pub proof fn law_longer_paths_lie_under_shorter(
    root: HostPathView,
    path: HostPathView,
    more: Seq<ComponentView>,
    shown: Seq<char>,
)
    ensures
        lies_under(HostPathView { shown, parts: root.parts + more }, root),
        lies_under(path, root) <==> path.parts.len() >= root.parts.len() && forall|i: int|
            0 <= i < root.parts.len() ==> #[trigger] path.parts[i] == root.parts[i],
{
    let longer = root.parts + more;
    assert(root.parts =~= longer.subrange(0, root.parts.len() as int));
    let n = root.parts.len() as int;
    if lies_under(path, root) {
        assert forall|i: int| 0 <= i < n implies #[trigger] path.parts[i] == root.parts[i] by {
            assert(path.parts.subrange(0, n)[i] == root.parts[i]);
        }
    }
    if path.parts.len() >= n && forall|i: int|
        0 <= i < n ==> #[trigger] path.parts[i] == root.parts[i] {
        assert(root.parts =~= path.parts.subrange(0, n));
    }
}

/// A path stands for how it is shown and for its components, each in its place.
pub proof fn law_a_path_stands_for_its_parts(path: HostPath, i: int)
    ensures
        path@.shown == path.shown@,
        path@.parts.len() == path.parts@.len(),
        0 <= i < path.parts@.len() ==> {
            let seen = path@.parts[i];
            match path.parts@[i] {
                PathComponent::Normal(name) => seen == ComponentView::Normal(name@),
                PathComponent::RootDir => seen is RootDir,
                PathComponent::CurDir => seen is CurDir,
                PathComponent::ParentDir => seen is ParentDir,
                PathComponent::Prefix(PrefixKind::Disk(drive)) => seen == ComponentView::Prefix(
                    PrefixKindView::Disk(drive),
                ),
                PathComponent::Prefix(PrefixKind::VerbatimDisk(drive)) => seen
                    == ComponentView::Prefix(PrefixKindView::VerbatimDisk(drive)),
                PathComponent::Prefix(PrefixKind::Verbatim(name)) => seen == ComponentView::Prefix(
                    PrefixKindView::Verbatim(name@),
                ),
                PathComponent::Prefix(PrefixKind::DeviceNs(name)) => seen == ComponentView::Prefix(
                    PrefixKindView::DeviceNs(name@),
                ),
                PathComponent::Prefix(PrefixKind::Unc(server, share)) => seen
                    == ComponentView::Prefix(PrefixKindView::Unc(server@, share@)),
                PathComponent::Prefix(PrefixKind::VerbatimUnc(server, share)) => seen
                    == ComponentView::Prefix(PrefixKindView::VerbatimUnc(server@, share@)),
            }
        },
{
}

} // verus!
