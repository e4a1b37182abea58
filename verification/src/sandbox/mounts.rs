//! Whether a directory of the host may be mounted in a container.
//!
//! A directory may not be mounted where its path goes through a symbolic link, where a part of
//! its path is known to hold secrets, or where there is an allowlist that it is not on.

use vstd::prelude::*;

use crate::sandbox::paths;
use crate::sandbox::paths::{ComponentView, HostPath, HostPathView, PathComponent};
use crate::text;

verus! {

// ---------------------------------------------------------------------------
// Names that hold secrets
// ---------------------------------------------------------------------------

/// Directories that hold secrets.
pub open spec fn blocked_directory(name: Seq<char>) -> bool {
    ||| name == ".ssh"@
    ||| name == ".gnupg"@
    ||| name == ".aws"@
    ||| name == ".azure"@
    ||| name == ".gcloud"@
    ||| name == ".kube"@
    ||| name == ".docker"@
}

/// Files that hold secrets.
pub open spec fn blocked_file(name: Seq<char>) -> bool {
    ||| name == ".env"@
    ||| name == ".env.local"@
    ||| name == ".env.production"@
    ||| name == ".env.development"@
    ||| name == ".netrc"@
    ||| name == ".npmrc"@
    ||| name == "id_rsa"@
    ||| name == "id_ed25519"@
    ||| name == "credentials"@
    ||| name == "private_key"@
}

/// A component by the name of something that holds secrets.
pub open spec fn sensitive_component(part: ComponentView) -> bool {
    part matches ComponentView::Normal(name) && (blocked_directory(name) || blocked_file(name))
}

/// A path that goes through something that holds secrets.
pub open spec fn sensitive(path: HostPathView) -> bool {
    exists|i: int| 0 <= i < path.parts.len() && sensitive_component(#[trigger] path.parts[i])
}

fn is_blocked_directory(name: &str) -> (blocked: bool)
    ensures
        blocked == blocked_directory(name@),
{
    text::same_text(name, ".ssh") || text::same_text(name, ".gnupg") || text::same_text(
        name,
        ".aws",
    ) || text::same_text(name, ".azure") || text::same_text(name, ".gcloud") || text::same_text(
        name,
        ".kube",
    ) || text::same_text(name, ".docker")
}

fn is_blocked_file(name: &str) -> (blocked: bool)
    ensures
        blocked == blocked_file(name@),
{
    text::same_text(name, ".env") || text::same_text(name, ".env.local") || text::same_text(
        name,
        ".env.production",
    ) || text::same_text(name, ".env.development") || text::same_text(name, ".netrc")
        || text::same_text(name, ".npmrc") || text::same_text(name, "id_rsa") || text::same_text(
        name,
        "id_ed25519",
    ) || text::same_text(name, "credentials") || text::same_text(name, "private_key")
}

/// Whether a path goes through something that holds secrets.
pub fn has_sensitive_mount_component(path: &HostPath) -> (found: bool)
    ensures
        found == sensitive(path@),
{
    let mut i: usize = 0;
    while i < path.parts.len()
        invariant
            i <= path.parts@.len(),
            forall|j: int| 0 <= j < i ==> !sensitive_component(#[trigger] path@.parts[j]),
        decreases path.parts@.len() - i,
    {
        if let PathComponent::Normal(name) = &path.parts[i] {
            if is_blocked_directory(name.as_str()) || is_blocked_file(name.as_str()) {
                proof {
                    assert(sensitive_component(path@.parts[i as int]));
                }
                return true;
            }
        }
        i += 1;
    }
    false
}

// ---------------------------------------------------------------------------
// Stops on the way
// ---------------------------------------------------------------------------

/// The components that lead somewhere: the current and the parent directory are passed over.
pub open spec fn leading(parts: Seq<ComponentView>) -> Seq<ComponentView>
    decreases parts.len(),
{
    if parts.len() == 0 {
        Seq::empty()
    } else {
        let before = leading(parts.drop_last());
        match parts.last() {
            ComponentView::CurDir => before,
            ComponentView::ParentDir => before,
            part => before.push(part),
        }
    }
}

/// The stops on the way along the components, each given by the components that lead to it: one
/// for each name, from the first on. A prefix and the root are no stops.
pub open spec fn stops(parts: Seq<ComponentView>) -> Seq<Seq<ComponentView>>
    decreases parts.len(),
{
    if parts.len() == 0 {
        Seq::empty()
    } else if parts.last() is Normal {
        stops(parts.drop_last()).push(leading(parts))
    } else {
        stops(parts.drop_last())
    }
}

/// The stops on the way to a path.
pub open spec fn way(path: HostPathView) -> Seq<Seq<ComponentView>> {
    stops(path.parts)
}

/// What a list of stops stands for.
pub open spec fn stop_views(list: Seq<Vec<PathComponent>>) -> Seq<Seq<ComponentView>> {
    list.map_values(|stop: Vec<PathComponent>| paths::component_views(stop@))
}

/// Lists the stops on the way to a path.
pub fn way_to(path: &HostPath) -> (list: Vec<Vec<PathComponent>>)
    ensures
        stop_views(list@) == way(path@),
{
    let ghost all = path@.parts;
    let mut list: Vec<Vec<PathComponent>> = Vec::new();
    let mut here: Vec<PathComponent> = Vec::new();
    let mut i: usize = 0;
    proof {
        assert(stop_views(list@) =~= stops(all.take(0)));
        assert(paths::component_views(here@) =~= leading(all.take(0)));
    }
    while i < path.parts.len()
        invariant
            i <= path.parts@.len(),
            all == path@.parts,
            stop_views(list@) == stops(all.take(i as int)),
            paths::component_views(here@) == leading(all.take(i as int)),
        decreases path.parts@.len() - i,
    {
        let ghost so_far = stop_views(list@);
        let ghost led = paths::component_views(here@);
        let ghost part = path.parts@[i as int]@;
        proof {
            assert(all.take(i + 1).drop_last() =~= all.take(i as int));
            assert(all.take(i + 1).last() == part);
        }
        match &path.parts[i] {
            PathComponent::CurDir | PathComponent::ParentDir => {},
            PathComponent::Normal(name) => {
                here.push(PathComponent::Normal(name.clone()));
                proof {
                    assert(paths::component_views(here@) =~= led.push(part));
                }
                list.push(paths::copy_components(&here));
                proof {
                    assert(stop_views(list@) =~= so_far.push(paths::component_views(here@)));
                }
            },
            PathComponent::Prefix(prefix) => {
                here.push(PathComponent::Prefix(prefix.clone()));
                proof {
                    assert(paths::component_views(here@) =~= led.push(part));
                }
            },
            PathComponent::RootDir => {
                here.push(PathComponent::RootDir);
                proof {
                    assert(paths::component_views(here@) =~= led.push(part));
                }
            },
        }
        i += 1;
    }
    proof {
        assert(all.take(i as int) =~= all);
    }
    list
}

// ---------------------------------------------------------------------------
// The allowlist
// ---------------------------------------------------------------------------

/// A line of an allowlist that names a path: it is not empty, and no comment.
pub open spec fn names_path(line: Seq<char>) -> bool {
    line.len() > 0 && line[0] != '#'
}

/// The paths that lines name, without the white space around them.
pub open spec fn named_paths(lines: Seq<Seq<char>>) -> Seq<Seq<char>>
    decreases lines.len(),
{
    if lines.len() == 0 {
        Seq::empty()
    } else {
        let line = text::trim(lines.last());
        if names_path(line) {
            named_paths(lines.drop_last()).push(line)
        } else {
            named_paths(lines.drop_last())
        }
    }
}

/// The entries of an allowlist.
pub open spec fn allowlist_entries(content: Seq<char>) -> Seq<Seq<char>> {
    named_paths(text::lines(content))
}

/// Reads the entries of an allowlist.
pub fn read_allowlist(content: &str) -> (entries: Vec<String>)
    ensures
        text::texts(entries@) == allowlist_entries(content@),
{
    let lines = text::lines_of(content);
    let ghost all = text::texts(lines@);
    let mut entries: Vec<String> = Vec::new();
    let mut i: usize = 0;
    proof {
        assert(text::texts(entries@) =~= named_paths(all.take(0)));
    }
    while i < lines.len()
        invariant
            i <= lines@.len(),
            all == text::texts(lines@),
            text::texts(entries@) == named_paths(all.take(i as int)),
        decreases lines@.len() - i,
    {
        let ghost so_far = text::texts(entries@);
        proof {
            assert(all.take(i + 1).drop_last() =~= all.take(i as int));
            assert(all.take(i + 1).last() == lines@[i as int]@);
        }
        let line = text::trimmed(lines[i].as_str());
        let chars = text::chars_of(line.as_str());
        if chars.len() > 0 && chars[0] != '#' {
            let ghost entry = line@;
            entries.push(line);
            proof {
                assert(text::texts(entries@) =~= so_far.push(entry));
            }
        }
        i += 1;
    }
    proof {
        assert(all.take(i as int) =~= all);
    }
    entries
}

/// The path lies under one of the roots.
pub open spec fn under_any(path: HostPathView, roots: Seq<HostPathView>) -> bool {
    exists|i: int| 0 <= i < roots.len() && paths::lies_under(path, #[trigger] roots[i])
}

/// What an allowlist with these roots says of a path. One without any allows everything.
pub open spec fn allowlist_says(
    path: HostPathView,
    file: Seq<char>,
    roots: Seq<HostPathView>,
) -> Result<(), Seq<char>> {
    if roots.len() == 0 || under_any(path, roots) {
        Ok(())
    } else {
        Err("mount path '"@ + path.shown + "' is not allowed by '"@ + file + "'"@)
    }
}

/// What a verdict stands for.
pub open spec fn verdict_view(verdict: Result<(), String>) -> Result<(), Seq<char>> {
    match verdict {
        Ok(_) => Ok(()),
        Err(e) => Err(e@),
    }
}

/// What a list of paths stands for.
pub open spec fn path_views(list: Seq<HostPath>) -> Seq<HostPathView> {
    list.map_values(|p: HostPath| p@)
}

fn consult_allowlist(path: &HostPath, file: &str, roots: &Vec<HostPath>) -> (verdict: Result<
    (),
    String,
>)
    ensures
        verdict_view(verdict) == allowlist_says(path@, file@, path_views(roots@)),
{
    if roots.len() == 0 {
        return Ok(());
    }
    let ghost all = path_views(roots@);
    let mut i: usize = 0;
    while i < roots.len()
        invariant
            i <= roots@.len(),
            all == path_views(roots@),
            forall|j: int| 0 <= j < i ==> !paths::lies_under(path@, #[trigger] all[j]),
        decreases roots@.len() - i,
    {
        if paths::path_starts_with(path, &roots[i]) {
            proof {
                assert(paths::lies_under(path@, all[i as int]));
            }
            return Ok(());
        }
        i += 1;
    }
    let mut s = "mount path '".to_string();
    s.append(path.shown.as_str());
    s.append("' is not allowed by '");
    s.append(file);
    s.append("'");
    Err(s)
}

/// Where an allowlist is.
#[derive(Debug)]
pub enum AllowlistPath {
    File(String),
    /// At this path, relative to a directory.
    Below { dir: String, file: String },
}

/// Where an allowlist is.
pub enum AllowlistPathView {
    File(Seq<char>),
    Below { dir: Seq<char>, file: Seq<char> },
}

impl View for AllowlistPath {
    type V = AllowlistPathView;

    open spec fn view(&self) -> AllowlistPathView {
        match *self {
            AllowlistPath::File(file) => AllowlistPathView::File(file@),
            AllowlistPath::Below { dir, file } => AllowlistPathView::Below {
                dir: dir@,
                file: file@,
            },
        }
    }
}

/// What an optional place stands for.
pub open spec fn opt_place(place: Option<AllowlistPath>) -> Option<AllowlistPathView> {
    match place {
        Some(place) => Some(place@),
        None => None,
    }
}

/// The allowlist in a user's home.
pub open spec fn list_below(dir: Seq<char>) -> AllowlistPathView {
    AllowlistPathView::Below { dir, file: ".microclaw/sandbox-mount-allowlist.txt"@ }
}

/// The allowlist in the user's home, which is `home`, else `profile`.
pub open spec fn home_allowlist(home: Option<Seq<char>>, profile: Option<Seq<char>>) -> Option<
    AllowlistPathView,
> {
    match (home, profile) {
        (Some(dir), _) => Some(list_below(dir)),
        (None, Some(dir)) => Some(list_below(dir)),
        (None, None) => None,
    }
}

/// Finds the allowlist in the user's home: the environment variable `HOME`, else
/// `USERPROFILE`.
pub fn default_allowlist_path(home: &Option<String>, profile: &Option<String>) -> (place: Option<
    AllowlistPath,
>)
    ensures
        opt_place(place) == home_allowlist(text::opt_text(*home), text::opt_text(*profile)),
{
    let dir = match home {
        Some(home) => home.clone(),
        None => match profile {
            Some(profile) => profile.clone(),
            None => {
                return None;
            },
        },
    };
    Some(AllowlistPath::Below { dir, file: ".microclaw/sandbox-mount-allowlist.txt".to_string() })
}

/// The allowlist that is consulted: the configured one, else the one that the environment names,
/// else the one in the user's home.
pub open spec fn allowlist(
    configured: Option<Seq<char>>,
    named: Option<Seq<char>>,
    home: Option<Seq<char>>,
    profile: Option<Seq<char>>,
) -> Option<AllowlistPathView> {
    match (configured, named) {
        (Some(file), _) => Some(AllowlistPathView::File(file)),
        (None, Some(file)) => Some(AllowlistPathView::File(file)),
        (None, None) => home_allowlist(home, profile),
    }
}

/// Finds the allowlist that is consulted. `named` is the environment variable
/// `MICROCLAW_SANDBOX_MOUNT_ALLOWLIST`.
pub fn allowlist_path(
    configured: &Option<String>,
    named: &Option<String>,
    home: &Option<String>,
    profile: &Option<String>,
) -> (place: Option<AllowlistPath>)
    ensures
        opt_place(place) == allowlist(
            text::opt_text(*configured),
            text::opt_text(*named),
            text::opt_text(*home),
            text::opt_text(*profile),
        ),
        *configured matches Some(file) ==> opt_place(place) == Some(
            AllowlistPathView::File(file@),
        ),
        *configured is None ==> (*named matches Some(file) ==> opt_place(place) == Some(
            AllowlistPathView::File(file@),
        )),
{
    match configured {
        Some(file) => Some(AllowlistPath::File(file.clone())),
        None => match named {
            Some(file) => Some(AllowlistPath::File(file.clone())),
            None => default_allowlist_path(home, profile),
        },
    }
}

// ---------------------------------------------------------------------------
// The check
// ---------------------------------------------------------------------------

/// What the system says of a path, links not followed.
#[derive(Debug)]
pub enum StatOutcome {
    /// It could not be looked at; this is how it is shown.
    Failed(String),
    Plain,
    Symlink,
}

/// What the system says of a path, links not followed.
pub enum StatView {
    Failed(Seq<char>),
    Plain,
    Symlink,
}

impl View for StatOutcome {
    type V = StatView;

    open spec fn view(&self) -> StatView {
        match *self {
            StatOutcome::Failed(shown) => StatView::Failed(shown@),
            StatOutcome::Plain => StatView::Plain,
            StatOutcome::Symlink => StatView::Symlink,
        }
    }
}

/// How far a check has come.
pub enum MountPhase {
    /// `stop`, on the way to the path, is looked at, and `rest` after it.
    Looking { stop: Vec<PathComponent>, rest: Vec<Vec<PathComponent>> },
    /// Is there an allowlist?
    Finding { file: String },
    /// The allowlist is read.
    Reading { file: String },
    /// `entry` of the allowlist is resolved, and `rest` after it; `roots` are resolved.
    Resolving { file: String, entry: String, rest: Vec<String>, roots: Vec<HostPath> },
    /// The check is over.
    Done(Result<(), String>),
}

/// How far a check has come.
pub enum MountPhaseView {
    Looking { stop: Seq<ComponentView>, rest: Seq<Seq<ComponentView>> },
    Finding { file: Seq<char> },
    Reading { file: Seq<char> },
    Resolving {
        file: Seq<char>,
        entry: Seq<char>,
        rest: Seq<Seq<char>>,
        roots: Seq<HostPathView>,
    },
    Done(Result<(), Seq<char>>),
}

impl View for MountPhase {
    type V = MountPhaseView;

    open spec fn view(&self) -> MountPhaseView {
        match *self {
            MountPhase::Looking { stop, rest } => MountPhaseView::Looking {
                stop: paths::component_views(stop@),
                rest: stop_views(rest@),
            },
            MountPhase::Finding { file } => MountPhaseView::Finding { file: file@ },
            MountPhase::Reading { file } => MountPhaseView::Reading { file: file@ },
            MountPhase::Resolving { file, entry, rest, roots } => MountPhaseView::Resolving {
                file: file@,
                entry: entry@,
                rest: text::texts(rest@),
                roots: path_views(roots@),
            },
            MountPhase::Done(verdict) => MountPhaseView::Done(verdict_view(verdict)),
        }
    }
}

/// A check whether a path may be mounted.
pub struct MountCheck {
    pub path: HostPath,
    pub allowlist: Option<String>,
    pub phase: MountPhase,
}

/// A check whether a path may be mounted.
pub struct MountCheckView {
    pub path: HostPathView,
    pub allowlist: Option<Seq<char>>,
    pub phase: MountPhaseView,
}

impl View for MountCheck {
    type V = MountCheckView;

    open spec fn view(&self) -> MountCheckView {
        MountCheckView {
            path: self.path@,
            allowlist: text::opt_text(self.allowlist),
            phase: self.phase@,
        }
    }
}

/// What a check needs to know next.
pub enum MountAction {
    /// Look at the path that the system makes of these components, without following it where
    /// it is a link.
    Stat(Vec<PathComponent>),
    /// Is there a file?
    Find(String),
    /// Read a file.
    Read(String),
    /// Resolve a path to the one without links, dots and gaps.
    Canonicalize(String),
    /// Nothing: this is the verdict.
    Finish(Result<(), String>),
}

/// What a check needs to know next.
pub enum MountActionView {
    Stat(Seq<ComponentView>),
    Find(Seq<char>),
    Read(Seq<char>),
    Canonicalize(Seq<char>),
    Finish(Result<(), Seq<char>>),
}

impl View for MountAction {
    type V = MountActionView;

    open spec fn view(&self) -> MountActionView {
        match *self {
            MountAction::Stat(stop) => MountActionView::Stat(paths::component_views(stop@)),
            MountAction::Find(file) => MountActionView::Find(file@),
            MountAction::Read(file) => MountActionView::Read(file@),
            MountAction::Canonicalize(path) => MountActionView::Canonicalize(path@),
            MountAction::Finish(verdict) => MountActionView::Finish(verdict_view(verdict)),
        }
    }
}

/// What the system said.
pub enum MountEvent {
    Stat(StatOutcome),
    Found(bool),
    /// The text of a file, or nothing where it could not be read.
    Content(Option<String>),
    /// A path as the system reads it, and the resolved path, or nothing where it could not be
    /// resolved.
    Canonical { read: HostPath, canonical: Option<HostPath> },
}

/// What the system said.
pub enum MountEventView {
    Stat(StatView),
    Found(bool),
    Content(Option<Seq<char>>),
    Canonical { read: HostPathView, canonical: Option<HostPathView> },
}

/// What an optional path stands for.
pub open spec fn opt_path(path: Option<HostPath>) -> Option<HostPathView> {
    match path {
        Some(path) => Some(path@),
        None => None,
    }
}

impl View for MountEvent {
    type V = MountEventView;

    open spec fn view(&self) -> MountEventView {
        match *self {
            MountEvent::Stat(outcome) => MountEventView::Stat(outcome@),
            MountEvent::Found(found) => MountEventView::Found(found),
            MountEvent::Content(content) => MountEventView::Content(text::opt_text(content)),
            MountEvent::Canonical { read, canonical } => MountEventView::Canonical {
                read: read@,
                canonical: opt_path(canonical),
            },
        }
    }
}

/// After all links have been ruled out: names that hold secrets are refused, and then it is for
/// the allowlist to say.
pub open spec fn past_links(path: HostPathView, allowlist: Option<Seq<char>>) -> MountPhaseView {
    if sensitive(path) {
        MountPhaseView::Done(Err("mount path contains sensitive component"@))
    } else {
        match allowlist {
            Some(file) => MountPhaseView::Finding { file },
            None => MountPhaseView::Done(Ok(())),
        }
    }
}

/// With these stops still to look at.
pub open spec fn looking(
    path: HostPathView,
    allowlist: Option<Seq<char>>,
    stops: Seq<Seq<ComponentView>>,
) -> MountPhaseView {
    if stops.len() == 0 {
        past_links(path, allowlist)
    } else {
        MountPhaseView::Looking { stop: stops[0], rest: stops.drop_first() }
    }
}

/// With these entries still to resolve.
pub open spec fn resolving(
    path: HostPathView,
    file: Seq<char>,
    entries: Seq<Seq<char>>,
    roots: Seq<HostPathView>,
) -> MountPhaseView {
    if entries.len() == 0 {
        MountPhaseView::Done(allowlist_says(path, file, roots))
    } else {
        MountPhaseView::Resolving { file, entry: entries[0], rest: entries.drop_first(), roots }
    }
}

/// A path as it was resolved, or as it is where it could not be.
pub open spec fn resolved_or<T>(canonical: Option<T>, path: T) -> T {
    match canonical {
        Some(canonical) => canonical,
        None => path,
    }
}

impl MountCheckView {
    /// A check at its start.
    pub open spec fn begun(path: HostPathView, allowlist: Option<Seq<char>>) -> MountCheckView {
        MountCheckView { path, allowlist, phase: looking(path, allowlist, way(path)) }
    }

    /// What the check needs to know next.
    pub open spec fn action(self) -> MountActionView {
        match self.phase {
            MountPhaseView::Looking { stop, rest } => MountActionView::Stat(stop),
            MountPhaseView::Finding { file } => MountActionView::Find(file),
            MountPhaseView::Reading { file } => MountActionView::Read(file),
            MountPhaseView::Resolving { file, entry, rest, roots } =>
                MountActionView::Canonicalize(entry),
            MountPhaseView::Done(verdict) => MountActionView::Finish(verdict),
        }
    }

    /// How far the check has come once the system said something. What was not asked for changes
    /// nothing.
    pub open spec fn after(self, event: MountEventView) -> MountCheckView {
        let phase = match (self.phase, event) {
            (MountPhaseView::Looking { stop, rest }, MountEventView::Stat(outcome)) =>
                match outcome {
                    StatView::Failed(shown) => MountPhaseView::Done(
                        Err("failed to stat mount path '"@ + shown + "'"@),
                    ),
                    StatView::Symlink => MountPhaseView::Done(
                        Err("mount path contains symlink component"@),
                    ),
                    StatView::Plain => looking(self.path, self.allowlist, rest),
                },
            (MountPhaseView::Finding { file }, MountEventView::Found(found)) => if found {
                MountPhaseView::Reading { file }
            } else {
                MountPhaseView::Done(Ok(()))
            },
            (MountPhaseView::Reading { file }, MountEventView::Content(content)) => match content {
                Some(content) => resolving(
                    self.path,
                    file,
                    allowlist_entries(content),
                    Seq::empty(),
                ),
                None => MountPhaseView::Done(
                    Err("failed reading mount allowlist '"@ + file + "'"@),
                ),
            },
            (
                MountPhaseView::Resolving { file, entry, rest, roots },
                MountEventView::Canonical { read, canonical },
            ) => resolving(self.path, file, rest, roots.push(resolved_or(canonical, read))),
            _ => self.phase,
        };
        MountCheckView { phase, ..self }
    }
}

fn past_links_now(path: &HostPath, allowlist: &Option<String>) -> (phase: MountPhase)
    ensures
        phase@ == past_links(path@, text::opt_text(*allowlist)),
{
    if has_sensitive_mount_component(path) {
        return MountPhase::Done(Err("mount path contains sensitive component".to_string()));
    }
    match allowlist {
        Some(file) => MountPhase::Finding { file: file.clone() },
        None => MountPhase::Done(Ok(())),
    }
}

fn look_on(path: &HostPath, allowlist: &Option<String>, left: Vec<Vec<PathComponent>>) -> (phase:
    MountPhase)
    ensures
        phase@ == looking(path@, text::opt_text(*allowlist), stop_views(left@)),
{
    let mut left = left;
    if left.len() == 0 {
        return past_links_now(path, allowlist);
    }
    let ghost all = stop_views(left@);
    let stop = left.remove(0);
    proof {
        assert(stop_views(left@) =~= all.drop_first());
    }
    MountPhase::Looking { stop, rest: left }
}

fn resolve_on(path: &HostPath, file: String, entries: Vec<String>, roots: Vec<HostPath>) -> (phase:
    MountPhase)
    ensures
        phase@ == resolving(path@, file@, text::texts(entries@), path_views(roots@)),
{
    let mut entries = entries;
    if entries.len() == 0 {
        return MountPhase::Done(consult_allowlist(path, file.as_str(), &roots));
    }
    let ghost all = text::texts(entries@);
    let entry = entries.remove(0);
    proof {
        assert(text::texts(entries@) =~= all.drop_first());
    }
    MountPhase::Resolving { file, entry, rest: entries, roots }
}

impl MountCheck {
    /// Begins a check.
    pub fn validate_mount_dir(path: HostPath, allowlist: Option<String>) -> (check: Self)
        ensures
            check@ == MountCheckView::begun(path@, text::opt_text(allowlist)),
    {
        let phase = look_on(&path, &allowlist, way_to(&path));
        MountCheck { path, allowlist, phase }
    }

    /// Says what the check needs to know next.
    pub fn action(&self) -> (action: MountAction)
        ensures
            action@ == self@.action(),
    {
        match &self.phase {
            MountPhase::Looking { stop, rest } => MountAction::Stat(paths::copy_components(stop)),
            MountPhase::Finding { file } => MountAction::Find(file.clone()),
            MountPhase::Reading { file } => MountAction::Read(file.clone()),
            MountPhase::Resolving { file, entry, rest, roots } => MountAction::Canonicalize(
                entry.clone(),
            ),
            MountPhase::Done(verdict) => MountAction::Finish(
                match verdict {
                    Ok(_) => Ok(()),
                    Err(e) => Err(e.clone()),
                },
            ),
        }
    }

    /// Takes in what the system said.
    pub fn advance(self, event: MountEvent) -> (next: Self)
        ensures
            next@ == self@.after(event@),
    {
        let phase = match (self.phase, event) {
            (MountPhase::Looking { stop, rest }, MountEvent::Stat(outcome)) => match outcome {
                StatOutcome::Failed(shown) => {
                    let mut s = "failed to stat mount path '".to_string();
                    s.append(shown.as_str());
                    s.append("'");
                    MountPhase::Done(Err(s))
                },
                StatOutcome::Symlink => MountPhase::Done(
                    Err("mount path contains symlink component".to_string()),
                ),
                StatOutcome::Plain => look_on(&self.path, &self.allowlist, rest),
            },
            (MountPhase::Finding { file }, MountEvent::Found(found)) => if found {
                MountPhase::Reading { file }
            } else {
                MountPhase::Done(Ok(()))
            },
            (MountPhase::Reading { file }, MountEvent::Content(content)) => match content {
                Some(content) => {
                    let roots: Vec<HostPath> = Vec::new();
                    proof {
                        assert(path_views(roots@) =~= Seq::<HostPathView>::empty());
                    }
                    resolve_on(&self.path, file, read_allowlist(content.as_str()), roots)
                },
                None => {
                    let mut s = "failed reading mount allowlist '".to_string();
                    s.append(file.as_str());
                    s.append("'");
                    MountPhase::Done(Err(s))
                },
            },
            (
                MountPhase::Resolving { file, entry, rest, roots },
                MountEvent::Canonical { read, canonical },
            ) => {
                let mut roots = roots;
                let ghost before = path_views(roots@);
                let root = match canonical {
                    Some(canonical) => canonical,
                    None => read,
                };
                let ghost added = root@;
                roots.push(root);
                proof {
                    assert(path_views(roots@) =~= before.push(added));
                }
                resolve_on(&self.path, file, rest, roots)
            },
            (phase, _) => phase,
        };
        MountCheck { path: self.path, allowlist: self.allowlist, phase }
    }
}

// ---------------------------------------------------------------------------
// The directory that is mounted
// ---------------------------------------------------------------------------

/// The path that is checked: the working directory as it was resolved, or as it is where it
/// could not be.
pub fn mount_candidate(working_dir: &HostPath, canonical: &Option<HostPath>) -> (path: HostPath)
    ensures
        path@ == resolved_or(opt_path(*canonical), working_dir@),
        *canonical matches Some(resolved) ==> path@ == resolved@,
        *canonical is None ==> path@ == working_dir@,
{
    match canonical {
        Some(canonical) => canonical.clone(),
        None => working_dir.clone(),
    }
}

/// Settles on the directory that is mounted: the one that was checked, or the working directory
/// as it is where the check refused it.
pub fn resolve_mount_dir(
    working_dir: &str,
    canonical: &Option<String>,
    verdict: &Result<(), String>,
) -> (dir: String)
    ensures
        dir@ == match *verdict {
            Ok(_) => resolved_or(text::opt_text(*canonical), working_dir@),
            Err(_) => working_dir@,
        },
        *verdict is Err || *canonical is None ==> dir@ == working_dir@,
        *verdict is Ok ==> (*canonical matches Some(resolved) ==> dir@ == resolved@),
{
    match verdict {
        Ok(_) => match canonical {
            Some(canonical) => canonical.clone(),
            None => working_dir.to_string(),
        },
        Err(_) => working_dir.to_string(),
    }
}

// ---------------------------------------------------------------------------
// Laws
// ---------------------------------------------------------------------------

/// The files of a host, as its system speaks of them.
pub struct HostFiles {
    pub stat: spec_fn(Seq<ComponentView>) -> StatView,
    pub found: spec_fn(Seq<char>) -> bool,
    pub content: spec_fn(Seq<char>) -> Option<Seq<char>>,
    pub read: spec_fn(Seq<char>) -> HostPathView,
    pub canonical: spec_fn(Seq<char>) -> Option<HostPathView>,
}

impl HostFiles {
    /// What the system says to what a check needs to know. To a verdict it has nothing to say.
    pub open spec fn answer(self, action: MountActionView) -> MountEventView {
        match action {
            MountActionView::Stat(stop) => MountEventView::Stat((self.stat)(stop)),
            MountActionView::Find(file) => MountEventView::Found((self.found)(file)),
            MountActionView::Read(file) => MountEventView::Content((self.content)(file)),
            MountActionView::Canonicalize(path) => MountEventView::Canonical {
                read: (self.read)(path),
                canonical: (self.canonical)(path),
            },
            MountActionView::Finish(_) => MountEventView::Found(false),
        }
    }

    /// Why a path with these stops on its way is refused before it is read any further, if it
    /// is: the first stop that is no plain file or directory decides.
    pub open spec fn obstacle(self, stops: Seq<Seq<ComponentView>>) -> Option<Seq<char>>
        decreases stops.len(),
    {
        if stops.len() == 0 {
            None
        } else {
            match (self.stat)(stops[0]) {
                StatView::Failed(shown) => Some("failed to stat mount path '"@ + shown + "'"@),
                StatView::Symlink => Some("mount path contains symlink component"@),
                StatView::Plain => self.obstacle(stops.drop_first()),
            }
        }
    }

    /// The roots that the entries of an allowlist stand for.
    pub open spec fn roots(self, entries: Seq<Seq<char>>) -> Seq<HostPathView> {
        entries.map_values(
            |entry: Seq<char>| resolved_or((self.canonical)(entry), (self.read)(entry)),
        )
    }

    /// What the allowlist says of a path. Where there is no allowlist, everything is allowed.
    pub open spec fn listed(self, path: HostPathView, file: Seq<char>) -> Result<(), Seq<char>> {
        if !(self.found)(file) {
            Ok(())
        } else {
            match (self.content)(file) {
                Some(content) => allowlist_says(
                    path,
                    file,
                    self.roots(allowlist_entries(content)),
                ),
                None => Err("failed reading mount allowlist '"@ + file + "'"@),
            }
        }
    }

    /// Whether a path without links may be mounted.
    pub open spec fn permits(self, path: HostPathView, allowlist: Option<Seq<char>>) -> Result<
        (),
        Seq<char>,
    > {
        if sensitive(path) {
            Err("mount path contains sensitive component"@)
        } else {
            match allowlist {
                Some(file) => self.listed(path, file),
                None => Ok(()),
            }
        }
    }

    /// Whether a path may be mounted.
    pub open spec fn verdict(self, path: HostPathView, allowlist: Option<Seq<char>>) -> Result<
        (),
        Seq<char>,
    > {
        match self.obstacle(way(path)) {
            Some(e) => Err(e),
            None => self.permits(path, allowlist),
        }
    }
}

impl MountCheckView {
    /// How far the check has come after a number of answers.
    pub open spec fn answered(self, files: HostFiles, answers: nat) -> MountCheckView
        decreases answers,
    {
        if answers == 0 {
            self
        } else {
            let last = self.answered(files, (answers - 1) as nat);
            last.after(files.answer(last.action()))
        }
    }

    /// What the check comes to from here on.
    pub open spec fn heading_for(self, files: HostFiles) -> Result<(), Seq<char>> {
        match self.phase {
            MountPhaseView::Looking { stop, rest } => match files.obstacle(seq![stop] + rest) {
                Some(e) => Err(e),
                None => files.permits(self.path, self.allowlist),
            },
            MountPhaseView::Finding { file } => files.listed(self.path, file),
            MountPhaseView::Reading { file } => match (files.content)(file) {
                Some(content) => allowlist_says(
                    self.path,
                    file,
                    files.roots(allowlist_entries(content)),
                ),
                None => Err("failed reading mount allowlist '"@ + file + "'"@),
            },
            MountPhaseView::Resolving { file, entry, rest, roots } => allowlist_says(
                self.path,
                file,
                roots + files.roots(seq![entry] + rest),
            ),
            MountPhaseView::Done(verdict) => verdict,
        }
    }

    /// How many answers the check needs from here on, at most.
    pub open spec fn answers_needed(self, files: HostFiles) -> nat {
        let reading = |file: Seq<char>|
            match (files.content)(file) {
                Some(content) => 1 + allowlist_entries(content).len(),
                None => 1nat,
            };
        match self.phase {
            MountPhaseView::Looking { stop, rest } => 1 + rest.len() + match self.allowlist {
                Some(file) => 1 + reading(file),
                None => 0nat,
            },
            MountPhaseView::Finding { file } => 1 + reading(file),
            MountPhaseView::Reading { file } => reading(file),
            MountPhaseView::Resolving { file, entry, rest, roots } => 1 + rest.len(),
            MountPhaseView::Done(_) => 0,
        }
    }
}

proof fn lemma_answer_keeps_heading(check: MountCheckView, files: HostFiles)
    ensures
        check.after(files.answer(check.action())).heading_for(files) == check.heading_for(files),
        check.phase is Done ==> check.after(files.answer(check.action())) == check,
        !(check.phase is Done) ==> check.after(files.answer(check.action())).answers_needed(files)
            < check.answers_needed(files),
{
    let next = check.after(files.answer(check.action()));
    match check.phase {
        MountPhaseView::Looking { stop, rest } => {
            let stops = seq![stop] + rest;
            assert(stops[0] == stop);
            assert(stops.drop_first() =~= rest);
            assert(files.obstacle(stops) == match (files.stat)(stop) {
                StatView::Failed(shown) => Some("failed to stat mount path '"@ + shown + "'"@),
                StatView::Symlink => Some("mount path contains symlink component"@),
                StatView::Plain => files.obstacle(rest),
            });
            if rest.len() > 0 {
                assert(seq![rest[0]] + rest.drop_first() =~= rest);
            } else {
                assert(files.obstacle(rest) is None);
            }
        },
        MountPhaseView::Finding { file } => {},
        MountPhaseView::Reading { file } => {
            if let Some(content) = (files.content)(file) {
                let entries = allowlist_entries(content);
                if entries.len() > 0 {
                    assert(seq![entries[0]] + entries.drop_first() =~= entries);
                    assert(Seq::<HostPathView>::empty() + files.roots(entries) =~= files.roots(
                        entries,
                    ));
                } else {
                    assert(files.roots(entries) =~= Seq::<HostPathView>::empty());
                }
            }
        },
        MountPhaseView::Resolving { file, entry, rest, roots } => {
            let root = resolved_or((files.canonical)(entry), (files.read)(entry));
            assert(roots.push(root) + files.roots(rest) =~= roots + files.roots(
                seq![entry] + rest,
            ));
            if rest.len() > 0 {
                assert(seq![rest[0]] + rest.drop_first() =~= rest);
            } else {
                assert(roots.push(root) =~= roots + files.roots(seq![entry] + rest));
            }
        },
        MountPhaseView::Done(verdict) => {},
    }
}

proof fn lemma_answers(check: MountCheckView, files: HostFiles, answers: nat)
    ensures
        check.answered(files, answers).heading_for(files) == check.heading_for(files),
        check.answered(files, answers).phase is Done || check.answered(
            files,
            answers,
        ).answers_needed(files) + answers <= check.answers_needed(files),
    decreases answers,
{
    if answers > 0 {
        lemma_answers(check, files, (answers - 1) as nat);
        lemma_answer_keeps_heading(check.answered(files, (answers - 1) as nat), files);
    }
}

/// A check that is told the truth ends, and its verdict is the right one: it refuses a path for
/// the first link or failure on the way to it, then for a name that holds secrets, and then for
/// what the allowlist says.
pub proof fn law_check_comes_to_the_verdict(
    path: HostPathView,
    allowlist: Option<Seq<char>>,
    files: HostFiles,
)
    ensures
        ({
            let check = MountCheckView::begun(path, allowlist);
            check.answered(files, check.answers_needed(files)).phase == MountPhaseView::Done(
                files.verdict(path, allowlist),
            )
        }),
{
    let check = MountCheckView::begun(path, allowlist);
    let stops = way(path);
    if stops.len() > 0 {
        assert(seq![stops[0]] + stops.drop_first() =~= stops);
    }
    assert(check.heading_for(files) == files.verdict(path, allowlist));
    lemma_answers(check, files, check.answers_needed(files));
    let last = check.answered(files, check.answers_needed(files));
    assert(last.answers_needed(files) == 0 || last.phase is Done);
}

/// What was not asked for makes no difference to a check.
pub proof fn law_unasked_answers_change_nothing(check: MountCheckView, event: MountEventView)
    requires
        match check.action() {
            MountActionView::Stat(_) => !(event is Stat),
            MountActionView::Find(_) => !(event is Found),
            MountActionView::Read(_) => !(event is Content),
            MountActionView::Canonicalize(_) => !(event is Canonical),
            MountActionView::Finish(_) => true,
        },
    ensures
        check.after(event) == check,
{
}

/// A path through a name that holds secrets is never mounted, whatever the allowlist says.
pub proof fn law_secrets_are_never_mounted(
    path: HostPathView,
    allowlist: Option<Seq<char>>,
    files: HostFiles,
)
    requires
        sensitive(path),
    ensures
        files.verdict(path, allowlist) is Err,
{
}

/// What lies under a path that goes through a name that holds secrets does so too.
pub proof fn law_secrets_extend_below(path: HostPathView, root: HostPathView)
    requires
        paths::lies_under(path, root),
        sensitive(root),
    ensures
        sensitive(path),
{
    let i = choose|i: int|
        0 <= i < root.parts.len() && sensitive_component(#[trigger] root.parts[i]);
    assert(root.parts[i] == path.parts.subrange(0, root.parts.len() as int)[i]);
    assert(sensitive_component(path.parts[i]));
}

/// A path with a link on its way is never mounted.
pub proof fn law_links_are_never_mounted(
    path: HostPathView,
    allowlist: Option<Seq<char>>,
    files: HostFiles,
    i: int,
)
    requires
        0 <= i < way(path).len(),
        (files.stat)(way(path)[i]) == StatView::Symlink,
    ensures
        files.verdict(path, allowlist) is Err,
{
    lemma_obstacle_is_found(files, way(path), i);
}

proof fn lemma_obstacle_is_found(files: HostFiles, stops: Seq<Seq<ComponentView>>, i: int)
    requires
        0 <= i < stops.len(),
        (files.stat)(stops[i]) != StatView::Plain,
    ensures
        files.obstacle(stops) is Some,
    decreases stops.len(),
{
    if i > 0 && (files.stat)(stops[0]) == StatView::Plain {
        lemma_obstacle_is_found(files, stops.drop_first(), i - 1);
    }
}

/// Every name in a path is looked at, by the components that lead to it.
pub proof fn law_every_name_is_looked_at(parts: Seq<ComponentView>, i: int)
    requires
        0 <= i < parts.len(),
        parts[i] is Normal,
    ensures
        stops(parts).contains(leading(parts.take(i + 1))),
    decreases parts.len(),
{
    if i == parts.len() - 1 {
        assert(parts.take(i + 1) =~= parts);
        assert(stops(parts).last() == leading(parts));
        assert(stops(parts)[stops(parts).len() - 1] == leading(parts));
    } else {
        let rest = parts.drop_last();
        assert(rest.take(i + 1) =~= parts.take(i + 1));
        law_every_name_is_looked_at(rest, i);
        let k = choose|k: int|
            0 <= k < stops(rest).len() && stops(rest)[k] == leading(rest.take(i + 1));
        assert(stops(parts)[k] == stops(rest)[k]);
    }
}

/// With an allowlist that names a path, only what lies under one that it names is mounted.
pub proof fn law_allowlist_is_kept(
    path: HostPathView,
    file: Seq<char>,
    files: HostFiles,
    content: Seq<char>,
)
    requires
        (files.found)(file),
        (files.content)(file) == Some(content),
        allowlist_entries(content).len() > 0,
        files.verdict(path, Some(file)) is Ok,
    ensures
        under_any(path, files.roots(allowlist_entries(content))),
{
}

/// An allowlist that names no path allows what a missing one allows.
pub proof fn law_empty_allowlist_is_no_allowlist(
    path: HostPathView,
    file: Seq<char>,
    files: HostFiles,
    content: Seq<char>,
)
    requires
        (files.content)(file) == Some(content),
        allowlist_entries(content).len() == 0,
    ensures
        files.verdict(path, Some(file)) == files.verdict(path, None),
{
}

// ---------------------------------------------------------------------------
// Where the allowlist is, and what it says
// ---------------------------------------------------------------------------

/// The configured allowlist is consulted, whatever the environment holds; without one the list
/// that the environment names; without that the list in the user's home, which is `HOME`, else
/// `USERPROFILE`; and none where there is no home either.
pub proof fn law_the_first_place_given_is_consulted(
    file: Seq<char>,
    dir: Seq<char>,
    named: Option<Seq<char>>,
    home: Option<Seq<char>>,
    profile: Option<Seq<char>>,
)
    ensures
        allowlist(Some(file), named, home, profile) == Some(AllowlistPathView::File(file)),
        allowlist(None, Some(file), home, profile) == Some(AllowlistPathView::File(file)),
        allowlist(None, None, Some(dir), profile) == Some(
            AllowlistPathView::Below { dir, file: ".microclaw/sandbox-mount-allowlist.txt"@ },
        ),
        allowlist(None, None, None, Some(dir)) == Some(
            AllowlistPathView::Below { dir, file: ".microclaw/sandbox-mount-allowlist.txt"@ },
        ),
        allowlist(None, None, None, None) is None,
        home_allowlist(home, profile) == allowlist(None, None, home, profile),
{
}

/// What an environment holds makes no difference once a file is configured, nor does the home
/// once a file is named.
pub proof fn law_later_places_do_not_matter(
    file: Seq<char>,
    a: (Option<Seq<char>>, Option<Seq<char>>, Option<Seq<char>>),
    b: (Option<Seq<char>>, Option<Seq<char>>, Option<Seq<char>>),
)
    ensures
        allowlist(Some(file), a.0, a.1, a.2) == allowlist(Some(file), b.0, b.1, b.2),
        allowlist(None, Some(file), a.1, a.2) == allowlist(None, Some(file), b.1, b.2),
        allowlist(Some(file), a.0, a.1, a.2) == allowlist(None, Some(file), b.1, b.2),
{
}

/// The lines of two parts of an allowlist name what the one names and then what the other does.
proof fn lemma_named_paths_of_parts(a: Seq<Seq<char>>, b: Seq<Seq<char>>)
    ensures
        named_paths(a + b) == named_paths(a) + named_paths(b),
    decreases b.len(),
{
    if b.len() == 0 {
        assert(a + b =~= a);
        assert(named_paths(a) + named_paths(b) =~= named_paths(a));
    } else {
        lemma_named_paths_of_parts(a, b.drop_last());
        assert((a + b).drop_last() =~= a + b.drop_last());
        assert((a + b).last() == b.last());
        let line = text::trim(b.last());
        let before = named_paths(b.drop_last());
        assert(named_paths(a) + before.push(line) =~= (named_paths(a) + before).push(line));
    }
}

/// A line names a path unless it is blank or a comment, whatever the other lines are: the path is
/// the line without the white space around it. An empty text names none.
pub proof fn law_each_line_names_a_path(line: Seq<char>, rest: Seq<char>)
    requires
        forall|i: int| 0 <= i < line.len() ==> #[trigger] line[i] != '\n',
        line.len() > 0 ==> line[line.len() - 1] != '\r',
    ensures
        ({
            let path = text::trim(line);
            let entries = allowlist_entries(line.push('\n') + rest);
            &&& path.len() > 0 && path[0] != '#' ==> entries == seq![path] + allowlist_entries(rest)
            &&& path.len() == 0 || path[0] == '#' ==> entries == allowlist_entries(rest)
        }),
        allowlist_entries(Seq::empty()).len() == 0,
        line.len() > 0 && text::trim(line).len() > 0 && text::trim(line)[0] != '#'
            ==> allowlist_entries(line) == seq![text::trim(line)],
        line.len() > 0 && (text::trim(line).len() == 0 || text::trim(line)[0] == '#')
            ==> allowlist_entries(line).len() == 0,
{
    text::law_lines_end_at_breaks(line, rest);
    lemma_named_paths_of_parts(seq![line], text::lines(rest));
    let one = seq![line];
    assert(one.drop_last() =~= Seq::empty());
    assert(named_paths(Seq::<Seq<char>>::empty()).len() == 0);
    assert(one.last() == line);
    let path = text::trim(line);
    if path.len() > 0 && path[0] != '#' {
        assert(named_paths(one) =~= seq![path]);
    } else {
        assert(named_paths(one) =~= Seq::<Seq<char>>::empty());
        assert(named_paths(one) + allowlist_entries(rest) =~= allowlist_entries(rest));
    }
}

/// A path at or below one of the roots is allowed, one below none of them is refused by name, and
/// without roots everything is allowed.
pub proof fn law_roots_allow_what_lies_below(
    path: HostPathView,
    file: Seq<char>,
    roots: Seq<HostPathView>,
    i: int,
)
    ensures
        0 <= i < roots.len() && paths::lies_under(path, roots[i]) ==> allowlist_says(
            path,
            file,
            roots,
        ) is Ok,
        roots.len() == 0 ==> allowlist_says(path, file, roots) is Ok,
        roots.len() > 0 && (forall|j: int|
            0 <= j < roots.len() ==> !paths::lies_under(path, #[trigger] roots[j]))
            ==> allowlist_says(path, file, roots) == Err::<(), Seq<char>>(
            "mount path '"@ + path.shown + "' is not allowed by '"@ + file + "'"@,
        ),
{
}

// ---------------------------------------------------------------------------
// What stands in the way
// ---------------------------------------------------------------------------

/// Seventeen names hold secrets, wherever they stand in a path, and no others do.
pub proof fn law_names_that_hold_secrets(path: HostPathView, name: Seq<char>, i: int)
    ensures
        0 <= i < path.parts.len() && path.parts[i] == ComponentView::Normal(name) && (name
            == ".ssh"@ || name == ".gnupg"@ || name == ".aws"@ || name == ".azure"@ || name
            == ".gcloud"@ || name == ".kube"@ || name == ".docker"@ || name == ".env"@ || name
            == ".env.local"@ || name == ".env.production"@ || name == ".env.development"@ || name
            == ".netrc"@ || name == ".npmrc"@ || name == "id_rsa"@ || name == "id_ed25519"@ || name
            == "credentials"@ || name == "private_key"@) ==> sensitive(path),
        (forall|k: int|
            0 <= k < path.parts.len() && #[trigger] path.parts[k] is Normal ==> {
                let part = path.parts[k]->Normal_0;
                part != ".ssh"@ && part != ".gnupg"@ && part
                != ".aws"@ && part != ".azure"@ && part != ".gcloud"@ && part != ".kube"@ && part
                != ".docker"@ && part != ".env"@ && part != ".env.local"@ && part
                != ".env.production"@ && part != ".env.development"@ && part != ".netrc"@ && part
                != ".npmrc"@ && part != "id_rsa"@ && part != "id_ed25519"@ && part
                != "credentials"@ && part != "private_key"@
            }) ==> !sensitive(path),
{
    if 0 <= i < path.parts.len() && sensitive_component(path.parts[i]) {
        assert(sensitive(path));
    }
    if sensitive(path) {
        let k = choose|k: int|
            0 <= k < path.parts.len() && sensitive_component(#[trigger] path.parts[k]);
        assert(path.parts[k] is Normal);
    }
}

/// The way to a path leads on by each prefix, root and name, and not by dots; a name is a stop,
/// and nothing else is.
pub proof fn law_the_way_goes_name_by_name(
    parts: Seq<ComponentView>,
    name: Seq<char>,
    prefix: paths::PrefixKindView,
)
    ensures
        leading(Seq::empty()).len() == 0,
        leading(parts.push(ComponentView::Normal(name))) == leading(parts).push(
            ComponentView::Normal(name),
        ),
        leading(parts.push(ComponentView::RootDir)) == leading(parts).push(ComponentView::RootDir),
        leading(parts.push(ComponentView::Prefix(prefix))) == leading(parts).push(
            ComponentView::Prefix(prefix),
        ),
        leading(parts.push(ComponentView::CurDir)) == leading(parts),
        leading(parts.push(ComponentView::ParentDir)) == leading(parts),
        stops(Seq::empty()).len() == 0,
        stops(parts.push(ComponentView::Normal(name))) == stops(parts).push(
            leading(parts).push(ComponentView::Normal(name)),
        ),
        stops(parts.push(ComponentView::RootDir)) == stops(parts),
        stops(parts.push(ComponentView::Prefix(prefix))) == stops(parts),
        stops(parts.push(ComponentView::CurDir)) == stops(parts),
        stops(parts.push(ComponentView::ParentDir)) == stops(parts),
{
    assert(parts.push(ComponentView::Normal(name)).drop_last() =~= parts);
    assert(parts.push(ComponentView::RootDir).drop_last() =~= parts);
    assert(parts.push(ComponentView::Prefix(prefix)).drop_last() =~= parts);
    assert(parts.push(ComponentView::CurDir).drop_last() =~= parts);
    assert(parts.push(ComponentView::ParentDir).drop_last() =~= parts);
}

/// The first stop that is no plain file or directory is the obstacle, whatever comes after it,
/// and there is none where all are plain.
pub proof fn law_the_first_obstacle_decides(
    files: HostFiles,
    stops: Seq<Seq<ComponentView>>,
    k: int,
)
    requires
        0 <= k <= stops.len(),
        forall|i: int| 0 <= i < k ==> (files.stat)(#[trigger] stops[i]) == StatView::Plain,
    ensures
        k == stops.len() ==> files.obstacle(stops) is None,
        k < stops.len() && (files.stat)(stops[k]) == StatView::Symlink ==> files.obstacle(stops)
            == Some("mount path contains symlink component"@),
        k < stops.len() && (files.stat)(stops[k]) is Failed ==> files.obstacle(stops) == Some(
            "failed to stat mount path '"@ + (files.stat)(stops[k])->Failed_0 + "'"@,
        ),
    decreases stops.len(),
{
    if stops.len() > 0 && k > 0 {
        assert((files.stat)(stops[0]) == StatView::Plain);
        let rest = stops.drop_first();
        assert forall|i: int| 0 <= i < k - 1 implies (files.stat)(#[trigger] rest[i])
            == StatView::Plain by {
            assert(rest[i] == stops[i + 1]);
        }
        law_the_first_obstacle_decides(files, rest, k - 1);
    }
}

/// The verdict on a path with nothing but plain stops: a name that holds secrets refuses it;
/// without an allowlist, or where the file is not there, it is allowed; a list that cannot be
/// read refuses it; and else the roots that the list names decide.
pub proof fn law_verdict_case_by_case(
    path: HostPathView,
    file: Seq<char>,
    content: Seq<char>,
    files: HostFiles,
)
    requires
        forall|i: int| 0 <= i < way(path).len() ==> (files.stat)(#[trigger] way(path)[i])
            == StatView::Plain,
    ensures
        sensitive(path) ==> files.verdict(path, Some(file)) == Err::<(), Seq<char>>(
            "mount path contains sensitive component"@,
        ),
        sensitive(path) ==> files.verdict(path, None) == Err::<(), Seq<char>>(
            "mount path contains sensitive component"@,
        ),
        !sensitive(path) ==> files.verdict(path, None) is Ok,
        !sensitive(path) && !(files.found)(file) ==> files.verdict(path, Some(file)) is Ok,
        !sensitive(path) && (files.found)(file) && (files.content)(file) is None
            ==> files.verdict(path, Some(file)) == Err::<(), Seq<char>>(
            "failed reading mount allowlist '"@ + file + "'"@,
        ),
        !sensitive(path) && (files.found)(file) && (files.content)(file) == Some(content)
            ==> files.verdict(path, Some(file)) == allowlist_says(
            path,
            file,
            files.roots(allowlist_entries(content)),
        ),
{
    law_the_first_obstacle_decides(files, way(path), way(path).len() as int);
}

/// Each entry of an allowlist stands for the path that it resolves to, or for itself where it
/// does not resolve.
pub proof fn law_entries_stand_for_resolved_paths(
    files: HostFiles,
    entries: Seq<Seq<char>>,
    i: int,
)
    requires
        0 <= i < entries.len(),
    ensures
        files.roots(entries).len() == entries.len(),
        (files.canonical)(entries[i]) is Some ==> files.roots(entries)[i] == (files.canonical)(
            entries[i],
        )->Some_0,
        (files.canonical)(entries[i]) is None ==> files.roots(entries)[i] == (files.read)(
            entries[i],
        ),
{
}

/// What a check asks for in each phase, and where each answer leads.
pub proof fn law_each_answer_leads_on(check: MountCheckView, shown: Seq<char>, content: Seq<char>)
    ensures
        match check.phase {
            MountPhaseView::Looking { stop, rest } => {
                &&& check.action() == MountActionView::Stat(stop)
                &&& check.after(MountEventView::Stat(StatView::Symlink)).phase
                    == MountPhaseView::Done(Err("mount path contains symlink component"@))
                &&& check.after(MountEventView::Stat(StatView::Failed(shown))).phase
                    == MountPhaseView::Done(Err("failed to stat mount path '"@ + shown + "'"@))
                &&& rest.len() > 0 ==> check.after(MountEventView::Stat(StatView::Plain)).phase == (
                MountPhaseView::Looking { stop: rest[0], rest: rest.drop_first() })
            },
            MountPhaseView::Finding { file } => {
                &&& check.action() == MountActionView::Find(file)
                &&& check.after(MountEventView::Found(true)).phase == (MountPhaseView::Reading {
                    file,
                })
                &&& check.after(MountEventView::Found(false)).phase == MountPhaseView::Done(Ok(()))
            },
            MountPhaseView::Reading { file } => {
                &&& check.action() == MountActionView::Read(file)
                &&& check.after(MountEventView::Content(None)).phase == MountPhaseView::Done(
                    Err("failed reading mount allowlist '"@ + file + "'"@),
                )
                &&& allowlist_entries(content).len() == 0 ==> check.after(
                    MountEventView::Content(Some(content)),
                ).phase == MountPhaseView::Done(Ok(()))
            },
            MountPhaseView::Resolving { file, entry, rest, roots } => check.action()
                == MountActionView::Canonicalize(entry),
            MountPhaseView::Done(verdict) => check.action() == MountActionView::Finish(verdict),
        },
        check.after(MountEventView::Found(true)).path == check.path,
        check.after(MountEventView::Found(true)).allowlist == check.allowlist,
{
}

/// A check stands for its fields, what it asks for names what it is about, and what the system
/// says stands for itself.
pub proof fn law_a_check_stands_for_its_fields(
    check: MountCheck,
    stop: Vec<PathComponent>,
    file: String,
    path: HostPath,
)
    ensures
        check@.path == check.path@,
        check.allowlist is Some ==> check@.allowlist == Some(check.allowlist->Some_0@),
        check.allowlist is None ==> check@.allowlist is None,
        check.phase is Done && check.phase->Done_0 is Ok ==> check@.phase == MountPhaseView::Done(
            Ok(()),
        ),
        check.phase is Done && check.phase->Done_0 is Err ==> check@.phase == MountPhaseView::Done(
            Err(check.phase->Done_0->Err_0@),
        ),
        MountAction::Stat(stop)@ == MountActionView::Stat(paths::component_views(stop@)),
        MountAction::Find(file)@ == MountActionView::Find(file@),
        MountAction::Read(file)@ == MountActionView::Read(file@),
        MountAction::Canonicalize(file)@ == MountActionView::Canonicalize(file@),
        MountAction::Finish(Ok(()))@ == MountActionView::Finish(Ok(())),
        MountAction::Finish(Err(file))@ == MountActionView::Finish(Err(file@)),
        MountEvent::Stat(StatOutcome::Plain)@ == MountEventView::Stat(StatView::Plain),
        MountEvent::Stat(StatOutcome::Symlink)@ == MountEventView::Stat(StatView::Symlink),
        MountEvent::Stat(StatOutcome::Failed(file))@ == MountEventView::Stat(
            StatView::Failed(file@),
        ),
        MountEvent::Found(true)@ == MountEventView::Found(true),
        MountEvent::Found(false)@ == MountEventView::Found(false),
        MountEvent::Content(Some(file))@ == MountEventView::Content(Some(file@)),
        MountEvent::Content(None)@ == MountEventView::Content(None),
        (MountEvent::Canonical { read: path, canonical: None })@ == (MountEventView::Canonical {
            read: path@,
            canonical: None,
        }),
        forall|resolved: HostPath|
            (#[trigger] (MountEvent::Canonical { read: path, canonical: Some(resolved) })@) == (
            MountEventView::Canonical { read: path@, canonical: Some(resolved@) }),
{
}

} // verus!
