//! Finding the project root: the nearest directory, from the working directory upwards,
//! that holds the side-car directory.
//!
//! Looking at the file system is the caller's part. It probes one directory at a time and
//! asks `walk_step` what to do next; `locate_root` is the whole walk over the probes of a
//! directory and all its ancestors.

use crate::text::followed_by;
use vstd::prelude::*;
use vstd::string::StringExecFns;

verus! {

/// The directory, below the project root, that holds the tool's own files. Its presence
/// marks the project root.
pub const SIDE_CAR_DIR: &'static str = ".c2rust";

/// The environment variable that names the project root and so spares the walk.
pub const ROOT_VARIABLE: &'static str = "C2RUST_PROJECT_ROOT";

/// How the project root is found.
#[derive(Debug, Clone, PartialEq, Eq)]
pub enum RootChoice {
    /// It is given, and taken as it is.
    Given(String),
    /// It is to be walked to.
    Walk,
}

/// How the project root is found: a root that is given overrides the walk, and is not
/// looked at.
pub fn choose_root(given: Option<String>) -> (choice: RootChoice)
    ensures
        match (given, choice) {
            (Some(root), RootChoice::Given(chosen)) => chosen@ == root@,
            (None, RootChoice::Walk) => true,
            _ => false,
        },
{
    match given {
        Some(root) => RootChoice::Given(root),
        None => RootChoice::Walk,
    }
}

/// What a look at the marker's path in one directory showed.
#[derive(Debug, Clone, PartialEq, Eq)]
pub enum MarkerProbe {
    /// The marker is there, and is a directory.
    Directory,
    /// Something of that name is there, but no directory.
    NotDirectory,
    /// Nothing of that name is there.
    NotFound,
    /// The look was not permitted.
    PermissionDenied,
    /// The look failed otherwise; the reason.
    Unreadable(String),
}

/// What the walk does after a probe.
#[derive(Debug, Clone, Copy, PartialEq, Eq)]
pub enum WalkStep {
    /// The probed directory is the project root.
    Found,
    /// Go on with the parent directory.
    Ascend,
    /// No directory is left: the directory in which the walk began is the project root.
    Fallback,
}

/// What a `MarkerProbe` holds, as a sequence of characters.
pub ghost enum ProbeView {
    Directory,
    NotDirectory,
    NotFound,
    PermissionDenied,
    Unreadable(Seq<char>),
}

impl View for MarkerProbe {
    type V = ProbeView;

    open spec fn view(&self) -> ProbeView {
        match self {
            MarkerProbe::Directory => ProbeView::Directory,
            MarkerProbe::NotDirectory => ProbeView::NotDirectory,
            MarkerProbe::NotFound => ProbeView::NotFound,
            MarkerProbe::PermissionDenied => ProbeView::PermissionDenied,
            MarkerProbe::Unreadable(reason) => ProbeView::Unreadable(reason@),
        }
    }
}

/// What the walk does after `probe`: it ends where the marker is a directory, and goes up
/// otherwise, whatever kept the marker from being seen; where nothing is left to go up
/// to, it falls back.
pub open spec fn next_walk_step(probe: ProbeView, has_parent: bool) -> WalkStep {
    if probe is Directory {
        WalkStep::Found
    } else if has_parent {
        WalkStep::Ascend
    } else {
        WalkStep::Fallback
    }
}

/// The warning that goes with a probe that failed, where `path` is the marker's path.
/// A marker that is not there, or is no directory, is no cause for one.
pub open spec fn probe_warning_text(probe: ProbeView, path: Seq<char>) -> Option<Seq<char>> {
    match probe {
        ProbeView::PermissionDenied => Some(
            "Warning: Permission denied accessing "@ + path + ", continuing search"@,
        ),
        ProbeView::Unreadable(reason) => Some(
            "Warning: Error accessing "@ + path + ": "@ + reason + ", continuing search"@,
        ),
        _ => None,
    }
}

/// The probes of `probes` as views.
pub open spec fn probe_views(probes: Seq<MarkerProbe>) -> Seq<ProbeView> {
    Seq::new(probes.len(), |i: int| probes[i]@)
}

/// Where the walk ends that is at directory `i` of a directory and its ancestors, of
/// which `probes` holds the probes, the nearest first: the position of the root it finds.
pub open spec fn walk_from(probes: Seq<ProbeView>, i: int) -> int
    decreases probes.len() - i,
{
    if 0 <= i < probes.len() {
        match next_walk_step(probes[i], i + 1 < probes.len()) {
            WalkStep::Found => i,
            WalkStep::Ascend => walk_from(probes, i + 1),
            WalkStep::Fallback => 0,
        }
    } else {
        0
    }
}

/// The walk ends at the first directory whose marker is a directory, and where there is
/// none, at the directory in which it began.
pub proof fn lemma_walk_from(probes: Seq<ProbeView>, i: int)
    requires
        0 <= i <= probes.len(),
    ensures
        0 <= walk_from(probes, i) < probes.len() || walk_from(probes, i) == 0,
        (forall|j: int| i <= j < probes.len() ==> !(#[trigger] probes[j] is Directory))
            ==> walk_from(probes, i) == 0,
        (exists|j: int| i <= j < probes.len() && #[trigger] probes[j] is Directory) ==> {
            &&& i <= walk_from(probes, i) < probes.len()
            &&& probes[walk_from(probes, i)] is Directory
            &&& forall|j: int|
                i <= j < walk_from(probes, i) ==> !(#[trigger] probes[j] is Directory)
        },
    decreases probes.len() - i,
{
    if i + 1 < probes.len() && !(probes[i] is Directory) {
        lemma_walk_from(probes, i + 1);
    }
}

/// What the walk does after `probe` of a directory that has a parent, or has none.
pub fn walk_step(probe: &MarkerProbe, has_parent: bool) -> (step: WalkStep)
    ensures
        step == next_walk_step(probe@, has_parent),
{
    match probe {
        MarkerProbe::Directory => WalkStep::Found,
        _ => if has_parent {
            WalkStep::Ascend
        } else {
            WalkStep::Fallback
        },
    }
}

/// The warning that goes with `probe` of the marker at `path`, if it calls for one.
pub fn probe_warning(probe: &MarkerProbe, path: &str) -> (text: Option<String>)
    ensures
        text.deep_view() == probe_warning_text(probe@, path@),
{
    match probe {
        MarkerProbe::PermissionDenied => {
            let mut text = followed_by("Warning: Permission denied accessing ", path);
            text.append(", continuing search");
            Some(text)
        },
        MarkerProbe::Unreadable(reason) => {
            let mut text = followed_by("Warning: Error accessing ", path);
            text.append(": ");
            text.append(reason.as_str());
            text.append(", continuing search");
            Some(text)
        },
        _ => None,
    }
}

/// The whole walk. `probes` holds the probe of the directory in which the walk begins,
/// then that of its parent, and so on up to the root of the file system. The result is
/// the position of the project root among them: the first directory whose marker is a
/// directory, and position 0, where the walk began, if there is none.
pub fn locate_root(probes: &Vec<MarkerProbe>) -> (root: usize)
    ensures
        root == walk_from(probe_views(probes@), 0),
        root < probes.len() || root == 0,
        (forall|j: int| 0 <= j < probes.len() ==> !(#[trigger] probes[j]@ is Directory))
            ==> root == 0,
        (exists|j: int| 0 <= j < probes.len() && #[trigger] probes[j]@ is Directory) ==> {
            &&& root < probes.len()
            &&& probes[root as int]@ is Directory
            &&& forall|j: int| 0 <= j < root ==> !(#[trigger] probes[j]@ is Directory)
        },
{
    let ghost views = probe_views(probes@);
    let mut i: usize = 0;
    let mut root: usize = 0;
    while i < probes.len()
        invariant_except_break
            0 <= i <= probes.len(),
            walk_from(views, 0) == walk_from(views, i as int),
            root == 0,
        invariant
            views == probe_views(probes@),
        ensures
            root == walk_from(views, 0),
        decreases probes.len() - i,
    {
        match walk_step(&probes[i], i + 1 < probes.len()) {
            WalkStep::Found => {
                root = i;
                break;
            },
            WalkStep::Ascend => {
                i += 1;
            },
            WalkStep::Fallback => {
                break;
            },
        }
    }
    proof {
        lemma_walk_from(views, 0);
        assert forall|j: int| 0 <= j < probes.len() implies views[j] == #[trigger] probes[j]@ by {}
    }
    root
}

} // verus!
