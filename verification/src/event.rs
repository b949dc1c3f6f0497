//! File-system events as the dispatcher receives them.

use vstd::prelude::*;
use crate::matcher::{pattern_matches, PathMatcher};
use crate::paths::{relative_to, relativize};
use crate::text::texts;

verus! {

/// What happened to the paths of an event.
#[derive(Clone, Copy, Debug, PartialEq, Eq, Structural)]
pub enum FsEventKind {
    Create,
    Modify,
    Remove,
    /// Anything else: an access, a change that the platform did not classify.
    Other,
}

impl FsEventKind {
    /// Whether events of this kind are looked at: creations, modifications
    /// and removals are, the others are not.
    pub open spec fn actionable(self) -> bool {
        self != FsEventKind::Other
    }

    /// Whether events of this kind are looked at.
    pub fn is_actionable(&self) -> (yes: bool)
        ensures
            yes == self.actionable(),
    {
        match self {
            FsEventKind::Other => false,
            _ => true,
        }
    }
}

/// One file-system notification: its kind and the absolute paths affected,
/// in the order in which the platform reported them.
#[derive(Clone, Debug, PartialEq, Eq)]
pub struct FsEvent {
    pub kind: FsEventKind,
    pub paths: Vec<String>,
}

/// An event as the contracts see it.
pub struct FsEventView {
    pub kind: FsEventKind,
    pub paths: Seq<Seq<char>>,
}

impl View for FsEvent {
    type V = FsEventView;

    open spec fn view(&self) -> FsEventView {
        FsEventView { kind: self.kind, paths: texts(self.paths@) }
    }
}

/// One item that the watcher delivers.
#[derive(Clone, Debug, PartialEq, Eq)]
pub enum Delivery {
    /// A file-system event.
    Event(FsEvent),
    /// The watcher reported an error in place of an event.
    Fault(String),
    /// The watcher is gone: nothing will be delivered after this.
    Closed,
}

/// A delivery as the contracts see it.
pub enum DeliveryView {
    Event(FsEventView),
    Fault(Seq<char>),
    Closed,
}

impl View for Delivery {
    type V = DeliveryView;

    open spec fn view(&self) -> DeliveryView {
        match self {
            Delivery::Event(event) => DeliveryView::Event(event@),
            Delivery::Fault(message) => DeliveryView::Fault(message@),
            Delivery::Closed => DeliveryView::Closed,
        }
    }
}

/// Whether a path, taken relative to the root where it lies below it,
/// matches the pattern.
pub open spec fn path_triggers(root: Seq<char>, glob: Seq<char>, path: Seq<char>) -> bool {
    pattern_matches(glob, relative_to(root, path))
}

/// Whether `at` is the place of the first path that matches.
pub open spec fn is_first_match(
    root: Seq<char>,
    glob: Seq<char>,
    paths: Seq<Seq<char>>,
    at: int,
) -> bool {
    &&& 0 <= at < paths.len()
    &&& path_triggers(root, glob, paths[at])
    &&& forall|j: int| 0 <= j < at ==> !path_triggers(root, glob, #[trigger] paths[j])
}

/// Whether any of the paths matches.
pub open spec fn any_match(root: Seq<char>, glob: Seq<char>, paths: Seq<Seq<char>>) -> bool {
    exists|i: int| 0 <= i < paths.len() && path_triggers(root, glob, #[trigger] paths[i])
}

/// The place of the first path that matches, if one does.
pub open spec fn first_match(root: Seq<char>, glob: Seq<char>, paths: Seq<Seq<char>>) -> Option<
    int,
> {
    if any_match(root, glob, paths) {
        Some(choose|at: int| is_first_match(root, glob, paths, at))
    } else {
        None
    }
}

/// Among matching paths one comes first, and `first_match` names it.
pub proof fn lemma_first_match(root: Seq<char>, glob: Seq<char>, paths: Seq<Seq<char>>, at: int)
    requires
        is_first_match(root, glob, paths, at),
    ensures
        first_match(root, glob, paths) == Some(at),
{
    assert(path_triggers(root, glob, paths[at]));
    let chosen = choose|c: int| is_first_match(root, glob, paths, c);
    assert(is_first_match(root, glob, paths, chosen));
    if chosen < at {
        assert(!path_triggers(root, glob, paths[chosen]));
    }
    if at < chosen {
        assert(!path_triggers(root, glob, paths[at]));
    }
}

/// Goes through the paths in order, makes each relative to the root and
/// tests it against the pattern, and stops at the first that matches.
pub fn first_matching_path(root: &str, matcher: &PathMatcher, paths: &[String]) -> (found: Option<
    usize,
>)
    ensures
        match found {
            Some(at) => at < paths.len() && first_match(root@, matcher.glob(), texts(paths@))
                == Some(at as int),
            None => first_match(root@, matcher.glob(), texts(paths@)) is None,
        },
{
    let mut i: usize = 0;
    while i < paths.len()
        invariant
            i <= paths.len(),
            forall|j: int|
                0 <= j < i ==> !path_triggers(root@, matcher.glob(), #[trigger] texts(paths@)[j]),
        decreases paths.len() - i,
    {
        let relative = relativize(root, paths[i].as_str());
        if matcher.is_match(relative.as_str()) {
            proof {
                assert(texts(paths@)[i as int] == paths[i as int]@);
                lemma_first_match(root@, matcher.glob(), texts(paths@), i as int);
            }
            return Some(i);
        }
        i += 1;
    }
    None
}

} // verus!
