//! Finding the project root: the nearest ancestor of a directory that holds
//! one of the marker files.
//!
//! The search never touches the file system. It is handed the paths that
//! exist, and [`probe_paths`] says which paths it will ask about.

use vstd::prelude::*;
use crate::paths::{join_onto, parent_of, path_join, path_parent};
use crate::text::texts;

verus! {

/// The `k`-th ancestor of a directory: the directory itself for 0, then the
/// parent of the one before, as long as there is one.
pub open spec fn ancestor(start: Seq<char>, k: nat) -> Option<Seq<char>>
    decreases k,
{
    if k == 0 {
        Some(start)
    } else {
        match ancestor(start, (k - 1) as nat) {
            Some(dir) => path_parent(dir),
            None => None,
        }
    }
}

/// Whether one of the markers exists as a direct child of the directory.
pub open spec fn holds_marker(
    dir: Seq<char>,
    markers: Seq<Seq<char>>,
    present: Seq<Seq<char>>,
) -> bool {
    exists|i: int| 0 <= i < markers.len() && present.contains(#[trigger] path_join(dir, markers[i]))
}

/// Whether the `k`-th ancestor exists and holds a marker.
pub open spec fn marked_at(
    start: Seq<char>,
    markers: Seq<Seq<char>>,
    present: Seq<Seq<char>>,
    k: nat,
) -> bool {
    match ancestor(start, k) {
        Some(dir) => holds_marker(dir, markers, present),
        None => false,
    }
}

/// Whether the `k`-th ancestor holds a marker and no nearer one does.
pub open spec fn root_at(
    start: Seq<char>,
    markers: Seq<Seq<char>>,
    present: Seq<Seq<char>>,
    k: nat,
) -> bool {
    &&& marked_at(start, markers, present, k)
    &&& forall|j: nat| j < k ==> !marked_at(start, markers, present, j)
}

/// Whether `dir` is the nearest ancestor of `start`, `start` included, that
/// holds a marker.
pub open spec fn is_nearest_root(
    start: Seq<char>,
    markers: Seq<Seq<char>>,
    present: Seq<Seq<char>>,
    dir: Seq<char>,
) -> bool {
    exists|k: nat| #[trigger] root_at(start, markers, present, k) && ancestor(start, k) == Some(dir)
}

/// Whether no ancestor of `start`, up to the last one, holds a marker.
pub open spec fn no_root(start: Seq<char>, markers: Seq<Seq<char>>, present: Seq<Seq<char>>) -> bool {
    forall|k: nat| !marked_at(start, markers, present, k)
}

/// Once the chain of ancestors has ended it does not resume.
pub proof fn lemma_ancestors_end(start: Seq<char>, k: nat, later: nat)
    requires
        ancestor(start, k) is None,
        k <= later,
    ensures
        ancestor(start, later) is None,
    decreases later,
{
    if later > k {
        lemma_ancestors_end(start, k, (later - 1) as nat);
    }
}

/// Whether the list holds a string with this text.
fn list_holds(list: &[String], wanted: &String) -> (found: bool)
    ensures
        found == texts(list@).contains(wanted@),
{
    let mut i: usize = 0;
    while i < list.len()
        invariant
            i <= list.len(),
            forall|j: int| 0 <= j < i ==> texts(list@)[j] != wanted@,
        decreases list.len() - i,
    {
        if list[i] == *wanted {
            assert(texts(list@)[i as int] == wanted@);
            return true;
        }
        i += 1;
    }
    false
}

/// Whether the directory holds one of the markers, tried in the order given.
fn dir_holds_marker(dir: &String, root_files: &[String], present: &[String]) -> (found: bool)
    ensures
        found == holds_marker(dir@, texts(root_files@), texts(present@)),
{
    let mut i: usize = 0;
    while i < root_files.len()
        invariant
            i <= root_files.len(),
            forall|j: int|
                0 <= j < i ==> !texts(present@).contains(
                    #[trigger] path_join(dir@, texts(root_files@)[j]),
                ),
        decreases root_files.len() - i,
    {
        let candidate = join_onto(dir.as_str(), root_files[i].as_str());
        if list_holds(present, &candidate) {
            assert(candidate@ == path_join(dir@, texts(root_files@)[i as int]));
            return true;
        }
        i += 1;
    }
    false
}

/// Finds the project root: the nearest ancestor of `start`, `start` itself
/// included, in which one of `root_files` exists as a direct child. `present`
/// lists the paths that exist. Directories are tried strictly from the nearest
/// to the farthest, and the search ends with the last ancestor.
pub fn find_project_root(start: &str, root_files: &[String], present: &[String]) -> (root: Option<
    String,
>)
    ensures
        match root {
            Some(dir) => is_nearest_root(start@, texts(root_files@), texts(present@), dir@),
            None => no_root(start@, texts(root_files@), texts(present@)),
        },
{
    let ghost markers = texts(root_files@);
    let ghost existing = texts(present@);
    let mut current: String = start.to_owned();
    let ghost mut k: nat = 0;
    loop
        invariant
            markers == texts(root_files@),
            existing == texts(present@),
            ancestor(start@, k) == Some(current@),
            forall|j: nat| j < k ==> !marked_at(start@, markers, existing, j),
        decreases current@.len(),
    {
        if dir_holds_marker(&current, root_files, present) {
            assert(root_at(start@, markers, existing, k));
            return Some(current);
        }
        match parent_of(current.as_str()) {
            Some(parent) => {
                proof {
                    k = k + 1;
                }
                current = parent;
            },
            None => {
                assert forall|j: nat| !marked_at(start@, markers, existing, j) by {
                    if j > k {
                        assert(ancestor(start@, k + 1) is None);
                        lemma_ancestors_end(start@, k + 1, j);
                    }
                }
                return None;
            },
        }
    }
}

/// The paths asked about in one directory: each marker joined onto it, in the
/// order of the markers.
pub open spec fn dir_probes(dir: Seq<char>, markers: Seq<Seq<char>>) -> Seq<Seq<char>> {
    Seq::new(markers.len(), |i: int| path_join(dir, markers[i]))
}

/// The paths asked about in the first `n` ancestors, nearest first.
pub open spec fn probes_upto(start: Seq<char>, markers: Seq<Seq<char>>, n: nat) -> Seq<Seq<char>>
    decreases n,
{
    if n == 0 {
        Seq::empty()
    } else {
        probes_upto(start, markers, (n - 1) as nat) + match ancestor(start, (n - 1) as nat) {
            Some(dir) => dir_probes(dir, markers),
            None => Seq::empty(),
        }
    }
}

/// Whether `start` has exactly `n` ancestors, itself included.
pub open spec fn is_depth(start: Seq<char>, n: nat) -> bool {
    &&& n >= 1
    &&& ancestor(start, (n - 1) as nat) is Some
    &&& ancestor(start, n) is None
}

/// Every path that the search can ask about, nearest directory first and, in
/// one directory, in the order of the markers: what a caller has to test for
/// existence before it calls [`find_project_root`].
pub fn probe_paths(start: &str, root_files: &[String]) -> (probes: Vec<String>)
    ensures
        exists|n: nat| #[trigger]
            is_depth(start@, n) && texts(probes@) == probes_upto(start@, texts(root_files@), n),
{
    let ghost markers = texts(root_files@);
    let mut probes: Vec<String> = Vec::new();
    let mut current: String = start.to_owned();
    let ghost mut k: nat = 0;
    assert(texts(probes@) =~= probes_upto(start@, markers, 0));
    loop
        invariant
            markers == texts(root_files@),
            ancestor(start@, k) == Some(current@),
            texts(probes@) == probes_upto(start@, markers, k),
        decreases current@.len(),
    {
        let ghost before = texts(probes@);
        let mut i: usize = 0;
        while i < root_files.len()
            invariant
                i <= root_files.len(),
                markers == texts(root_files@),
                texts(probes@) =~= before + dir_probes(current@, markers).take(i as int),
            decreases root_files.len() - i,
        {
            let candidate = join_onto(current.as_str(), root_files[i].as_str());
            let ghost earlier = texts(probes@);
            probes.push(candidate);
            assert(texts(probes@) =~= earlier.push(path_join(current@, markers[i as int])));
            i += 1;
        }
        assert(dir_probes(current@, markers).take(i as int) =~= dir_probes(current@, markers));
        assert(texts(probes@) == probes_upto(start@, markers, k + 1));
        match parent_of(current.as_str()) {
            Some(parent) => {
                proof {
                    k = k + 1;
                }
                current = parent;
            },
            None => {
                assert(is_depth(start@, k + 1));
                return probes;
            },
        }
    }
}

/// The nearest root is unique, and there is none exactly when no ancestor
/// holds a marker: the two results of the search exclude each other and each
/// names one outcome.
pub proof fn lemma_nearest_root_unique(
    start: Seq<char>,
    markers: Seq<Seq<char>>,
    present: Seq<Seq<char>>,
    first: Seq<char>,
    second: Seq<char>,
)
    requires
        is_nearest_root(start, markers, present, first),
    ensures
        !no_root(start, markers, present),
        is_nearest_root(start, markers, present, second) ==> first == second,
{
    let k = choose|k: nat| #[trigger]
        root_at(start, markers, present, k) && ancestor(start, k) == Some(first);
    assert(marked_at(start, markers, present, k));
    if is_nearest_root(start, markers, present, second) {
        let m = choose|m: nat| #[trigger]
            root_at(start, markers, present, m) && ancestor(start, m) == Some(second);
        if k < m {
            assert(!marked_at(start, markers, present, k));
        }
        if m < k {
            assert(!marked_at(start, markers, present, m));
        }
    }
}

/// Each marker joined onto one of the first `n` ancestors is among the paths
/// asked about.
pub proof fn lemma_probes_cover(
    start: Seq<char>,
    markers: Seq<Seq<char>>,
    n: nat,
    k: nat,
    i: int,
)
    requires
        k < n,
        0 <= i < markers.len(),
        ancestor(start, k) is Some,
    ensures
        probes_upto(start, markers, n).contains(path_join(ancestor(start, k).unwrap(), markers[i])),
    decreases n,
{
    let head = probes_upto(start, markers, (n - 1) as nat);
    if k == n - 1 {
        let dir = ancestor(start, k).unwrap();
        let tail = dir_probes(dir, markers);
        assert(tail[i] == path_join(dir, markers[i]));
        assert(probes_upto(start, markers, n)[head.len() + i] == tail[i]);
    } else {
        lemma_probes_cover(start, markers, (n - 1) as nat, k, i);
        let at = choose|at: int|
            0 <= at < head.len() && head[at] == path_join(
                ancestor(start, k).unwrap(),
                markers[i],
            );
        assert(probes_upto(start, markers, n)[at] == head[at]);
    }
}

/// The search reads nothing but the paths that [`probe_paths`] returns: two
/// lists of existing paths that agree on them lead to the same root.
pub proof fn lemma_search_reads_only_probes(
    start: Seq<char>,
    markers: Seq<Seq<char>>,
    n: nat,
    present: Seq<Seq<char>>,
    other: Seq<Seq<char>>,
)
    requires
        is_depth(start, n),
        forall|i: int|
            0 <= i < probes_upto(start, markers, n).len() ==> present.contains(
                #[trigger] probes_upto(start, markers, n)[i],
            ) == other.contains(probes_upto(start, markers, n)[i]),
    ensures
        no_root(start, markers, present) == no_root(start, markers, other),
        forall|dir: Seq<char>|
            is_nearest_root(start, markers, present, dir) == is_nearest_root(
                start,
                markers,
                other,
                dir,
            ),
{
    let probes = probes_upto(start, markers, n);
    assert forall|k: nat|
        marked_at(start, markers, present, k) == marked_at(start, markers, other, k) by {
        if k >= n {
            lemma_ancestors_end(start, n, k);
        } else if ancestor(start, k) is Some {
            let dir = ancestor(start, k).unwrap();
            assert forall|i: int| 0 <= i < markers.len() implies present.contains(
                #[trigger] path_join(dir, markers[i]),
            ) == other.contains(path_join(dir, markers[i])) by {
                lemma_probes_cover(start, markers, n, k, i);
                let at = choose|at: int|
                    0 <= at < probes.len() && probes[at] == path_join(dir, markers[i]);
                assert(present.contains(probes[at]) == other.contains(probes[at]));
            }
        }
    }
    assert forall|k: nat|
        root_at(start, markers, present, k) == root_at(start, markers, other, k) by {
        if root_at(start, markers, present, k) {
            assert forall|j: nat| j < k implies !marked_at(start, markers, other, j) by {
                assert(!marked_at(start, markers, present, j));
            }
        }
        if root_at(start, markers, other, k) {
            assert forall|j: nat| j < k implies !marked_at(start, markers, present, j) by {
                assert(!marked_at(start, markers, other, j));
            }
        }
    }
    assert forall|dir: Seq<char>|
        is_nearest_root(start, markers, present, dir) == is_nearest_root(
            start,
            markers,
            other,
            dir,
        ) by {
        if is_nearest_root(start, markers, present, dir) {
            let k = choose|k: nat| #[trigger]
                root_at(start, markers, present, k) && ancestor(start, k) == Some(dir);
            assert(root_at(start, markers, other, k));
        }
        if is_nearest_root(start, markers, other, dir) {
            let k = choose|k: nat| #[trigger]
                root_at(start, markers, other, k) && ancestor(start, k) == Some(dir);
            assert(root_at(start, markers, present, k));
        }
    }
}

} // verus!
