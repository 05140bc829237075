//! The decisions of a depth-bounded scan for project roots.
//!
//! The walk itself reads the file system and is driven from outside: it
//! applies `detect::should_descend` before stepping into an entry, and hands
//! each entry it yields to a `ScanState`, by its path relative to the scan's
//! root (one string per component) in pre-order. The state records the
//! project roots, never a path deeper than the bound, and never a path below
//! a root it recorded before.
use vstd::prelude::*;

use crate::detect::{is_project, is_project_root, names_of};

verus! {

/// A path relative to the scan root, one name per component.
pub open spec fn rel_path(v: Vec<String>) -> Seq<Seq<char>> {
    names_of(v@)
}

/// Whether `p` lies strictly below `root`.
pub open spec fn strictly_below(p: Seq<Seq<char>>, root: Seq<Seq<char>>) -> bool {
    root.len() < p.len() && p.take(root.len() as int) == root
}

/// State of a scan: its depth bound and the project roots found so far, in
/// the order the walk yielded them.
pub struct ScanState {
    max_depth: usize,
    found: Vec<Vec<String>>,
}

impl ScanState {
    /// The roots found so far, as relative paths.
    pub closed spec fn found_paths(&self) -> Seq<Seq<Seq<char>>> {
        self.found@.map_values(|v: Vec<String>| rel_path(v))
    }

    pub closed spec fn depth_bound(&self) -> nat {
        self.max_depth as nat
    }

    /// Every root found lies within the depth bound, and none lies below a
    /// root found before it.
    pub open spec fn wf(&self) -> bool {
        &&& forall|i: int| 0 <= i < self.found_paths().len() ==> #[trigger] self.found_paths()[i].len() <= self.depth_bound()
        &&& forall|i: int, j: int|
            0 <= i < j < self.found_paths().len() ==> !strictly_below(
                #[trigger] self.found_paths()[j],
                #[trigger] self.found_paths()[i],
            )
    }

    /// Whether an entry at `rel` is classified at all: it is a directory,
    /// within the depth bound, and not below a root already found.
    pub open spec fn admits(&self, rel: Seq<Seq<char>>, is_dir: bool) -> bool {
        &&& is_dir
        &&& rel.len() <= self.depth_bound()
        &&& forall|i: int| 0 <= i < self.found_paths().len() ==> !strictly_below(rel, #[trigger] self.found_paths()[i])
    }

    /// A scan that has found nothing yet.
    pub fn new(max_depth: usize) -> (r: ScanState)
        ensures
            r.wf(),
            r.depth_bound() == max_depth,
            r.found_paths() == Seq::<Seq<Seq<char>>>::empty(),
    {
        let r = ScanState { max_depth, found: Vec::new() };
        assert(r.found_paths() =~= Seq::<Seq<Seq<char>>>::empty());
        r
    }

    /// Whether an entry at `rel` still needs to be classified.
    pub fn wants(&self, rel: &Vec<String>, is_dir: bool) -> (r: bool)
        ensures
            r == self.admits(rel_path(*rel), is_dir),
    {
        if !is_dir || rel.len() > self.max_depth {
            return false;
        }
        let mut i: usize = 0;
        while i < self.found.len()
            invariant
                i <= self.found@.len(),
                forall|k: int| 0 <= k < i ==> !strictly_below(rel_path(*rel), #[trigger] self.found_paths()[k]),
            decreases self.found@.len() - i,
        {
            if is_strictly_below(rel, &self.found[i]) {
                assert(self.found_paths()[i as int] == rel_path(self.found@[i as int]));
                return false;
            }
            assert(self.found_paths()[i as int] == rel_path(self.found@[i as int]));
            i = i + 1;
        }
        true
    }

    /// Hands the scan one entry of the walk: its relative path, whether it is
    /// a directory, and the names present under it among
    /// `detect::probe_names()`. The entry is recorded as a root when the scan
    /// admits it and it is a project root. Returns whether it was recorded.
    pub fn visit(&mut self, rel: Vec<String>, is_dir: bool, present: &Vec<String>) -> (r: bool)
        requires
            old(self).wf(),
        ensures
            final(self).wf(),
            final(self).depth_bound() == old(self).depth_bound(),
            r == (old(self).admits(rel_path(rel), is_dir) && is_project_root(names_of(present@))),
            r ==> final(self).found_paths() == old(self).found_paths().push(rel_path(rel)),
            !r ==> final(self).found_paths() == old(self).found_paths(),
    {
        let ghost before = self.found_paths();
        if self.wants(&rel, is_dir) && is_project(present) {
            let ghost p = rel_path(rel);
            self.found.push(rel);
            assert(self.found_paths() =~= before.push(p));
            true
        } else {
            false
        }
    }

    /// The roots found so far, in the order they were found.
    pub fn found(&self) -> (r: &Vec<Vec<String>>)
        ensures
            r@.map_values(|v: Vec<String>| rel_path(v)) == self.found_paths(),
    {
        &self.found
    }

    /// Ends the scan, handing back the roots found.
    pub fn into_found(self) -> (r: Vec<Vec<String>>)
        ensures
            r@.map_values(|v: Vec<String>| rel_path(v)) == self.found_paths(),
    {
        self.found
    }
}

/// Whether `p` lies strictly below `root`, comparing component by component.
pub fn is_strictly_below(p: &Vec<String>, root: &Vec<String>) -> (r: bool)
    ensures
        r == strictly_below(rel_path(*p), rel_path(*root)),
{
    if root.len() >= p.len() {
        return false;
    }
    let mut k: usize = 0;
    while k < root.len()
        invariant
            k <= root@.len() < p@.len(),
            forall|j: int| 0 <= j < k ==> p@[j]@ == root@[j]@,
        decreases root@.len() - k,
    {
        if !(p[k] == root[k]) {
            assert(rel_path(*p).take(root@.len() as int)[k as int] != rel_path(*root)[k as int]);
            return false;
        }
        k = k + 1;
    }
    assert(rel_path(*p).take(root@.len() as int) =~= rel_path(*root));
    true
}

/// Depth bound: in any reachable scan state, every root found has at most
/// as many components as the bound.
pub proof fn lemma_found_within_depth(s: ScanState, i: int)
    requires
        s.wf(),
        0 <= i < s.found_paths().len(),
    ensures
        s.found_paths()[i].len() <= s.depth_bound(),
{
}

/// Depth bound: visiting an entry deeper than the bound never records it.
pub proof fn lemma_deep_entry_ignored(s: ScanState, rel: Seq<Seq<char>>, is_dir: bool)
    requires
        rel.len() > s.depth_bound(),
    ensures
        !s.admits(rel, is_dir),
{
}

/// Pruning: once a root is found, no entry strictly below it is ever
/// recorded, so a walk that yields a root before its descendants returns
/// the outer root only.
pub proof fn lemma_nested_root_pruned(s: ScanState, i: int, rel: Seq<Seq<char>>, is_dir: bool)
    requires
        0 <= i < s.found_paths().len(),
        strictly_below(rel, s.found_paths()[i]),
    ensures
        !s.admits(rel, is_dir),
{
}

} // verus!
