//! The registry: an ordered collection of project records, keyed by
//! canonical path, with add, remove, lookup, tagging and orphan sweeping.
use vstd::prelude::*;

use crate::detect::{
    artifacts_upto, detect_project, is_project_root, names_of, systems_upto, vcs_of,
    BuildSystem, VcsType, MARKER_COUNT,
};
use crate::tags::{add_sorted_tags, drop_tags, is_sorted_names, tags_after_add, tags_without};

verus! {

/// A moment in UTC: seconds since the Unix epoch and the nanoseconds within
/// that second.
#[derive(Debug, Clone, Copy, PartialEq, Eq, Structural)]
pub struct Timestamp {
    pub secs: i64,
    pub nanos: u32,
}

/// Relies on chrono's `Utc::now`, with `DateTime::timestamp` and
/// `DateTime::timestamp_subsec_nanos` to read the moment as plain integers.
/// The clock's reading is not specified.
#[verifier::external_body]
fn now_utc() -> (r: Timestamp) {
    let now = chrono::Utc::now();
    Timestamp { secs: now.timestamp(), nanos: now.timestamp_subsec_nanos() }
}

/// A registered project with its detected metadata.
#[derive(Debug)]
pub struct Project {
    pub name: String,
    /// Canonical path of the project directory; the identity of the record.
    pub path: String,
    pub vcs: Vec<VcsType>,
    pub build_systems: Vec<BuildSystem>,
    pub artifact_dirs: Vec<String>,
    pub added_at: Timestamp,
    pub tags: Vec<String>,
}

/// Errors of registry operations and of the tool around them.
#[derive(Debug)]
pub enum PrjError {
    ProjectNotFound(String),
    ProjectAlreadyExists(String),
    PathNotFound(String),
    NotADirectory(String),
    DatabaseRead(String),
    DatabaseWrite(String),
    Git(String),
    Io(String),
    CloneFailed(String),
    CloneDestUnknown(String),
    NoTargetProjects,
    Manifest(String),
}

/// The collection of registered projects, in insertion order.
#[derive(Debug)]
pub struct ProjectDatabase {
    pub projects: Vec<Project>,
}

/// A path as the file system resolved it for registration: the path that was
/// asked for, its canonical form if resolution succeeded, whether that is a
/// directory, and which of `detect::probe_names()` are present under it.
pub struct ResolvedPath {
    pub requested: String,
    pub canonical: Option<String>,
    pub is_dir: bool,
    pub present: Vec<String>,
}

/// Whether some record of `ps` has canonical path `path`.
pub open spec fn has_path(ps: Seq<Project>, path: Seq<char>) -> bool {
    exists|i: int| 0 <= i < ps.len() && #[trigger] ps[i].path@ == path
}

/// No two records of `ps` share a canonical path.
pub open spec fn paths_unique(ps: Seq<Project>) -> bool {
    forall|i: int, j: int|
        0 <= i < ps.len() && 0 <= j < ps.len() && i != j ==> #[trigger] ps[i].path@ != #[trigger] ps[j].path@
}

/// `i` is the first position of `ps` whose record is named `name`.
pub open spec fn first_named(ps: Seq<Project>, name: Seq<char>, i: int) -> bool {
    &&& 0 <= i < ps.len()
    &&& ps[i].name@ == name
    &&& forall|j: int| 0 <= j < i ==> #[trigger] ps[j].name@ != name
}

/// Whether some record of `ps` is named `name`.
pub open spec fn has_name(ps: Seq<Project>, name: Seq<char>) -> bool {
    exists|i: int| 0 <= i < ps.len() && #[trigger] ps[i].name@ == name
}

/// The records of `ps` whose entry in `exists` is false, in order.
pub open spec fn orphans(ps: Seq<Project>, exists: Seq<bool>) -> Seq<Project>
    decreases ps.len(),
{
    if ps.len() == 0 {
        seq![]
    } else {
        let rest = orphans(ps.drop_last(), exists.take(ps.len() - 1));
        if exists[ps.len() - 1] {
            rest
        } else {
            rest.push(ps.last())
        }
    }
}

/// The records of `ps` whose entry in `exists` is true, in order.
pub open spec fn survivors(ps: Seq<Project>, exists: Seq<bool>) -> Seq<Project>
    decreases ps.len(),
{
    if ps.len() == 0 {
        seq![]
    } else {
        let rest = survivors(ps.drop_last(), exists.take(ps.len() - 1));
        if exists[ps.len() - 1] {
            rest.push(ps.last())
        } else {
            rest
        }
    }
}

/// The text after the last `/` of a path.
pub open spec fn last_component(path: Seq<char>) -> Seq<char>
    decreases path.len(),
{
    if path.len() == 0 {
        path
    } else if path.last() == '/' {
        seq![]
    } else {
        last_component(path.drop_last()).push(path.last())
    }
}

/// The name a record gets: the one supplied, else the last component of its
/// canonical path, else `unknown`.
pub open spec fn derived_name(path: Seq<char>, name: Option<Seq<char>>) -> Seq<char> {
    match name {
        Some(n) => n,
        None => if last_component(path).len() > 0 {
            last_component(path)
        } else {
            "unknown"@
        },
    }
}

impl ProjectDatabase {
    /// An empty registry.
    pub fn new() -> (r: ProjectDatabase)
        ensures
            r.projects@ == Seq::<Project>::empty(),
    {
        ProjectDatabase { projects: Vec::new() }
    }

    /// Canonical paths are unique across the records.
    pub open spec fn wf(&self) -> bool {
        paths_unique(self.projects@)
    }

    /// Whether a record with canonical path `path` is registered.
    pub fn contains_path(&self, path: &String) -> (r: bool)
        ensures
            r == has_path(self.projects@, path@),
    {
        let mut i: usize = 0;
        while i < self.projects.len()
            invariant
                i <= self.projects@.len(),
                forall|j: int| 0 <= j < i ==> #[trigger] self.projects@[j].path@ != path@,
            decreases self.projects@.len() - i,
        {
            if self.projects[i].path == *path {
                return true;
            }
            i = i + 1;
        }
        false
    }

    /// Appends a record, unless one with the same canonical path is already
    /// registered, in which case the registry is left unchanged.
    pub fn add(&mut self, project: Project) -> (r: Result<(), PrjError>)
        ensures
            r is Ok <==> !has_path(old(self).projects@, project.path@),
            r is Ok ==> final(self).projects@ == old(self).projects@.push(project),
            r is Err ==> final(self).projects@ == old(self).projects@,
            r is Err ==> (r matches Err(PrjError::ProjectAlreadyExists(p)) && p@ == project.path@),
            old(self).wf() ==> final(self).wf(),
    {
        if self.contains_path(&project.path) {
            return Err(PrjError::ProjectAlreadyExists(project.path));
        }
        proof {
            lemma_new_path_keeps_unique(self.projects@, project);
        }
        self.projects.push(project);
        Ok(())
    }

    /// Position of the first record named `name`.
    pub fn position(&self, name: &str) -> (r: Option<usize>)
        ensures
            r matches Some(i) ==> first_named(self.projects@, name@, i as int),
            r is None <==> !has_name(self.projects@, name@),
    {
        let target = String::from_str(name);
        let mut i: usize = 0;
        while i < self.projects.len()
            invariant
                i <= self.projects@.len(),
                target@ == name@,
                forall|j: int| 0 <= j < i ==> #[trigger] self.projects@[j].name@ != name@,
            decreases self.projects@.len() - i,
        {
            if self.projects[i].name == target {
                return Some(i);
            }
            i = i + 1;
        }
        None
    }

    /// The first record named `name`, if any.
    pub fn find(&self, name: &str) -> (r: Option<&Project>)
        ensures
            r is None <==> !has_name(self.projects@, name@),
            r matches Some(p) ==> exists|i: int| first_named(self.projects@, name@, i) && *p == self.projects@[i],
    {
        match self.position(name) {
            Some(i) => Some(&self.projects[i]),
            None => None,
        }
    }

    /// The first record named `name`, if any, for changing in place.
    pub fn find_mut(&mut self, name: &str) -> (r: Option<&mut Project>)
        ensures
            r is None <==> !has_name(old(self).projects@, name@),
            r is None ==> final(self).projects@ == old(self).projects@,
            r matches Some(p) ==> exists|i: int|
                first_named(old(self).projects@, name@, i) && *p == old(self).projects@[i]
                    && final(self).projects@ == old(self).projects@.update(i, *final(p)),
    {
        match self.position(name) {
            Some(i) => Some(&mut self.projects[i]),
            None => None,
        }
    }

    /// Detaches and returns the first record named `name`; the other records
    /// keep their order.
    pub fn remove(&mut self, name: &str) -> (r: Result<Project, PrjError>)
        ensures
            r is Ok <==> has_name(old(self).projects@, name@),
            r matches Ok(p) ==> exists|i: int|
                first_named(old(self).projects@, name@, i) && p == old(self).projects@[i]
                    && final(self).projects@ == old(self).projects@.remove(i),
            r is Err ==> final(self).projects@ == old(self).projects@,
            r is Err ==> (r matches Err(PrjError::ProjectNotFound(n)) && n@ == name@),
            old(self).wf() ==> final(self).wf(),
    {
        match self.position(name) {
            Some(i) => {
                let p = self.projects.remove(i);
                proof {
                    if old(self).wf() {
                        assert forall|a: int, b: int|
                            0 <= a < self.projects@.len() && 0 <= b < self.projects@.len() && a != b
                                implies #[trigger] self.projects@[a].path@ != #[trigger] self.projects@[b].path@ by {
                            let oa = if a < i { a } else { a + 1 };
                            let ob = if b < i { b } else { b + 1 };
                            assert(self.projects@[a] == old(self).projects@[oa]);
                            assert(self.projects@[b] == old(self).projects@[ob]);
                        }
                    }
                }
                Ok(p)
            },
            None => Err(PrjError::ProjectNotFound(String::from_str(name))),
        }
    }

    /// Replaces the record at `i`, keeping the others in place.
    fn replace_at(&mut self, i: usize, p: Project) -> (r: Project)
        requires
            i < old(self).projects@.len(),
        ensures
            r == old(self).projects@[i as int],
            final(self).projects@ == old(self).projects@.update(i as int, p),
    {
        let old_p = self.projects.remove(i);
        self.projects.insert(i, p);
        assert(self.projects@ =~= old(self).projects@.update(i as int, p));
        old_p
    }

    /// Adds each of `tags` that the first record named `name` lacks, then
    /// sorts that record's tags.
    pub fn add_tags(&mut self, name: &str, tags: &[String]) -> (r: Result<(), PrjError>)
        ensures
            r is Ok <==> has_name(old(self).projects@, name@),
            r is Ok ==> exists|i: int|
                first_named(old(self).projects@, name@, i) && final(self).projects@.len()
                    == old(self).projects@.len() && (forall|j: int|
                    0 <= j < old(self).projects@.len() && j != i ==> final(self).projects@[j]
                        == old(self).projects@[j]) && names_of(final(self).projects@[i].tags@)
                    == tags_after_add(names_of(old(self).projects@[i].tags@), names_of(tags@))
                    && is_sorted_names(names_of(final(self).projects@[i].tags@)) && same_but_tags(
                    final(self).projects@[i],
                    old(self).projects@[i],
                ),
            r is Err ==> final(self).projects@ == old(self).projects@,
            r is Err ==> (r matches Err(PrjError::ProjectNotFound(n)) && n@ == name@),
            old(self).wf() ==> final(self).wf(),
    {
        match self.position(name) {
            Some(i) => {
                let placeholder = empty_project();
                let mut p = self.replace_at(i, placeholder);
                let mut t: Vec<String> = Vec::new();
                std::mem::swap(&mut t, &mut p.tags);
                let t2 = add_sorted_tags(t, tags);
                p.tags = t2;
                let ghost newp = p;
                self.replace_at(i, p);
                proof {
                    assert(self.projects@ == old(self).projects@.update(i as int, newp));
                    if old(self).wf() {
                        assert forall|a: int, b: int|
                            0 <= a < self.projects@.len() && 0 <= b < self.projects@.len() && a != b
                                implies #[trigger] self.projects@[a].path@ != #[trigger] self.projects@[b].path@ by {
                            assert(self.projects@[a].path == old(self).projects@[a].path);
                            assert(self.projects@[b].path == old(self).projects@[b].path);
                        }
                    }
                }
                Ok(())
            },
            None => Err(PrjError::ProjectNotFound(String::from_str(name))),
        }
    }

    /// Removes each of `tags` from the first record named `name`.
    pub fn remove_tags(&mut self, name: &str, tags: &[String]) -> (r: Result<(), PrjError>)
        ensures
            r is Ok <==> has_name(old(self).projects@, name@),
            r is Ok ==> exists|i: int|
                first_named(old(self).projects@, name@, i) && final(self).projects@.len()
                    == old(self).projects@.len() && (forall|j: int|
                    0 <= j < old(self).projects@.len() && j != i ==> final(self).projects@[j]
                        == old(self).projects@[j]) && names_of(final(self).projects@[i].tags@)
                    == tags_without(names_of(old(self).projects@[i].tags@), names_of(tags@))
                    && same_but_tags(final(self).projects@[i], old(self).projects@[i]),
            r is Err ==> final(self).projects@ == old(self).projects@,
            r is Err ==> (r matches Err(PrjError::ProjectNotFound(n)) && n@ == name@),
            old(self).wf() ==> final(self).wf(),
    {
        match self.position(name) {
            Some(i) => {
                let placeholder = empty_project();
                let mut p = self.replace_at(i, placeholder);
                let mut t: Vec<String> = Vec::new();
                std::mem::swap(&mut t, &mut p.tags);
                p.tags = drop_tags(&t, tags);
                let ghost newp = p;
                self.replace_at(i, p);
                proof {
                    assert(self.projects@ == old(self).projects@.update(i as int, newp));
                    if old(self).wf() {
                        assert forall|a: int, b: int|
                            0 <= a < self.projects@.len() && 0 <= b < self.projects@.len() && a != b
                                implies #[trigger] self.projects@[a].path@ != #[trigger] self.projects@[b].path@ by {
                            assert(self.projects@[a].path == old(self).projects@[a].path);
                            assert(self.projects@[b].path == old(self).projects@[b].path);
                        }
                    }
                }
                Ok(())
            },
            None => Err(PrjError::ProjectNotFound(String::from_str(name))),
        }
    }
}

impl ProjectDatabase {
    /// The records whose path no longer exists; `exists[i]` tells whether the
    /// path of record `i` exists on disk now.
    pub fn find_orphaned(&self, exists: &Vec<bool>) -> (r: Vec<&Project>)
        requires
            exists@.len() == self.projects@.len(),
        ensures
            r@.map_values(|p: &Project| *p) == orphans(self.projects@, exists@),
    {
        let mut out: Vec<&Project> = Vec::new();
        let mut k: usize = 0;
        assert(self.projects@.take(0) =~= Seq::<Project>::empty());
        while k < self.projects.len()
            invariant
                k <= self.projects@.len(),
                exists@.len() == self.projects@.len(),
                out@.map_values(|p: &Project| *p) == orphans(self.projects@.take(k as int), exists@.take(k as int)),
            decreases self.projects@.len() - k,
        {
            let ghost before = out@.map_values(|p: &Project| *p);
            proof {
                lemma_orphans_step(self.projects@, exists@, k as int);
            }
            if !exists[k] {
                out.push(&self.projects[k]);
                assert(out@.map_values(|p: &Project| *p) =~= before.push(self.projects@[k as int]));
            }
            k = k + 1;
        }
        assert(self.projects@.take(k as int) =~= self.projects@);
        assert(exists@.take(k as int) =~= exists@);
        out
    }

    /// Removes the records whose path no longer exists and returns them; the
    /// records kept keep their order. `exists[i]` tells whether the path of
    /// record `i` exists on disk now.
    pub fn remove_orphaned(&mut self, exists: &Vec<bool>) -> (r: Vec<Project>)
        requires
            exists@.len() == old(self).projects@.len(),
        ensures
            r@ == orphans(old(self).projects@, exists@),
            final(self).projects@ == survivors(old(self).projects@, exists@),
            old(self).wf() ==> final(self).wf(),
    {
        let ghost ps = self.projects@;
        let mut all: Vec<Project> = Vec::new();
        std::mem::swap(&mut all, &mut self.projects);
        let mut rev: Vec<Project> = Vec::new();
        while all.len() > 0
            invariant
                all@.len() + rev@.len() == ps.len(),
                forall|j: int| 0 <= j < all@.len() ==> #[trigger] all@[j] == ps[j],
                forall|j: int| 0 <= j < rev@.len() ==> #[trigger] rev@[j] == ps[ps.len() - 1 - j],
            decreases all@.len(),
        {
            let p = all.pop().unwrap();
            rev.push(p);
        }
        let mut gone: Vec<Project> = Vec::new();
        let mut kept: Vec<Project> = Vec::new();
        let mut idx: usize = 0;
        let n = exists.len();
        assert(ps.take(0) =~= Seq::<Project>::empty());
        while rev.len() > 0
            invariant
                n == ps.len(),
                rev@.len() <= ps.len(),
                idx + rev@.len() == ps.len(),
                exists@.len() == ps.len(),
                forall|j: int| 0 <= j < rev@.len() ==> #[trigger] rev@[j] == ps[ps.len() - 1 - j],
                gone@ == orphans(ps.take(ps.len() - rev@.len()), exists@.take(ps.len() - rev@.len())),
                kept@ == survivors(ps.take(ps.len() - rev@.len()), exists@.take(ps.len() - rev@.len())),
            decreases rev@.len(),
        {
            let ghost k = ps.len() - rev@.len();
            proof {
                lemma_orphans_step(ps, exists@, k);
            }
            let p = rev.pop().unwrap();
            assert(p == ps[k]);
            if exists[idx] {
                kept.push(p);
            } else {
                gone.push(p);
            }
            idx = idx + 1;
        }
        assert(ps.take(ps.len() as int) =~= ps);
        assert(exists@.take(ps.len() as int) =~= exists@);
        self.projects = kept;
        proof {
            if paths_unique(ps) {
                lemma_survivors_unique(ps, exists@);
            }
        }
        gone
    }

    /// Registers the directory that `target` describes: it must have resolved
    /// to a canonical path that is a directory, and that path must not be
    /// registered yet. The record's name is `name` if given, else the last
    /// component of the canonical path, else `unknown`; its metadata comes
    /// from `detect::detect_project` on the markers present.
    pub fn register(&mut self, target: &ResolvedPath, name: Option<&str>) -> (r: Result<&Project, PrjError>)
        ensures
            target.canonical is None ==> (r matches Err(PrjError::PathNotFound(p)) && p@ == target.requested@),
            target.canonical is Some && !target.is_dir ==> (r matches Err(PrjError::NotADirectory(p)) && p@ == target.canonical.unwrap()@),
            target.canonical is Some && target.is_dir && has_path(old(self).projects@, target.canonical.unwrap()@) ==> (r matches Err(PrjError::ProjectAlreadyExists(p)) && p@ == target.canonical.unwrap()@),
            r is Err ==> final(self).projects@ == old(self).projects@,
            r is Ok <==> (target.canonical is Some && target.is_dir && !has_path(old(self).projects@, target.canonical.unwrap()@)),
            r matches Ok(p) ==> {
                &&& final(self).projects@ == old(self).projects@.push(*p)
                &&& p.path@ == target.canonical.unwrap()@
                &&& p.name@ == derived_name(p.path@, match name { Some(n) => Some(n@), None => None })
                &&& p.vcs@ == vcs_of(names_of(target.present@))
                &&& p.build_systems@ == systems_upto(names_of(target.present@), MARKER_COUNT as int)
                &&& names_of(p.artifact_dirs@) == artifacts_upto(names_of(target.present@), MARKER_COUNT as int)
                &&& p.tags@.len() == 0
            },
            old(self).wf() ==> final(self).wf(),
    {
        let path = match &target.canonical {
            Some(c) => c.clone(),
            None => {
                return Err(PrjError::PathNotFound(target.requested.clone()));
            },
        };
        if !target.is_dir {
            return Err(PrjError::NotADirectory(path));
        }
        let detection = detect_project(&target.present);
        let name = match name {
            Some(n) => String::from_str(n),
            None => default_name(&path),
        };
        let project = Project {
            name,
            path,
            vcs: detection.vcs,
            build_systems: detection.build_systems,
            artifact_dirs: detection.artifact_dirs,
            added_at: now_utc(),
            tags: Vec::new(),
        };
        match self.add(project) {
            Ok(()) => {
                let last = self.projects.len() - 1;
                Ok(&self.projects[last])
            },
            Err(e) => Err(e),
        }
    }
}

/// The last component of `path`, or `unknown` where it has none.
fn default_name(path: &String) -> (r: String)
    ensures
        r@ == derived_name(path@, None),
{
    let s = path.as_str();
    let n = s.unicode_len();
    let mut k: usize = n;
    assert(s@.skip(n as int) =~= Seq::<char>::empty());
    assert(s@.take(n as int) =~= s@);
    while k > 0 && s.get_char(k - 1) != '/'
        invariant
            n == s@.len(),
            k <= n,
            s@ == path@,
            last_component(s@) == last_component(s@.take(k as int)) + s@.skip(k as int),
        decreases k,
    {
        assert(s@.take(k as int).drop_last() =~= s@.take(k - 1));
        assert(s@.skip(k - 1) =~= seq![s@[k - 1]] + s@.skip(k as int));
        assert(last_component(s@.take(k - 1)).push(s@[k - 1]) + s@.skip(k as int)
            =~= last_component(s@.take(k - 1)) + s@.skip(k - 1));
        k = k - 1;
    }
    proof {
        if k > 0 {
            assert(s@.take(k as int).last() == s@[k - 1]);
        }
        assert(last_component(s@.take(k as int)) =~= Seq::<char>::empty());
        assert(last_component(s@) =~= s@.skip(k as int));
    }
    if k == n {
        proof {
            reveal_strlit("unknown");
        }
        String::from_str("unknown")
    } else {
        String::from_str(s.substring_char(k, n))
    }
}

proof fn lemma_orphans_step(ps: Seq<Project>, ex: Seq<bool>, k: int)
    requires
        0 <= k < ps.len(),
        ex.len() == ps.len(),
    ensures
        orphans(ps.take(k + 1), ex.take(k + 1)) == if ex[k] {
            orphans(ps.take(k), ex.take(k))
        } else {
            orphans(ps.take(k), ex.take(k)).push(ps[k])
        },
        survivors(ps.take(k + 1), ex.take(k + 1)) == if ex[k] {
            survivors(ps.take(k), ex.take(k)).push(ps[k])
        } else {
            survivors(ps.take(k), ex.take(k))
        },
{
    assert(ps.take(k + 1).drop_last() =~= ps.take(k));
    assert(ex.take(k + 1).take(k) =~= ex.take(k));
}

/// Position that the survivor at `i` takes in the survivors: the number of
/// survivors before it.
pub open spec fn survivor_rank(alive: Seq<bool>, i: int) -> int
    decreases i,
{
    if i <= 0 {
        0
    } else {
        survivor_rank(alive, i - 1) + if alive[i - 1] { 1int } else { 0int }
    }
}

/// Order preservation of the orphan sweep: the record at position `i` that
/// survives lands at position `survivor_rank(alive, i)`, which grows with
/// `i`, and every survivor comes from such a position.
pub proof fn lemma_survivors_order(ps: Seq<Project>, alive: Seq<bool>)
    requires
        alive.len() == ps.len(),
    ensures
        survivors(ps, alive).len() == survivor_rank(alive, ps.len() as int),
        forall|i: int|
            #![trigger survivor_rank(alive, i)]
            0 <= i < ps.len() && alive[i] ==> survivor_rank(alive, i) < survivors(ps, alive).len() && survivors(ps, alive)[survivor_rank(alive, i)] == ps[i],
        forall|i: int, j: int| 0 <= i < j <= ps.len() ==> #[trigger] survivor_rank(alive, i) <= #[trigger] survivor_rank(alive, j),
        forall|i: int, j: int| 0 <= i < j < ps.len() && alive[i] ==> #[trigger] survivor_rank(alive, i) < #[trigger] survivor_rank(alive, j),
        forall|x: Project| #[trigger] survivors(ps, alive).contains(x) ==> ps.contains(x),
    decreases ps.len(),
{
    if ps.len() > 0 {
        let n = ps.len() - 1;
        let d = ps.drop_last();
        let e = alive.take(n as int);
        lemma_survivors_order(d, e);
        assert forall|i: int| 0 <= i <= n implies #[trigger] survivor_rank(e, i) == survivor_rank(alive, i) by {
            lemma_rank_prefix(alive, n as int, i);
        }
        lemma_rank_mono(alive, ps.len() as int);
        let s = survivors(ps, alive);
        let sd = survivors(d, e);
        assert(d.len() == n);
        assert(survivor_rank(alive, ps.len() as int) == survivor_rank(alive, n) + if alive[n] { 1int } else { 0int });
        assert(s == if alive[n] { sd.push(ps[n]) } else { sd });
        assert(survivor_rank(e, n as int) == survivor_rank(alive, n as int));
        assert(sd.len() == survivor_rank(alive, n as int));
        assert forall|i: int|
            #![trigger survivor_rank(alive, i)]
            0 <= i < ps.len() && alive[i] implies survivor_rank(alive, i) < s.len() && s[survivor_rank(alive, i)] == ps[i] by {
            if i == n {
                assert(s == sd.push(ps[n as int]));
                assert(s[sd.len() as int] == ps[n as int]);
            } else {
                assert(e[i] == alive[i]);
                assert(0 <= i < d.len() && e[i]);
                assert(survivor_rank(e, i) < sd.len());
                assert(survivor_rank(e, i) == survivor_rank(alive, i));
                assert(sd[survivor_rank(e, i)] == d[i]);
                assert(d[i] == ps[i]);
                assert(survivor_rank(alive, 0) == 0);
                if i > 0 {
                    assert(survivor_rank(alive, 0) <= survivor_rank(alive, i));
                }
                if alive[n] {
                    assert(sd.push(ps[n])[survivor_rank(alive, i)] == sd[survivor_rank(alive, i)]);
                }
                assert(survivor_rank(alive, i + 1) == survivor_rank(alive, i) + 1);
                assert(survivor_rank(alive, i + 1) <= survivor_rank(alive, n as int));
            }
        }
        assert forall|x: Project| #[trigger] s.contains(x) implies ps.contains(x) by {
            let j = choose|j: int| 0 <= j < s.len() && s[j] == x;
            if j < sd.len() {
                assert(sd[j] == x);
                assert(sd.contains(x));
                let k = choose|k: int| 0 <= k < d.len() && d[k] == x;
                assert(ps[k] == x);
            } else {
                assert(ps[n as int] == x);
            }
        }
    }
}

/// The orphan sweep keeps canonical paths unique.
proof fn lemma_survivors_unique(ps: Seq<Project>, alive: Seq<bool>)
    requires
        alive.len() == ps.len(),
        paths_unique(ps),
    ensures
        paths_unique(survivors(ps, alive)),
    decreases ps.len(),
{
    if ps.len() > 0 {
        let n = ps.len() - 1;
        let d = ps.drop_last();
        let e = alive.take(n as int);
        assert(paths_unique(d)) by {
            assert forall|a: int, b: int| 0 <= a < d.len() && 0 <= b < d.len() && a != b implies #[trigger] d[a].path@ != #[trigger] d[b].path@ by {
                assert(d[a] == ps[a] && d[b] == ps[b]);
            }
        }
        lemma_survivors_unique(d, e);
        lemma_survivors_order(d, e);
        let sd = survivors(d, e);
        if alive[n as int] {
            let s = sd.push(ps[n as int]);
            assert forall|a: int, b: int| 0 <= a < s.len() && 0 <= b < s.len() && a != b implies #[trigger] s[a].path@ != #[trigger] s[b].path@ by {
                if a == sd.len() || b == sd.len() {
                    let o = if a == sd.len() { b } else { a };
                    assert(sd.contains(sd[o]));
                    let k = choose|k: int| 0 <= k < d.len() && d[k] == sd[o];
                    assert(ps[k] == s[o]);
                } else {
                    assert(s[a] == sd[a] && s[b] == sd[b]);
                }
            }
        }
    }
}

proof fn lemma_rank_prefix(alive: Seq<bool>, n: int, i: int)
    requires
        0 <= i <= n <= alive.len(),
    ensures
        survivor_rank(alive.take(n), i) == survivor_rank(alive, i),
    decreases i,
{
    if i > 0 {
        lemma_rank_prefix(alive, n, i - 1);
    }
}

proof fn lemma_rank_mono(alive: Seq<bool>, n: int)
    requires
        0 <= n <= alive.len(),
    ensures
        forall|i: int, j: int| 0 <= i < j <= n ==> #[trigger] survivor_rank(alive, i) <= #[trigger] survivor_rank(alive, j),
        forall|i: int, j: int| 0 <= i < j < n && alive[i] ==> #[trigger] survivor_rank(alive, i) < #[trigger] survivor_rank(alive, j),
    decreases n,
{
    if n > 0 {
        lemma_rank_mono(alive, n - 1);
        assert forall|i: int, j: int| 0 <= i < j <= n implies #[trigger] survivor_rank(alive, i) <= #[trigger] survivor_rank(alive, j) by {
            if j == n {
                assert(survivor_rank(alive, n) >= survivor_rank(alive, n - 1));
                if i < n - 1 {
                    assert(survivor_rank(alive, i) <= survivor_rank(alive, n - 1));
                }
            }
        }
        assert forall|i: int, j: int| 0 <= i < j < n && alive[i] implies #[trigger] survivor_rank(alive, i) < #[trigger] survivor_rank(alive, j) by {
            assert(survivor_rank(alive, i + 1) == survivor_rank(alive, i) + 1);
            if i + 1 < j {
                assert(survivor_rank(alive, i + 1) <= survivor_rank(alive, j));
            }
        }
    }
}

/// Order preservation of `remove`: the records before the removed one keep
/// their positions, and those after it move up by one.
pub proof fn lemma_remove_keeps_order(ps: Seq<Project>, i: int)
    requires
        0 <= i < ps.len(),
    ensures
        ps.remove(i).len() == ps.len() - 1,
        forall|j: int| 0 <= j < i ==> #[trigger] ps.remove(i)[j] == ps[j],
        forall|j: int| i < j < ps.len() ==> ps.remove(i)[j - 1] == #[trigger] ps[j],
{
}

/// Uniqueness: appending a record whose canonical path is not registered
/// yet keeps canonical paths unique. `add` and `register` append only such
/// records; for a path already registered they fail with
/// `ProjectAlreadyExists` and leave the registry unchanged.
pub proof fn lemma_new_path_keeps_unique(ps: Seq<Project>, p: Project)
    ensures
        paths_unique(ps) && !has_path(ps, p.path@) ==> paths_unique(ps.push(p)),
{
    if paths_unique(ps) && !has_path(ps, p.path@) {
        let q = ps.push(p);
        assert forall|a: int, b: int| 0 <= a < q.len() && 0 <= b < q.len() && a != b implies #[trigger] q[a].path@ != #[trigger] q[b].path@ by {
            if a == ps.len() {
                assert(ps[b] == q[b]);
            } else if b == ps.len() {
                assert(ps[a] == q[a]);
            }
        }
    }
}

/// Whether record `p` carries the tag `tag`.
pub open spec fn has_tag(p: Project, tag: Seq<char>) -> bool {
    names_of(p.tags@).contains(tag)
}

/// The records of `ps` that carry `tag`, in order.
pub open spec fn tagged(ps: Seq<Project>, tag: Seq<char>) -> Seq<Project>
    decreases ps.len(),
{
    if ps.len() == 0 {
        ps
    } else {
        let rest = tagged(ps.drop_last(), tag);
        if has_tag(ps.last(), tag) {
            rest.push(ps.last())
        } else {
            rest
        }
    }
}

impl ProjectDatabase {
    /// The projects a command acts on: the one named `project`, else those
    /// tagged `tag`, else all of them if `all`; with none of these there is
    /// no target.
    pub fn select_targets(&self, project: Option<&str>, tag: Option<&str>, all: bool) -> (r: Result<Vec<&Project>, PrjError>)
        ensures
            project matches Some(n) ==> (has_name(self.projects@, n@) ==> (r matches Ok(v) && v@.len() == 1
                && exists|i: int| first_named(self.projects@, n@, i) && *v@[0] == self.projects@[i])),
            project matches Some(n) ==> (!has_name(self.projects@, n@) ==> (r matches Err(PrjError::ProjectNotFound(m)) && m@ == n@)),
            project is None && tag is Some ==> (r matches Ok(v) && v@.map_values(|p: &Project| *p) == tagged(self.projects@, tag.unwrap()@)),
            project is None && tag is None && all ==> (r matches Ok(v) && v@.map_values(|p: &Project| *p) == self.projects@),
            project is None && tag is None && !all ==> (r matches Err(PrjError::NoTargetProjects)),
    {
        if let Some(name) = project {
            return match self.find(name) {
                Some(p) => {
                    let mut v: Vec<&Project> = Vec::new();
                    v.push(p);
                    Ok(v)
                },
                None => Err(PrjError::ProjectNotFound(String::from_str(name))),
            };
        }
        if let Some(t) = tag {
            let mut v: Vec<&Project> = Vec::new();
            let mut k: usize = 0;
            assert(self.projects@.take(0) =~= Seq::<Project>::empty());
            while k < self.projects.len()
                invariant
                    k <= self.projects@.len(),
                    v@.map_values(|p: &Project| *p) == tagged(self.projects@.take(k as int), t@),
                decreases self.projects@.len() - k,
            {
                let ghost before = v@.map_values(|p: &Project| *p);
                assert(self.projects@.take(k + 1).drop_last() =~= self.projects@.take(k as int));
                if crate::detect::contains_name(&self.projects[k].tags, t) {
                    v.push(&self.projects[k]);
                    assert(v@.map_values(|p: &Project| *p) =~= before.push(self.projects@[k as int]));
                }
                k = k + 1;
            }
            assert(self.projects@.take(k as int) =~= self.projects@);
            return Ok(v);
        }
        if all {
            let mut v: Vec<&Project> = Vec::new();
            let mut k: usize = 0;
            while k < self.projects.len()
                invariant
                    k <= self.projects@.len(),
                    v@.len() == k,
                    forall|j: int| 0 <= j < k ==> *#[trigger] v@[j] == self.projects@[j],
                decreases self.projects@.len() - k,
            {
                v.push(&self.projects[k]);
                k = k + 1;
            }
            assert(v@.map_values(|p: &Project| *p) =~= self.projects@);
            return Ok(v);
        }
        Err(PrjError::NoTargetProjects)
    }

    /// Keeps only the records that carry `tag`, in order.
    pub fn retain_tagged(&mut self, tag: &str)
        ensures
            final(self).projects@ == tagged(old(self).projects@, tag@),
            old(self).wf() ==> final(self).wf(),
    {
        let ghost ps = self.projects@;
        let mut all: Vec<Project> = Vec::new();
        std::mem::swap(&mut all, &mut self.projects);
        let mut rev: Vec<Project> = Vec::new();
        while all.len() > 0
            invariant
                all@.len() + rev@.len() == ps.len(),
                forall|j: int| 0 <= j < all@.len() ==> #[trigger] all@[j] == ps[j],
                forall|j: int| 0 <= j < rev@.len() ==> #[trigger] rev@[j] == ps[ps.len() - 1 - j],
            decreases all@.len(),
        {
            let p = all.pop().unwrap();
            rev.push(p);
        }
        let mut kept: Vec<Project> = Vec::new();
        assert(ps.take(0) =~= Seq::<Project>::empty());
        while rev.len() > 0
            invariant
                rev@.len() <= ps.len(),
                forall|j: int| 0 <= j < rev@.len() ==> #[trigger] rev@[j] == ps[ps.len() - 1 - j],
                kept@ == tagged(ps.take(ps.len() - rev@.len()), tag@),
                forall|x: Project| #[trigger] kept@.contains(x) ==> ps.take(ps.len() - rev@.len()).contains(x),
                paths_unique(ps) ==> paths_unique(kept@),
            decreases rev@.len(),
        {
            let ghost k = ps.len() - rev@.len();
            let ghost before = kept@;
            assert(ps.take(k + 1).drop_last() =~= ps.take(k));
            let p = rev.pop().unwrap();
            assert(p == ps[k]);
            proof {
                assert forall|x: Project| #[trigger] before.contains(x) implies ps.take(k + 1).contains(x) by {
                    assert(ps.take(k).contains(x));
                    let i = choose|i: int| 0 <= i < ps.take(k).len() && ps.take(k)[i] == x;
                    assert(ps.take(k + 1)[i] == x);
                }
            }
            if crate::detect::contains_name(&p.tags, tag) {
                proof {
                    if paths_unique(ps) {
                        assert forall|x: Project| #[trigger] before.contains(x) implies x.path@ != p.path@ by {
                            assert(ps.take(k).contains(x));
                            let j = choose|j: int| 0 <= j < ps.take(k).len() && ps.take(k)[j] == x;
                            assert(ps[j] == x);
                        }
                    }
                }
                kept.push(p);
                proof {
                    assert forall|x: Project| #[trigger] kept@.contains(x) implies ps.take(k + 1).contains(x) by {
                        let j = choose|j: int| 0 <= j < kept@.len() && kept@[j] == x;
                        if j < before.len() {
                            assert(before[j] == x);
                            assert(before.contains(x));
                            assert(ps.take(k).contains(x));
                            let i = choose|i: int| 0 <= i < ps.take(k).len() && ps.take(k)[i] == x;
                            assert(ps.take(k + 1)[i] == x);
                        } else {
                            assert(ps.take(k + 1)[k] == x);
                        }
                    }
                    if paths_unique(ps) {
                        assert forall|a: int, b: int| 0 <= a < kept@.len() && 0 <= b < kept@.len() && a != b implies #[trigger] kept@[a].path@ != #[trigger] kept@[b].path@ by {
                            if a == before.len() {
                                assert(before.contains(kept@[b]));
                            } else if b == before.len() {
                                assert(before.contains(kept@[a]));
                            } else {
                                assert(kept@[a] == before[a] && kept@[b] == before[b]);
                            }
                        }
                    }
                }
            }
        }
        assert(ps.take(ps.len() as int) =~= ps);
        self.projects = kept;
    }
}

/// Two records that differ at most in their tags.
pub open spec fn same_but_tags(a: Project, b: Project) -> bool {
    &&& a.name == b.name
    &&& a.path == b.path
    &&& a.vcs == b.vcs
    &&& a.build_systems == b.build_systems
    &&& a.artifact_dirs == b.artifact_dirs
    &&& a.added_at == b.added_at
}

fn empty_project() -> Project {
    Project {
        name: String::new(),
        path: String::new(),
        vcs: Vec::new(),
        build_systems: Vec::new(),
        artifact_dirs: Vec::new(),
        added_at: Timestamp { secs: 0, nanos: 0 },
        tags: Vec::new(),
    }
}

} // verus!
