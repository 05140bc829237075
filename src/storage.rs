//! A simple list of named project paths, each with a kind.
use vstd::prelude::*;

verus! {

/// The kind of a stored project.
#[derive(Debug, Clone, Copy, PartialEq, Eq, Structural)]
pub enum ProjectType {
    CMake,
    Cargo,
    Other,
}

/// A stored project: its name, kind and path.
#[derive(Debug)]
pub struct Project {
    pub name: String,
    pub project_type: ProjectType,
    pub path: String,
}

/// The stored projects, in the order they were added.
#[derive(Debug)]
pub struct ProjectStorage {
    pub projects: Vec<Project>,
}

/// Whether `p` is matched by the name or the path given for removal.
pub open spec fn matches_removal(p: Project, name: Option<Seq<char>>, path: Option<Seq<char>>) -> bool {
    (name matches Some(n) && p.name@ == n) || (path matches Some(q) && p.path@ == q)
}

/// The projects of `ps` that are not matched for removal, in order.
pub open spec fn kept_after_removal(ps: Seq<Project>, name: Option<Seq<char>>, path: Option<Seq<char>>) -> Seq<Project>
    decreases ps.len(),
{
    if ps.len() == 0 {
        ps
    } else {
        let rest = kept_after_removal(ps.drop_last(), name, path);
        if matches_removal(ps.last(), name, path) {
            rest
        } else {
            rest.push(ps.last())
        }
    }
}

pub open spec fn opt_view(s: Option<&str>) -> Option<Seq<char>> {
    match s {
        Some(x) => Some(x@),
        None => None,
    }
}

impl ProjectStorage {
    /// An empty store.
    pub fn new() -> (r: ProjectStorage)
        ensures
            r.projects@ == Seq::<Project>::empty(),
    {
        ProjectStorage { projects: Vec::new() }
    }

    /// Appends a project.
    pub fn add_project(&mut self, project: Project)
        ensures
            final(self).projects@ == old(self).projects@.push(project),
    {
        self.projects.push(project);
    }

    /// Removes every project whose name is `name` or whose path is `path`,
    /// keeping the others in order.
    pub fn remove_project(&mut self, name: Option<&str>, path: Option<&str>)
        ensures
            final(self).projects@ == kept_after_removal(old(self).projects@, opt_view(name), opt_view(path)),
    {
        let ghost ps = self.projects@;
        let name_s: Option<String> = match name {
            Some(n) => Some(String::from_str(n)),
            None => None,
        };
        let path_s: Option<String> = match path {
            Some(p) => Some(String::from_str(p)),
            None => None,
        };
        let mut all: Vec<Project> = Vec::new();
        std::mem::swap(&mut all, &mut self.projects);
        let mut rev: Vec<Project> = Vec::new();
        while all.len() > 0
            invariant
                all@.len() + rev@.len() == ps.len(),
                forall|j: int| 0 <= j < all@.len() ==> #[trigger] all@[j] == ps[j],
                forall|j: int| 0 <= j < rev@.len() ==> #[trigger] rev@[j] == ps[ps.len() - 1 - j],
            decreases all@.len(),
        {
            let p = all.pop().unwrap();
            rev.push(p);
        }
        let mut kept: Vec<Project> = Vec::new();
        assert(ps.take(0) =~= Seq::<Project>::empty());
        while rev.len() > 0
            invariant
                rev@.len() <= ps.len(),
                forall|j: int| 0 <= j < rev@.len() ==> #[trigger] rev@[j] == ps[ps.len() - 1 - j],
                opt_view(name) == match name_s { Some(s) => Some(s@), None => None::<Seq<char>> },
                opt_view(path) == match path_s { Some(s) => Some(s@), None => None::<Seq<char>> },
                kept@ == kept_after_removal(ps.take(ps.len() - rev@.len()), opt_view(name), opt_view(path)),
            decreases rev@.len(),
        {
            let ghost k = ps.len() - rev@.len();
            assert(ps.take(k + 1).drop_last() =~= ps.take(k));
            let p = rev.pop().unwrap();
            assert(p == ps[k]);
            let by_name = match &name_s {
                Some(n) => p.name == *n,
                None => false,
            };
            let by_path = match &path_s {
                Some(q) => p.path == *q,
                None => false,
            };
            if !(by_name || by_path) {
                kept.push(p);
            }
        }
        assert(ps.take(ps.len() as int) =~= ps);
        self.projects = kept;
    }

    /// The path of the first project named `name`.
    pub fn get_project_path(&self, name: &str) -> (r: Option<String>)
        ensures
            r is None <==> forall|i: int| 0 <= i < self.projects@.len() ==> #[trigger] self.projects@[i].name@ != name@,
            r matches Some(p) ==> exists|i: int|
                0 <= i < self.projects@.len() && self.projects@[i].name@ == name@ && p@
                    == self.projects@[i].path@ && forall|j: int| 0 <= j < i ==> #[trigger] self.projects@[j].name@ != name@,
    {
        let target = String::from_str(name);
        let mut i: usize = 0;
        while i < self.projects.len()
            invariant
                i <= self.projects@.len(),
                target@ == name@,
                forall|j: int| 0 <= j < i ==> #[trigger] self.projects@[j].name@ != name@,
            decreases self.projects@.len() - i,
        {
            if self.projects[i].name == target {
                return Some(self.projects[i].path.clone());
            }
            i = i + 1;
        }
        None
    }
}

} // verus!
