//! Portable manifests of the registry, for export and import: project
//! paths relative to a base directory, with their git remotes and tags.
use vstd::prelude::*;

use crate::config::{join_path, joined};
use crate::detect::names_of;
use crate::registry::Project;
use crate::tags::slice_to_vec_names;

verus! {

/// A portable project manifest.
#[derive(Debug)]
pub struct Manifest {
    pub version: u32,
    pub base_dir: String,
    pub projects: Vec<ManifestEntry>,
}

/// One project of a manifest.
#[derive(Debug)]
pub struct ManifestEntry {
    pub name: String,
    pub relative_path: String,
    pub remote_url: Option<String>,
    pub tags: Vec<String>,
}

/// Two entries that hold the same text.
pub open spec fn same_entry(a: ManifestEntry, b: ManifestEntry) -> bool {
    &&& a.name@ == b.name@
    &&& a.relative_path@ == b.relative_path@
    &&& (a.remote_url is None <==> b.remote_url is None)
    &&& (a.remote_url matches Some(u) ==> b.remote_url matches Some(v) && u@ == v@)
    &&& names_of(a.tags@) == names_of(b.tags@)
}

fn copy_entry(e: &ManifestEntry) -> (r: ManifestEntry)
    ensures
        same_entry(r, *e),
{
    ManifestEntry {
        name: e.name.clone(),
        relative_path: e.relative_path.clone(),
        remote_url: match &e.remote_url {
            Some(u) => Some(u.clone()),
            None => None,
        },
        tags: slice_to_vec_names(e.tags.as_slice()),
    }
}

/// Where each project of `manifest` goes on import: its relative path
/// joined to `base_dir` if given, else to the manifest's own base directory.
pub fn import_targets(manifest: &Manifest, base_dir: Option<&str>) -> (r: Vec<(ManifestEntry, String)>)
    ensures
        r@.len() == manifest.projects@.len(),
        forall|k: int|
            0 <= k < r@.len() ==> {
                &&& same_entry(#[trigger] r@[k].0, manifest.projects@[k])
                &&& r@[k].1@ == joined(
                    match base_dir {
                        Some(b) => b@,
                        None => manifest.base_dir@,
                    },
                    manifest.projects@[k].relative_path@,
                )
            },
{
    let base = match base_dir {
        Some(b) => String::from_str(b),
        None => manifest.base_dir.clone(),
    };
    let mut out: Vec<(ManifestEntry, String)> = Vec::new();
    let mut k: usize = 0;
    while k < manifest.projects.len()
        invariant
            k <= manifest.projects@.len(),
            out@.len() == k,
            base@ == match base_dir {
                Some(b) => b@,
                None => manifest.base_dir@,
            },
            forall|j: int|
                0 <= j < k ==> {
                    &&& same_entry(#[trigger] out@[j].0, manifest.projects@[j])
                    &&& out@[j].1@ == joined(base@, manifest.projects@[j].relative_path@)
                },
        decreases manifest.projects@.len() - k,
    {
        let entry = &manifest.projects[k];
        let target = join_path(base.as_str(), entry.relative_path.as_str());
        out.push((copy_entry(entry), target));
        k = k + 1;
    }
    out
}

/// The finished segments and the segment in progress after reading `p`.
pub open spec fn split_state(p: Seq<char>) -> (Seq<Seq<char>>, Seq<char>)
    decreases p.len(),
{
    if p.len() == 0 {
        (seq![], seq![])
    } else {
        let (done, cur) = split_state(p.drop_last());
        if p.last() == '/' {
            (if cur.len() > 0 { done.push(cur) } else { done }, seq![])
        } else {
            (done, cur.push(p.last()))
        }
    }
}

/// The non-empty texts between the slashes of `p`.
pub open spec fn segments(p: Seq<char>) -> Seq<Seq<char>> {
    let (done, cur) = split_state(p);
    if cur.len() > 0 {
        done.push(cur)
    } else {
        done
    }
}

/// The components of a path written without `.` or `..` segments: the root
/// `/` where the path starts with one, then its segments.
pub open spec fn path_components(p: Seq<char>) -> Seq<Seq<char>> {
    if p.len() > 0 && p[0] == '/' {
        seq![seq!['/']] + segments(p)
    } else {
        segments(p)
    }
}

/// The path made by pushing each component in turn onto an empty path.
pub open spec fn render(cs: Seq<Seq<char>>) -> Seq<char>
    decreases cs.len(),
{
    if cs.len() == 0 {
        seq![]
    } else {
        joined(render(cs.drop_last()), cs.last())
    }
}

/// Length of the longest common prefix of `a` and `b`.
pub open spec fn lcp(a: Seq<Seq<char>>, b: Seq<Seq<char>>) -> nat
    decreases a.len(),
{
    if a.len() == 0 || b.len() == 0 || a[0] != b[0] {
        0
    } else {
        1 + lcp(a.drop_first(), b.drop_first())
    }
}

/// Number of leading components of `first` that every path of `others`
/// shares.
pub open spec fn shared_len(first: Seq<Seq<char>>, others: Seq<Seq<Seq<char>>>) -> nat
    decreases others.len(),
{
    if others.len() == 0 {
        first.len()
    } else {
        let rest = shared_len(first, others.drop_last());
        let here = lcp(first, others.last());
        if here < rest {
            here
        } else {
            rest
        }
    }
}

/// The components that all of `paths` share, as a path; `.` where there are
/// no paths.
pub open spec fn common_prefix_of(paths: Seq<Seq<char>>) -> Seq<char> {
    if paths.len() == 0 {
        "."@
    } else {
        let first = path_components(paths[0]);
        render(first.take(shared_len(first, paths.drop_first().map_values(|p: Seq<char>| path_components(p))) as int))
    }
}

/// `p` relative to the base with components `base`, where `base` is a
/// prefix of its components; else `p` itself.
pub open spec fn relative_to(p: Seq<char>, base: Seq<Seq<char>>) -> Seq<char> {
    let pc = path_components(p);
    if base.len() <= pc.len() && pc.take(base.len() as int) == base {
        render(pc.skip(base.len() as int))
    } else {
        p
    }
}

/// The components of `p`.
pub fn components_of(p: &str) -> (r: Vec<String>)
    ensures
        names_of(r@) == path_components(p@),
{
    let n = p.unicode_len();
    let mut segs: Vec<String> = Vec::new();
    let mut start: usize = 0;
    let mut k: usize = 0;
    assert(p@.take(0) =~= Seq::<char>::empty());
    while k < n
        invariant
            n == p@.len(),
            start <= k <= n,
            names_of(segs@) == split_state(p@.take(k as int)).0,
            p@.subrange(start as int, k as int) == split_state(p@.take(k as int)).1,
        decreases n - k,
    {
        assert(p@.take(k + 1).drop_last() =~= p@.take(k as int));
        assert(p@.take(k + 1).last() == p@[k as int]);
        let c = p.get_char(k);
        let ghost done = names_of(segs@);
        if c == '/' {
            if k > start {
                let seg = String::from_str(p.substring_char(start, k));
                segs.push(seg);
                assert(names_of(segs@) =~= done.push(p@.subrange(start as int, k as int)));
            }
            start = k + 1;
            assert(p@.subrange(start as int, k + 1) =~= Seq::<char>::empty());
        } else {
            assert(p@.subrange(start as int, k + 1) =~= p@.subrange(start as int, k as int).push(c));
        }
        k = k + 1;
    }
    assert(p@.take(n as int) =~= p@);
    if n > start {
        let seg = String::from_str(p.substring_char(start, n));
        segs.push(seg);
    }
    assert(names_of(segs@) =~= segments(p@));
    if n > 0 && p.get_char(0) == '/' {
        let mut out: Vec<String> = Vec::new();
        proof {
            reveal_strlit("/");
        }
        out.push(String::from_str("/"));
        let mut j: usize = 0;
        while j < segs.len()
            invariant
                j <= segs@.len(),
                out@.len() == j + 1,
                out@[0]@ == seq!['/'],
                names_of(segs@) == segments(p@),
                forall|i: int| 0 <= i < j ==> #[trigger] out@[i + 1]@ == segs@[i]@,
            decreases segs@.len() - j,
        {
            out.push(segs[j].clone());
            j = j + 1;
        }
        assert forall|i: int| 0 <= i < out@.len() implies names_of(out@)[i] == (seq![seq!['/']] + segments(p@))[i] by {
            if i > 0 {
                assert(out@[(i - 1) + 1]@ == segs@[i - 1]@);
            }
        }
        assert(names_of(out@) =~= seq![seq!['/']] + segments(p@));
        out
    } else {
        segs
    }
}

/// The path made by pushing each of `cs` in turn onto an empty path.
pub fn render_components(cs: &Vec<String>, count: usize) -> (r: String)
    requires
        count <= cs@.len(),
    ensures
        r@ == render(names_of(cs@).take(count as int)),
{
    let mut r = String::new();
    let mut k: usize = 0;
    assert(names_of(cs@).take(0) =~= Seq::<Seq<char>>::empty());
    while k < count
        invariant
            k <= count <= cs@.len(),
            r@ == render(names_of(cs@).take(k as int)),
        decreases count - k,
    {
        assert(names_of(cs@).take(k + 1).drop_last() =~= names_of(cs@).take(k as int));
        r = join_path(r.as_str(), cs[k].as_str());
        k = k + 1;
    }
    r
}

fn common_len(a: &Vec<String>, b: &Vec<String>) -> (r: usize)
    ensures
        r == lcp(names_of(a@), names_of(b@)),
        r <= a@.len(),
{
    let mut k: usize = 0;
    assert(names_of(a@).skip(0) =~= names_of(a@));
    assert(names_of(b@).skip(0) =~= names_of(b@));
    while k < a.len() && k < b.len() && a[k] == b[k]
        invariant
            k <= a@.len(),
            k <= b@.len(),
            lcp(names_of(a@), names_of(b@)) == k + lcp(names_of(a@).skip(k as int), names_of(b@).skip(k as int)),
        decreases a@.len() - k,
    {
        assert(names_of(a@).skip(k as int).drop_first() =~= names_of(a@).skip(k + 1));
        assert(names_of(b@).skip(k as int).drop_first() =~= names_of(b@).skip(k + 1));
        k = k + 1;
    }
    k
}

/// The path that all of `paths` share, component by component; `.` where
/// there are no paths.
pub fn common_prefix(paths: &[String]) -> (r: String)
    ensures
        r@ == common_prefix_of(paths@.map_values(|p: String| p@)),
{
    let ghost all = paths@.map_values(|p: String| p@);
    if paths.len() == 0 {
        return String::from_str(".");
    }
    let first = components_of(paths[0].as_str());
    let ghost fc = names_of(first@);
    let ghost others = all.drop_first().map_values(|p: Seq<char>| path_components(p));
    let mut len: usize = first.len();
    let mut k: usize = 1;
    assert(others.take(0) =~= Seq::<Seq<Seq<char>>>::empty());
    while k < paths.len()
        invariant
            1 <= k <= paths@.len(),
            all == paths@.map_values(|p: String| p@),
            fc == names_of(first@),
            others == all.drop_first().map_values(|p: Seq<char>| path_components(p)),
            len == shared_len(fc, others.take(k - 1)),
            len <= first@.len(),
        decreases paths@.len() - k,
    {
        let other = components_of(paths[k].as_str());
        assert(others[k - 1] == names_of(other@));
        assert(others.take(k as int).drop_last() =~= others.take(k - 1));
        let shared = common_len(&first, &other);
        if shared < len {
            len = shared;
        }
        k = k + 1;
    }
    assert(others.take(k - 1) =~= others);
    render_components(&first, len)
}

/// The manifest of `projects`: each path relative to `base_dir` if given,
/// else to the path all projects share, with the project's `origin` remote
/// (`remotes[i]` for project `i`) and its tags.
pub fn export(projects: &[Project], base_dir: Option<&str>, remotes: &Vec<Option<String>>) -> (r: Manifest)
    requires
        remotes@.len() == projects@.len(),
    ensures
        r.version == 1,
        base_dir matches Some(b) ==> r.base_dir@ == b@,
        base_dir is None ==> r.base_dir@ == common_prefix_of(projects@.map_values(|p: Project| p.path@)),
        r.projects@.len() == projects@.len(),
        forall|k: int|
            0 <= k < r.projects@.len() ==> {
                &&& #[trigger] r.projects@[k].name@ == projects@[k].name@
                &&& r.projects@[k].relative_path@ == relative_to(projects@[k].path@, path_components(r.base_dir@))
                &&& r.projects@[k].remote_url == remotes@[k]
                &&& names_of(r.projects@[k].tags@) == names_of(projects@[k].tags@)
            },
{
    let mut paths: Vec<String> = Vec::new();
    let mut k: usize = 0;
    while k < projects.len()
        invariant
            k <= projects@.len(),
            paths@.len() == k,
            forall|j: int| 0 <= j < k ==> #[trigger] paths@[j]@ == projects@[j].path@,
        decreases projects@.len() - k,
    {
        paths.push(projects[k].path.clone());
        k = k + 1;
    }
    assert(paths@.map_values(|p: String| p@) =~= projects@.map_values(|p: Project| p.path@));
    let base = match base_dir {
        Some(b) => String::from_str(b),
        None => common_prefix(paths.as_slice()),
    };
    let base_comps = components_of(base.as_str());
    let mut entries: Vec<ManifestEntry> = Vec::new();
    let mut k: usize = 0;
    while k < projects.len()
        invariant
            k <= projects@.len(),
            remotes@.len() == projects@.len(),
            names_of(base_comps@) == path_components(base@),
            entries@.len() == k,
            forall|j: int|
                0 <= j < k ==> {
                    &&& #[trigger] entries@[j].name@ == projects@[j].name@
                    &&& entries@[j].relative_path@ == relative_to(projects@[j].path@, path_components(base@))
                    &&& entries@[j].remote_url == remotes@[j]
                    &&& names_of(entries@[j].tags@) == names_of(projects@[j].tags@)
                },
        decreases projects@.len() - k,
    {
        let p = &projects[k];
        let relative_path = relative_path_of(p.path.as_str(), &base_comps);
        let remote_url = match &remotes[k] {
            Some(u) => Some(u.clone()),
            None => None,
        };
        entries.push(ManifestEntry {
            name: p.name.clone(),
            relative_path,
            remote_url,
            tags: slice_to_vec_names(p.tags.as_slice()),
        });
        k = k + 1;
    }
    Manifest { version: 1, base_dir: base, projects: entries }
}

fn relative_path_of(p: &str, base: &Vec<String>) -> (r: String)
    ensures
        r@ == relative_to(p@, names_of(base@)),
{
    let pc = components_of(p);
    let ghost b = names_of(base@);
    let ghost c = names_of(pc@);
    if base.len() > pc.len() {
        return String::from_str(p);
    }
    let mut k: usize = 0;
    while k < base.len()
        invariant
            k <= base@.len() <= pc@.len(),
            b == names_of(base@),
            c == names_of(pc@),
            c == path_components(p@),
            forall|j: int| 0 <= j < k ==> c[j] == b[j],
        decreases base@.len() - k,
    {
        if !(pc[k] == base[k]) {
            proof {
                assert(c[k as int] == pc@[k as int]@);
                assert(b[k as int] == base@[k as int]@);
                assert(c.take(b.len() as int)[k as int] != b[k as int]);
                assert(c.take(b.len() as int) != b);
                assert(c == path_components(p@));
            }
            return String::from_str(p);
        }
        k = k + 1;
    }
    assert(c.take(b.len() as int) =~= b);
    let mut rest: Vec<String> = Vec::new();
    let mut j: usize = base.len();
    while j < pc.len()
        invariant
            base@.len() <= j <= pc@.len(),
            c == names_of(pc@),
            rest@.len() == j - base@.len(),
            forall|i: int| 0 <= i < rest@.len() ==> #[trigger] rest@[i]@ == c[base@.len() + i],
        decreases pc@.len() - j,
    {
        rest.push(pc[j].clone());
        j = j + 1;
    }
    assert(names_of(rest@) =~= c.skip(b.len() as int));
    let r = render_components(&rest, rest.len());
    assert(names_of(rest@).take(rest@.len() as int) =~= names_of(rest@));
    assert(c == path_components(p@));
    assert(b.len() <= c.len() && c.take(b.len() as int) == b);
    assert(r@ == render(c.skip(b.len() as int)));
    r
}

} // verus!
