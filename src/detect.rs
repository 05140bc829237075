//! Project detection: the marker table, the classification of a directory
//! from the names of the entries found in it, and the filter a scan applies
//! before descending into an entry.
use vstd::prelude::*;

verus! {

/// Version control systems that can be detected.
#[derive(Debug, Clone, Copy, PartialEq, Eq, Structural)]
pub enum VcsType {
    Git,
}

/// Build systems detected by the presence of their marker files.
#[derive(Debug, Clone, Copy, PartialEq, Eq, Structural)]
pub enum BuildSystem {
    Cargo,
    Npm,
    CMake,
    Go,
    Python,
    Zig,
    Make,
    Gradle,
    Maven,
    Meson,
}

impl VcsType {
    /// The display name of the version control system.
    pub fn name(&self) -> (r: &'static str)
        ensures
            r@ == vcs_name(*self),
    {
        match self {
            VcsType::Git => "Git",
        }
    }
}

pub open spec fn vcs_name(v: VcsType) -> Seq<char> {
    match v {
        VcsType::Git => "Git"@,
    }
}

impl BuildSystem {
    /// The display name of the build system.
    pub fn name(&self) -> (r: &'static str)
        ensures
            r@ == build_system_name(*self),
    {
        match self {
            BuildSystem::Cargo => "Cargo",
            BuildSystem::Npm => "Npm",
            BuildSystem::CMake => "CMake",
            BuildSystem::Go => "Go",
            BuildSystem::Python => "Python",
            BuildSystem::Zig => "Zig",
            BuildSystem::Make => "Make",
            BuildSystem::Gradle => "Gradle",
            BuildSystem::Maven => "Maven",
            BuildSystem::Meson => "Meson",
        }
    }
}

pub open spec fn build_system_name(b: BuildSystem) -> Seq<char> {
    match b {
        BuildSystem::Cargo => "Cargo"@,
        BuildSystem::Npm => "Npm"@,
        BuildSystem::CMake => "CMake"@,
        BuildSystem::Go => "Go"@,
        BuildSystem::Python => "Python"@,
        BuildSystem::Zig => "Zig"@,
        BuildSystem::Make => "Make"@,
        BuildSystem::Gradle => "Gradle"@,
        BuildSystem::Maven => "Maven"@,
        BuildSystem::Meson => "Meson"@,
    }
}

/// The number of rules in the marker table.
pub const MARKER_COUNT: usize = 11;

/// The name of the version control marker directory.
pub open spec fn vcs_marker() -> Seq<char> {
    ".git"@
}

/// Marker file of rule `i` of the marker table.
pub open spec fn marker_file(i: int) -> Seq<char> {
    if i == 0 {
        "Cargo.toml"@
    } else if i == 1 {
        "package.json"@
    } else if i == 2 {
        "CMakeLists.txt"@
    } else if i == 3 {
        "go.mod"@
    } else if i == 4 {
        "pyproject.toml"@
    } else if i == 5 {
        "build.zig"@
    } else if i == 6 {
        "Makefile"@
    } else if i == 7 {
        "build.gradle"@
    } else if i == 8 {
        "build.gradle.kts"@
    } else if i == 9 {
        "pom.xml"@
    } else {
        "meson.build"@
    }
}

/// Build system named by rule `i` of the marker table.
pub open spec fn marker_system(i: int) -> BuildSystem {
    if i == 0 {
        BuildSystem::Cargo
    } else if i == 1 {
        BuildSystem::Npm
    } else if i == 2 {
        BuildSystem::CMake
    } else if i == 3 {
        BuildSystem::Go
    } else if i == 4 {
        BuildSystem::Python
    } else if i == 5 {
        BuildSystem::Zig
    } else if i == 6 {
        BuildSystem::Make
    } else if i == 7 || i == 8 {
        BuildSystem::Gradle
    } else if i == 9 {
        BuildSystem::Maven
    } else {
        BuildSystem::Meson
    }
}

/// Artifact directory names of rule `i` of the marker table.
pub open spec fn marker_artifacts(i: int) -> Seq<Seq<char>> {
    if i == 0 {
        seq!["target"@]
    } else if i == 1 {
        seq!["node_modules"@, "dist"@, "build"@]
    } else if i == 2 {
        seq!["build"@]
    } else if i == 3 {
        seq![]
    } else if i == 4 {
        seq!["__pycache__"@, ".venv"@, "dist"@]
    } else if i == 5 {
        seq!["zig-out"@, "zig-cache"@]
    } else if i == 6 {
        seq![]
    } else if i == 7 || i == 8 {
        seq!["build"@, ".gradle"@]
    } else if i == 9 {
        seq!["target"@]
    } else {
        seq!["builddir"@]
    }
}

/// The names of a vector of strings.
pub open spec fn names_of(v: Seq<String>) -> Seq<Seq<char>> {
    v.map_values(|s: String| s@)
}

/// Appends to `acc` each name of `extra` that it does not hold yet, in order.
pub open spec fn union_names(acc: Seq<Seq<char>>, extra: Seq<Seq<char>>) -> Seq<Seq<char>>
    decreases extra.len(),
{
    if extra.len() == 0 {
        acc
    } else {
        let first = extra[0];
        let next = if acc.contains(first) {
            acc
        } else {
            acc.push(first)
        };
        union_names(next, extra.drop_first())
    }
}

/// Build systems found by the first `n` rules of the marker table, each once,
/// in table order.
pub open spec fn systems_upto(present: Seq<Seq<char>>, n: int) -> Seq<BuildSystem>
    decreases n,
{
    if n <= 0 {
        seq![]
    } else {
        let acc = systems_upto(present, n - 1);
        if present.contains(marker_file(n - 1)) && !acc.contains(marker_system(n - 1)) {
            acc.push(marker_system(n - 1))
        } else {
            acc
        }
    }
}

/// Artifact directory names of the first `n` rules whose marker is present,
/// each once, in table order.
pub open spec fn artifacts_upto(present: Seq<Seq<char>>, n: int) -> Seq<Seq<char>>
    decreases n,
{
    if n <= 0 {
        seq![]
    } else {
        let acc = artifacts_upto(present, n - 1);
        if present.contains(marker_file(n - 1)) {
            union_names(acc, marker_artifacts(n - 1))
        } else {
            acc
        }
    }
}

/// Version control systems found among the present names.
pub open spec fn vcs_of(present: Seq<Seq<char>>) -> Seq<VcsType> {
    if present.contains(vcs_marker()) {
        seq![VcsType::Git]
    } else {
        seq![]
    }
}

/// Whether a directory holding the entries `present` is a project root.
pub open spec fn is_project_root(present: Seq<Seq<char>>) -> bool {
    present.contains(vcs_marker()) || exists|i: int|
        0 <= i < MARKER_COUNT && #[trigger] present.contains(marker_file(i))
}

/// Result of classifying a directory by its markers.
pub struct DetectionResult {
    pub vcs: Vec<VcsType>,
    pub build_systems: Vec<BuildSystem>,
    pub artifact_dirs: Vec<String>,
}

fn marker_file_exec(i: usize) -> (r: &'static str)
    requires
        i < MARKER_COUNT,
    ensures
        r@ == marker_file(i as int),
{
    match i {
        0 => "Cargo.toml",
        1 => "package.json",
        2 => "CMakeLists.txt",
        3 => "go.mod",
        4 => "pyproject.toml",
        5 => "build.zig",
        6 => "Makefile",
        7 => "build.gradle",
        8 => "build.gradle.kts",
        9 => "pom.xml",
        _ => "meson.build",
    }
}

fn marker_system_exec(i: usize) -> (r: BuildSystem)
    requires
        i < MARKER_COUNT,
    ensures
        r == marker_system(i as int),
{
    match i {
        0 => BuildSystem::Cargo,
        1 => BuildSystem::Npm,
        2 => BuildSystem::CMake,
        3 => BuildSystem::Go,
        4 => BuildSystem::Python,
        5 => BuildSystem::Zig,
        6 => BuildSystem::Make,
        7 | 8 => BuildSystem::Gradle,
        9 => BuildSystem::Maven,
        _ => BuildSystem::Meson,
    }
}

fn strings_of(lits: &[&'static str]) -> (r: Vec<String>)
    ensures
        names_of(r@) == lits@.map_values(|s: &str| s@),
{
    let mut r: Vec<String> = Vec::new();
    let mut k: usize = 0;
    while k < lits.len()
        invariant
            k <= lits@.len(),
            r@.len() == k,
            forall|j: int| 0 <= j < k ==> r@[j]@ == lits@[j]@,
        decreases lits@.len() - k,
    {
        r.push(String::from_str(lits[k]));
        k = k + 1;
    }
    assert(names_of(r@) =~= lits@.map_values(|s: &str| s@));
    r
}

fn marker_artifacts_exec(i: usize) -> (r: Vec<String>)
    requires
        i < MARKER_COUNT,
    ensures
        names_of(r@) == marker_artifacts(i as int),
{
    let lits: &[&'static str] = match i {
        0 => &["target"],
        1 => &["node_modules", "dist", "build"],
        2 => &["build"],
        3 => &[],
        4 => &["__pycache__", ".venv", "dist"],
        5 => &["zig-out", "zig-cache"],
        6 => &[],
        7 | 8 => &["build", ".gradle"],
        9 => &["target"],
        _ => &["builddir"],
    };
    strings_of(lits)
}

/// Whether `names` holds a string equal to `lit`.
pub fn contains_name(names: &Vec<String>, lit: &str) -> (r: bool)
    ensures
        r == names_of(names@).contains(lit@),
{
    let target = String::from_str(lit);
    let mut k: usize = 0;
    while k < names.len()
        invariant
            k <= names@.len(),
            target@ == lit@,
            forall|j: int| 0 <= j < k ==> names@[j]@ != lit@,
        decreases names@.len() - k,
    {
        if names[k] == target {
            assert(names_of(names@)[k as int] == lit@);
            return true;
        }
        k = k + 1;
    }
    proof {
        if names_of(names@).contains(lit@) {
            let j = choose|j: int| 0 <= j < names_of(names@).len() && names_of(names@)[j] == lit@;
            assert(names@[j]@ == lit@);
        }
    }
    false
}

fn contains_system(v: &Vec<BuildSystem>, b: BuildSystem) -> (r: bool)
    ensures
        r == v@.contains(b),
{
    let mut k: usize = 0;
    while k < v.len()
        invariant
            k <= v@.len(),
            forall|j: int| 0 <= j < k ==> v@[j] != b,
        decreases v@.len() - k,
    {
        if v[k] == b {
            return true;
        }
        k = k + 1;
    }
    false
}

/// Appends to `acc` each name of `extra` that it does not hold yet.
fn union_into(acc: &mut Vec<String>, extra: &Vec<String>)
    ensures
        names_of(final(acc)@) == union_names(names_of(old(acc)@), names_of(extra@)),
{
    let ghost start = names_of(acc@);
    let mut k: usize = 0;
    assert(names_of(extra@).skip(0) =~= names_of(extra@));
    while k < extra.len()
        invariant
            k <= extra@.len(),
            union_names(names_of(acc@), names_of(extra@).skip(k as int)) == union_names(
                start,
                names_of(extra@),
            ),
        decreases extra@.len() - k,
    {
        let ghost before = names_of(acc@);
        let item = &extra[k];
        if !contains_name(acc, item.as_str()) {
            acc.push(item.clone());
            assert(names_of(acc@) =~= before.push(item@));
        } else {
            assert(names_of(acc@) =~= before);
        }
        assert(names_of(extra@).skip(k as int).drop_first() =~= names_of(extra@).skip(k + 1));
        k = k + 1;
    }
    assert(names_of(extra@).skip(k as int) =~= Seq::<Seq<char>>::empty());
}

/// Classifies a directory from the names of the entries present directly
/// under it: the version control marker gives `Git`; each marker-table rule
/// whose marker file is present adds its build system and its artifact
/// directory names, each at most once, in table order.
pub fn detect_project(present: &Vec<String>) -> (r: DetectionResult)
    ensures
        r.vcs@ == vcs_of(names_of(present@)),
        r.build_systems@ == systems_upto(names_of(present@), MARKER_COUNT as int),
        names_of(r.artifact_dirs@) == artifacts_upto(names_of(present@), MARKER_COUNT as int),
{
    let ghost p = names_of(present@);
    let mut vcs: Vec<VcsType> = Vec::new();
    let mut build_systems: Vec<BuildSystem> = Vec::new();
    let mut artifact_dirs: Vec<String> = Vec::new();
    if contains_name(present, ".git") {
        vcs.push(VcsType::Git);
    }
    assert(vcs@ =~= vcs_of(p));
    let mut i: usize = 0;
    while i < MARKER_COUNT
        invariant
            i <= MARKER_COUNT,
            p == names_of(present@),
            build_systems@ == systems_upto(p, i as int),
            names_of(artifact_dirs@) == artifacts_upto(p, i as int),
        decreases MARKER_COUNT - i,
    {
        if contains_name(present, marker_file_exec(i)) {
            let system = marker_system_exec(i);
            if !contains_system(&build_systems, system) {
                build_systems.push(system);
            }
            let extra = marker_artifacts_exec(i);
            union_into(&mut artifact_dirs, &extra);
        }
        i = i + 1;
    }
    DetectionResult { vcs, build_systems, artifact_dirs }
}

/// Whether a directory holding the entries `present` is a project root: the
/// version control marker or any marker file of the table is present.
pub fn is_project(present: &Vec<String>) -> (r: bool)
    ensures
        r == is_project_root(names_of(present@)),
{
    if contains_name(present, ".git") {
        return true;
    }
    let mut i: usize = 0;
    while i < MARKER_COUNT
        invariant
            i <= MARKER_COUNT,
            forall|j: int| 0 <= j < i ==> !names_of(present@).contains(#[trigger] marker_file(j)),
        decreases MARKER_COUNT - i,
    {
        if contains_name(present, marker_file_exec(i)) {
            return true;
        }
        i = i + 1;
    }
    false
}

/// The entry names whose presence under a directory classification looks
/// at: the version control marker, then each marker file of the table.
pub fn probe_names() -> (r: Vec<String>)
    ensures
        names_of(r@) == seq![vcs_marker()] + Seq::new(MARKER_COUNT as nat, |i: int| marker_file(i)),
{
    let mut r: Vec<String> = Vec::new();
    r.push(String::from_str(".git"));
    let mut i: usize = 0;
    while i < MARKER_COUNT
        invariant
            i <= MARKER_COUNT,
            r@.len() == i + 1,
            r@[0]@ == vcs_marker(),
            forall|j: int| 0 <= j < i ==> r@[j + 1]@ == marker_file(j),
        decreases MARKER_COUNT - i,
    {
        r.push(String::from_str(marker_file_exec(i)));
        i = i + 1;
    }
    assert(names_of(r@) =~= seq![vcs_marker()] + Seq::new(MARKER_COUNT as nat, |i: int| marker_file(i)));
    r
}

/// Directory names a scan never descends into: every artifact directory
/// name of the marker table, and the version control metadata directory.
pub open spec fn skipped_dir_names() -> Seq<Seq<char>> {
    seq![
        "target"@,
        "node_modules"@,
        "dist"@,
        "build"@,
        "__pycache__"@,
        ".venv"@,
        "zig-out"@,
        "zig-cache"@,
        ".gradle"@,
        "builddir"@,
        ".git"@,
    ]
}

/// Whether `name` is one of the directory names a scan never descends into.
pub fn is_artifact_dir_name(name: &str) -> (r: bool)
    ensures
        r == skipped_dir_names().contains(name@),
{
    let lits: &[&'static str] = &[
        "target",
        "node_modules",
        "dist",
        "build",
        "__pycache__",
        ".venv",
        "zig-out",
        "zig-cache",
        ".gradle",
        "builddir",
        ".git",
    ];
    let names = strings_of(lits);
    assert(lits@.map_values(|s: &str| s@) =~= skipped_dir_names());
    contains_name(&names, name)
}

/// Whether a walk should step into an entry: the walk's root always; below
/// it only directories whose name is neither a skipped directory name nor
/// starts with a dot.
pub open spec fn descends_into(depth: nat, is_dir: bool, name: Seq<char>) -> bool {
    depth == 0 || (is_dir && !skipped_dir_names().contains(name) && !(name.len() > 0 && name[0]
        == '.'))
}

/// The filter a scan applies to an entry before stepping into it.
pub fn should_descend(depth: usize, is_dir: bool, name: &str) -> (r: bool)
    ensures
        r == descends_into(depth as nat, is_dir, name@),
{
    if depth == 0 {
        return true;
    }
    if !is_dir {
        return false;
    }
    if is_artifact_dir_name(name) {
        return false;
    }
    if name.is_empty() {
        return true;
    }
    let first = name.get_char(0);
    first != '.'
}

} // verus!
