use prj::detect::{BuildSystem, VcsType};
use prj::registry::{PrjError, Project, ProjectDatabase, ResolvedPath, Timestamp};

fn project(name: &str, path: &str) -> Project {
    Project {
        name: name.to_string(),
        path: path.to_string(),
        vcs: Vec::new(),
        build_systems: Vec::new(),
        artifact_dirs: Vec::new(),
        added_at: Timestamp { secs: 0, nanos: 0 },
        tags: Vec::new(),
    }
}

fn resolved(path: &str, present: &[&str]) -> ResolvedPath {
    ResolvedPath {
        requested: path.to_string(),
        canonical: Some(path.to_string()),
        is_dir: true,
        present: present.iter().map(|s| s.to_string()).collect(),
    }
}

fn names(db: &ProjectDatabase) -> Vec<String> {
    db.projects.iter().map(|p| p.name.clone()).collect()
}

fn strings(v: &[&str]) -> Vec<String> {
    v.iter().map(|s| s.to_string()).collect()
}

#[test]
fn add_rejects_duplicate_path() {
    let mut db = ProjectDatabase::new();
    assert!(db.add(project("a", "/x/a")).is_ok());
    let r = db.add(project("other", "/x/a"));
    assert!(matches!(r, Err(PrjError::ProjectAlreadyExists(ref p)) if p == "/x/a"));
    assert_eq!(names(&db), vec!["a"]);
}

#[test]
fn register_twice_fails_and_keeps_registry() {
    let mut db = ProjectDatabase::new();
    let target = resolved("/work/A", &["Cargo.toml", ".git"]);
    assert!(db.register(&target, None).is_ok());
    let r = db.register(&target, Some("again"));
    assert!(matches!(r, Err(PrjError::ProjectAlreadyExists(ref p)) if p == "/work/A"));
    assert_eq!(names(&db), vec!["A"]);
}

#[test]
fn register_path_errors() {
    let mut db = ProjectDatabase::new();
    let missing = ResolvedPath {
        requested: "nowhere".to_string(),
        canonical: None,
        is_dir: false,
        present: Vec::new(),
    };
    assert!(matches!(db.register(&missing, None), Err(PrjError::PathNotFound(ref p)) if p == "nowhere"));
    let file = ResolvedPath {
        requested: "f".to_string(),
        canonical: Some("/tmp/f".to_string()),
        is_dir: false,
        present: Vec::new(),
    };
    assert!(matches!(db.register(&file, None), Err(PrjError::NotADirectory(ref p)) if p == "/tmp/f"));
    assert!(db.projects.is_empty());
}

#[test]
fn register_names() {
    let mut db = ProjectDatabase::new();
    let p = db.register(&resolved("/home/u/code/tool", &[]), None).unwrap();
    assert_eq!(p.name, "tool");
    let p = db.register(&resolved("/", &[]), None).unwrap();
    assert_eq!(p.name, "unknown");
    let p = db.register(&resolved("/srv/x", &[]), Some("custom")).unwrap();
    assert_eq!(p.name, "custom");
    assert!(p.tags.is_empty());
}

#[test]
fn end_to_end_register_remove_orphans() {
    let mut db = ProjectDatabase::new();
    let p = db.register(&resolved("/work/A", &["Cargo.toml", ".git"]), None).unwrap();
    assert_eq!(p.path, "/work/A");
    let a = db.find("A").unwrap();
    assert!(a.build_systems.contains(&BuildSystem::Cargo));
    assert!(a.vcs.contains(&VcsType::Git));
    assert!(a.artifact_dirs.contains(&"target".to_string()));

    let removed = db.remove("A").unwrap();
    assert_eq!(removed.name, "A");
    assert!(db.find("A").is_none());
    assert!(matches!(db.remove("A"), Err(PrjError::ProjectNotFound(ref n)) if n == "A"));

    db.register(&resolved("/work/A", &["Cargo.toml", ".git"]), None).unwrap();
    let orphans = db.find_orphaned(&vec![false]);
    assert_eq!(orphans.len(), 1);
    assert_eq!(orphans[0].name, "A");
    let gone = db.remove_orphaned(&vec![false]);
    assert_eq!(gone.len(), 1);
    assert_eq!(gone[0].name, "A");
    assert!(db.projects.is_empty());
}

#[test]
fn remove_keeps_order() {
    let mut db = ProjectDatabase::new();
    for (n, p) in [("a", "/a"), ("b", "/b"), ("c", "/c"), ("b", "/b2")] {
        db.add(project(n, p)).unwrap();
    }
    let r = db.remove("b").unwrap();
    assert_eq!(r.path, "/b");
    assert_eq!(names(&db), vec!["a", "c", "b"]);
}

#[test]
fn remove_orphaned_keeps_order() {
    let mut db = ProjectDatabase::new();
    for (n, p) in [("a", "/a"), ("b", "/b"), ("c", "/c"), ("d", "/d")] {
        db.add(project(n, p)).unwrap();
    }
    let alive = vec![true, false, true, false];
    let found: Vec<String> = db.find_orphaned(&alive).iter().map(|p| p.name.clone()).collect();
    assert_eq!(found, vec!["b", "d"]);
    let gone: Vec<String> = db.remove_orphaned(&alive).into_iter().map(|p| p.name).collect();
    assert_eq!(gone, vec!["b", "d"]);
    assert_eq!(names(&db), vec!["a", "c"]);
}

#[test]
fn add_tags_idempotent_and_sorted() {
    let mut db = ProjectDatabase::new();
    db.add(project("a", "/a")).unwrap();
    db.add_tags("a", &strings(&["zeta", "alpha"])).unwrap();
    db.add_tags("a", &strings(&["x"])).unwrap();
    let once = db.find("a").unwrap().tags.clone();
    db.add_tags("a", &strings(&["x"])).unwrap();
    assert_eq!(db.find("a").unwrap().tags, once);
    assert_eq!(once, strings(&["alpha", "x", "zeta"]));
}

#[test]
fn add_tags_sorts_existing_and_unknown_project() {
    let mut db = ProjectDatabase::new();
    let mut p = project("a", "/a");
    p.tags = strings(&["b", "B", "a"]);
    db.add(p).unwrap();
    db.add_tags("a", &strings(&["a", "Ab"])).unwrap();
    assert_eq!(db.find("a").unwrap().tags, strings(&["Ab", "B", "a", "b"]));
    assert!(matches!(db.add_tags("zz", &strings(&["x"])), Err(PrjError::ProjectNotFound(ref n)) if n == "zz"));
}

#[test]
fn remove_tags_drops_listed() {
    let mut db = ProjectDatabase::new();
    db.add(project("a", "/a")).unwrap();
    db.add_tags("a", &strings(&["one", "two", "three"])).unwrap();
    db.remove_tags("a", &strings(&["two", "absent"])).unwrap();
    assert_eq!(db.find("a").unwrap().tags, strings(&["one", "three"]));
    assert!(db.remove_tags("b", &strings(&["one"])).is_err());
}

#[test]
fn select_targets_variants() {
    let mut db = ProjectDatabase::new();
    db.add(project("a", "/a")).unwrap();
    db.add(project("b", "/b")).unwrap();
    db.add_tags("b", &strings(&["web"])).unwrap();
    let one = db.select_targets(Some("a"), Some("web"), true).unwrap();
    assert_eq!(one.len(), 1);
    assert_eq!(one[0].name, "a");
    assert!(matches!(db.select_targets(Some("q"), None, false), Err(PrjError::ProjectNotFound(_))));
    let web = db.select_targets(None, Some("web"), false).unwrap();
    assert_eq!(web.len(), 1);
    assert_eq!(web[0].name, "b");
    assert!(db.select_targets(None, Some("none"), true).unwrap().is_empty());
    assert_eq!(db.select_targets(None, None, true).unwrap().len(), 2);
    assert!(matches!(db.select_targets(None, None, false), Err(PrjError::NoTargetProjects)));
}

#[test]
fn retain_tagged_filters_in_order() {
    let mut db = ProjectDatabase::new();
    for (n, p) in [("a", "/a"), ("b", "/b"), ("c", "/c")] {
        db.add(project(n, p)).unwrap();
    }
    db.add_tags("c", &strings(&["t"])).unwrap();
    db.add_tags("a", &strings(&["t", "u"])).unwrap();
    db.retain_tagged("t");
    assert_eq!(names(&db), vec!["a", "c"]);
}
