use prj::clean::preview_clean;
use prj::clone::determine_clone_dest;
use prj::config::{default_scan_depth, default_shell_cmd, join_path, Config};
use prj::manifest::{common_prefix, components_of, export, import_targets, Manifest, ManifestEntry};
use prj::registry::{Project, Timestamp};
use prj::storage::{Project as StoredProject, ProjectStorage, ProjectType};
use prj::registry::PrjError;
use prj::shell::{generate_bash, generate_init, generate_powershell, generate_zsh};
use prj::tags::str_lt;

fn strings(v: &[&str]) -> Vec<String> {
    v.iter().map(|s| s.to_string()).collect()
}

#[test]
fn join_path_cases() {
    assert_eq!(join_path("/a/b", "c"), "/a/b/c");
    assert_eq!(join_path("/a/b/", "c"), "/a/b/c");
    assert_eq!(join_path("", "c"), "c");
    assert_eq!(join_path("/a", "/abs"), "/abs");
    assert_eq!(join_path("a", ""), "a/");
    let std_join = std::path::Path::new("/x/y").join("z.toml");
    assert_eq!(join_path("/x/y", "z.toml"), std_join.to_str().unwrap());
}

#[test]
fn config_defaults_and_database_path() {
    let c = Config::default();
    assert_eq!(c.shell_cmd, "prjp");
    assert_eq!(c.scan_depth, 3);
    assert!(c.database_path.is_none());
    assert_eq!(default_shell_cmd(), "prjp");
    assert_eq!(default_scan_depth(), 3);
    assert_eq!(c.database_path_in("/data/prj"), "/data/prj/projects.toml");
    let custom = Config {
        shell_cmd: "p".to_string(),
        scan_depth: 1,
        database_path: Some("/etc/db.toml".to_string()),
    };
    assert_eq!(custom.database_path_in("/data/prj"), "/etc/db.toml");
    assert_eq!(custom.database_path(), Some("/etc/db.toml".to_string()));
}

#[test]
fn shell_scripts() {
    let z = generate_zsh("pj");
    assert!(z.starts_with("function pj() {\n    local result\n"));
    assert!(z.ends_with("    fi\n}\n"));
    assert_eq!(generate_bash("pj"), z);
    let p = generate_powershell("pj");
    assert_eq!(
        p,
        "function pj {\n    $result = & prj @args 2>$null\n    if ($result) {\n        Set-Location -Path $result\n    }\n}\n"
    );
    assert_eq!(generate_init("zsh", "pj"), Ok(z.clone()));
    assert_eq!(generate_init("pwsh", "pj"), Ok(p.clone()));
    assert_eq!(generate_init("powershell", "pj"), Ok(p));
    assert_eq!(
        generate_init("fish", "pj"),
        Err("unsupported shell: fish (supported: zsh, bash, powershell)".to_string())
    );
}

#[test]
fn clone_destination() {
    let r = determine_clone_dest(&strings(&["--depth", "1", "https://host/user/repo.git"]), "/cwd");
    assert_eq!(r.unwrap(), "https://host/user/repo.git");
    let r = determine_clone_dest(&strings(&["--depth=1", "https://host/user/repo.git"]), "/cwd");
    assert_eq!(r.unwrap(), "/cwd/repo");
    let r = determine_clone_dest(&strings(&["https://host/u/tool.git.git"]), "/cwd");
    assert_eq!(r.unwrap(), "/cwd/tool");
    let r = determine_clone_dest(&strings(&["url", "dest/dir"]), "/cwd");
    assert_eq!(r.unwrap(), "dest/dir");
    assert!(matches!(
        determine_clone_dest(&strings(&["-q"]), "/cwd"),
        Err(PrjError::CloneDestUnknown(ref m)) if m == "no URL provided"
    ));
    assert!(matches!(
        determine_clone_dest(&strings(&["https://host/x/.git"]), "/cwd"),
        Err(PrjError::CloneDestUnknown(ref m)) if m == "https://host/x/.git"
    ));
}

#[test]
fn import_target_paths() {
    let m = Manifest {
        version: 1,
        base_dir: "/old/base".to_string(),
        projects: vec![
            ManifestEntry {
                name: "a".to_string(),
                relative_path: "code/a".to_string(),
                remote_url: Some("git@h:a.git".to_string()),
                tags: strings(&["t"]),
            },
            ManifestEntry {
                name: "b".to_string(),
                relative_path: "/abs/b".to_string(),
                remote_url: None,
                tags: Vec::new(),
            },
        ],
    };
    let t = import_targets(&m, None);
    assert_eq!(t[0].1, "/old/base/code/a");
    assert_eq!(t[0].0.name, "a");
    assert_eq!(t[0].0.remote_url.as_deref(), Some("git@h:a.git"));
    assert_eq!(t[0].0.tags, strings(&["t"]));
    assert_eq!(t[1].1, "/abs/b");
    let t = import_targets(&m, Some("/new"));
    assert_eq!(t[0].1, "/new/code/a");
}

#[test]
fn clean_preview_sums_existing() {
    let p = preview_clean(&strings(&["target", "dist", "build"]), &vec![Some(10), None, Some(5)]);
    assert_eq!(p.total_bytes, 15);
    assert_eq!(p.dirs, vec![("target".to_string(), 10), ("build".to_string(), 5)]);
    let empty = preview_clean(&[], &vec![]);
    assert_eq!(empty.total_bytes, 0);
    assert!(empty.dirs.is_empty());
}

#[test]
fn name_order() {
    assert!(str_lt("a", "b"));
    assert!(str_lt("B", "a"));
    assert!(str_lt("ab", "abc"));
    assert!(!str_lt("abc", "ab"));
    assert!(!str_lt("x", "x"));
    assert!(str_lt("", "a"));
    assert_eq!(str_lt("é", "z"), "é" < "z");
    assert_eq!(str_lt("z", "é"), "z" < "é");
}

#[test]
fn path_components_and_prefix() {
    assert_eq!(components_of("/a/b//c/"), strings(&["/", "a", "b", "c"]));
    assert_eq!(components_of("rel/x"), strings(&["rel", "x"]));
    assert!(components_of("").is_empty());
    assert_eq!(common_prefix(&strings(&["/home/u/a", "/home/u/b/c", "/home/u/a/d"])), "/home/u");
    assert_eq!(common_prefix(&strings(&["/x/y"])), "/x/y");
    assert_eq!(common_prefix(&strings(&["/x/y", "/z"])), "/");
    assert_eq!(common_prefix(&[]), ".");
}

#[test]
fn export_relative_paths() {
    let mk = |name: &str, path: &str, tags: &[&str]| Project {
        name: name.to_string(),
        path: path.to_string(),
        vcs: Vec::new(),
        build_systems: Vec::new(),
        artifact_dirs: Vec::new(),
        added_at: Timestamp { secs: 1, nanos: 2 },
        tags: strings(tags),
    };
    let ps = vec![mk("a", "/w/code/a", &["x"]), mk("b", "/w/code/sub/b", &[])];
    let m = export(&ps, None, &vec![Some("git@h:a.git".to_string()), None]);
    assert_eq!(m.version, 1);
    assert_eq!(m.base_dir, "/w/code");
    assert_eq!(m.projects[0].relative_path, "a");
    assert_eq!(m.projects[1].relative_path, "sub/b");
    assert_eq!(m.projects[0].remote_url.as_deref(), Some("git@h:a.git"));
    assert_eq!(m.projects[0].tags, strings(&["x"]));
    let m = export(&ps, Some("/elsewhere"), &vec![None, None]);
    assert_eq!(m.base_dir, "/elsewhere");
    assert_eq!(m.projects[0].relative_path, "/w/code/a");
    let round = import_targets(&export(&ps, None, &vec![None, None]), None);
    assert_eq!(round[1].1, "/w/code/sub/b");
}

#[test]
fn storage_remove_and_lookup() {
    let mut s = ProjectStorage::new();
    for (n, p) in [("a", "/a"), ("b", "/b"), ("c", "/c")] {
        s.add_project(StoredProject { name: n.to_string(), project_type: ProjectType::Other, path: p.to_string() });
    }
    assert_eq!(s.get_project_path("b").as_deref(), Some("/b"));
    assert!(s.get_project_path("z").is_none());
    s.remove_project(Some("a"), Some("/c"));
    let left: Vec<&str> = s.projects.iter().map(|p| p.name.as_str()).collect();
    assert_eq!(left, vec!["b"]);
    s.remove_project(None, None);
    assert_eq!(s.projects.len(), 1);
}
