use prj::detect::{
    detect_project, is_artifact_dir_name, is_project, probe_names, should_descend, BuildSystem,
    VcsType,
};
use prj::store::ProjectType;

fn names(v: &[&str]) -> Vec<String> {
    v.iter().map(|s| s.to_string()).collect()
}

#[test]
fn detect_cargo_and_git() {
    let r = detect_project(&names(&["Cargo.toml", ".git", "README.md"]));
    assert_eq!(r.vcs, vec![VcsType::Git]);
    assert_eq!(r.build_systems, vec![BuildSystem::Cargo]);
    assert_eq!(r.artifact_dirs, vec!["target".to_string()]);
    assert!(is_project(&names(&["Cargo.toml"])));
}

#[test]
fn detect_nothing_is_empty() {
    let r = detect_project(&names(&["README.md", "src"]));
    assert!(r.vcs.is_empty());
    assert!(r.build_systems.is_empty());
    assert!(r.artifact_dirs.is_empty());
    assert!(!is_project(&names(&["README.md"])));
    assert!(!is_project(&Vec::new()));
}

#[test]
fn detect_gradle_variants_once() {
    let r = detect_project(&names(&["build.gradle.kts", "build.gradle"]));
    assert_eq!(r.build_systems, vec![BuildSystem::Gradle]);
    assert_eq!(r.artifact_dirs, names(&["build", ".gradle"]));
}

#[test]
fn detect_shared_artifacts_deduplicated() {
    let r = detect_project(&names(&["CMakeLists.txt", "package.json", "pyproject.toml"]));
    assert_eq!(r.build_systems, vec![BuildSystem::Npm, BuildSystem::CMake, BuildSystem::Python]);
    assert_eq!(
        r.artifact_dirs,
        names(&["node_modules", "dist", "build", "__pycache__", ".venv"])
    );
}

#[test]
fn detect_git_only_is_project() {
    assert!(is_project(&names(&[".git"])));
    let r = detect_project(&names(&[".git"]));
    assert_eq!(r.vcs, vec![VcsType::Git]);
    assert!(r.build_systems.is_empty());
}

#[test]
fn probe_names_cover_table() {
    let p = probe_names();
    assert_eq!(p.len(), 12);
    assert_eq!(p[0], ".git");
    assert_eq!(p[1], "Cargo.toml");
    assert_eq!(p[11], "meson.build");
}

#[test]
fn descend_filter() {
    assert!(should_descend(0, true, ".hidden"));
    assert!(should_descend(0, false, "target"));
    assert!(!should_descend(1, false, "src"));
    assert!(!should_descend(1, true, "target"));
    assert!(!should_descend(2, true, "node_modules"));
    assert!(!should_descend(1, true, ".git"));
    assert!(!should_descend(1, true, ".cache"));
    assert!(should_descend(1, true, "src"));
    assert!(is_artifact_dir_name("builddir"));
    assert!(!is_artifact_dir_name("source"));
}

#[test]
fn names_of_systems() {
    assert_eq!(BuildSystem::CMake.name(), "CMake");
    assert_eq!(BuildSystem::Meson.name(), "Meson");
    assert_eq!(VcsType::Git.name(), "Git");
}

#[test]
fn autodetect_kinds() {
    let kinds = ProjectType::autodetect(&names(&["Makefile", "Cargo.toml"]));
    assert_eq!(kinds, vec![ProjectType::Cargo, ProjectType::Makefile]);
    assert!(ProjectType::autodetect(&names(&["go.mod"])).is_empty());
}
