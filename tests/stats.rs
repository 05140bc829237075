use prj::stats::{
    disk_stats_from, git_status_from, loc_stats_from, overview_from, DiskStats, GitStatus,
    LangStats, LocStats, ProjectStats, CHANGED_BITS, STAGED_BITS, UNTRACKED_BITS,
};

fn lang(code: usize, comments: usize, blanks: usize, files: usize) -> LangStats {
    LangStats { code, comments, blanks, files }
}

fn stats(name: &str, code: usize, total: u64, artifacts: u64, dirty: Option<bool>) -> ProjectStats {
    ProjectStats {
        name: name.to_string(),
        git: dirty.map(|d| GitStatus {
            branch: None,
            is_dirty: d,
            changed: 0,
            staged: 0,
            untracked: 0,
            ahead: 0,
            behind: 0,
        }),
        loc: LocStats {
            languages: Vec::new(),
            total_code: code,
            total_comments: 0,
            total_blanks: 0,
            total_files: 0,
        },
        disk: DiskStats { total_bytes: total, artifact_bytes: artifacts },
    }
}

#[test]
fn status_masks_match_git() {
    let staged = git2::Status::INDEX_NEW
        | git2::Status::INDEX_MODIFIED
        | git2::Status::INDEX_DELETED
        | git2::Status::INDEX_RENAMED
        | git2::Status::INDEX_TYPECHANGE;
    let changed = git2::Status::WT_MODIFIED
        | git2::Status::WT_DELETED
        | git2::Status::WT_RENAMED
        | git2::Status::WT_TYPECHANGE;
    assert_eq!(staged.bits(), STAGED_BITS);
    assert_eq!(changed.bits(), CHANGED_BITS);
    assert_eq!(git2::Status::WT_NEW.bits(), UNTRACKED_BITS);
}

#[test]
fn git_status_counts_entries() {
    let flags = vec![
        git2::Status::INDEX_NEW.bits(),
        (git2::Status::INDEX_MODIFIED | git2::Status::WT_MODIFIED).bits(),
        git2::Status::WT_NEW.bits(),
        git2::Status::WT_NEW.bits(),
        git2::Status::IGNORED.bits(),
    ];
    let s = git_status_from(Some("main".to_string()), &flags, Some((2, 1)));
    assert_eq!(s.staged, 2);
    assert_eq!(s.changed, 1);
    assert_eq!(s.untracked, 2);
    assert!(s.is_dirty);
    assert_eq!((s.ahead, s.behind), (2, 1));
    assert_eq!(s.branch.as_deref(), Some("main"));
    let clean = git_status_from(None, &vec![git2::Status::IGNORED.bits()], None);
    assert!(!clean.is_dirty);
    assert_eq!((clean.ahead, clean.behind), (0, 0));
}

#[test]
fn loc_stats_skip_empty_languages() {
    let langs = vec![
        ("Rust".to_string(), lang(100, 10, 5, 3)),
        ("Text".to_string(), lang(0, 0, 0, 2)),
        ("Toml".to_string(), lang(7, 1, 0, 1)),
    ];
    let l = loc_stats_from(langs);
    let names: Vec<&str> = l.languages.iter().map(|(n, _)| n.as_str()).collect();
    assert_eq!(names, vec!["Rust", "Toml"]);
    assert_eq!(l.total_code, 107);
    assert_eq!(l.total_comments, 11);
    assert_eq!(l.total_blanks, 5);
    assert_eq!(l.total_files, 4);
}

#[test]
fn disk_stats_split_artifacts() {
    let files = vec![
        (Some("src".to_string()), 100u64),
        (Some("target".to_string()), 1000),
        (None, 7),
        (Some("target".to_string()), 24),
    ];
    let d = disk_stats_from(&files, &vec!["target".to_string(), "dist".to_string()]);
    assert_eq!(d, DiskStats { total_bytes: 1131, artifact_bytes: 1024 });
    assert_eq!(d.total_display(), bytesize::ByteSize(1131).to_string());
    assert_eq!(d.artifact_display(), bytesize::ByteSize(1024).to_string());
    assert_ne!(d.artifact_display(), "1024");
}

#[test]
fn overview_sums_projects() {
    let o = overview_from(vec![
        stats("a", 10, 100, 40, Some(true)),
        stats("b", 5, 50, 0, Some(false)),
        stats("c", 1, 1, 1, None),
    ]);
    assert_eq!(o.total_projects, 3);
    assert_eq!(o.total_code_lines, 16);
    assert_eq!(o.total_disk_bytes, 151);
    assert_eq!(o.total_artifact_bytes, 41);
    assert_eq!(o.dirty_projects, 1);
    assert_eq!(o.projects[2].name, "c");
}
