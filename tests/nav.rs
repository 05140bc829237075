use prj::fuzzy::FuzzyMatcher;
use prj::nav::{
    menu_items, Key, ListAction, ListCommand, ListMode, ListState, PendingAction, PickerState,
    PickerStep,
};
use prj::registry::{Project, Timestamp};
use prj::stats::{DiskStats, LocStats, ProjectStats};

fn project(name: &str, path: &str, artifacts: &[&str]) -> Project {
    Project {
        name: name.to_string(),
        path: path.to_string(),
        vcs: Vec::new(),
        build_systems: Vec::new(),
        artifact_dirs: artifacts.iter().map(|s| s.to_string()).collect(),
        added_at: Timestamp { secs: 0, nanos: 0 },
        tags: Vec::new(),
    }
}

fn strings(v: &[&str]) -> Vec<String> {
    v.iter().map(|s| s.to_string()).collect()
}

#[test]
fn confirming_remove_of_last_project_ends_list() {
    let mut projects = vec![project("only", "/only", &[])];
    let mut s = ListState::new(vec![None]);
    assert!(matches!(s.handle_key(&mut projects, Key::Enter), ListCommand::Continue));
    assert!(matches!(s.mode, ListMode::ActionMenu { menu_selected: 0 }));
    let items = menu_items(&projects[0]);
    let remove_at = items.iter().position(|i| i.action == ListAction::Remove).unwrap();
    for _ in 0..remove_at {
        s.handle_key(&mut projects, Key::Down);
    }
    assert!(matches!(s.mode, ListMode::ActionMenu { menu_selected } if menu_selected == remove_at));
    s.handle_key(&mut projects, Key::Enter);
    assert!(matches!(s.mode, ListMode::Confirming { on_confirm: PendingAction::Remove, .. }));
    let r = s.handle_key(&mut projects, Key::Char('y'));
    assert!(matches!(r, ListCommand::Persist { exit: true }));
    assert!(projects.is_empty());
    assert_eq!(s.message.as_deref(), Some("Removed: only"));
}

#[test]
fn remove_clamps_selection() {
    let mut projects = vec![project("a", "/a", &[]), project("b", "/b", &[])];
    let mut s = ListState::new(vec![None, None]);
    s.handle_key(&mut projects, Key::Down);
    assert_eq!(s.selected, 1);
    s.handle_key(&mut projects, Key::Enter);
    for _ in 0..10 {
        s.handle_key(&mut projects, Key::Char('j'));
    }
    assert!(matches!(s.mode, ListMode::ActionMenu { menu_selected: 4 }));
    s.handle_key(&mut projects, Key::Enter);
    let r = s.handle_key(&mut projects, Key::Char('Y'));
    assert!(matches!(r, ListCommand::Persist { exit: false }));
    assert_eq!(s.selected, 0);
    assert_eq!(s.git_statuses.len(), 1);
    assert_eq!(projects[0].name, "a");
    assert!(matches!(s.mode, ListMode::Browsing));
}

#[test]
fn browsing_keys() {
    let mut projects = vec![project("a", "/a", &[]), project("b", "/b", &[])];
    let mut s = ListState::new(vec![None, None]);
    s.handle_key(&mut projects, Key::Up);
    assert_eq!(s.selected, 0);
    s.handle_key(&mut projects, Key::Char('j'));
    s.handle_key(&mut projects, Key::Down);
    assert_eq!(s.selected, 1);
    s.handle_key(&mut projects, Key::Char('k'));
    assert_eq!(s.selected, 0);
    assert!(matches!(s.handle_key(&mut projects, Key::Char('x')), ListCommand::Continue));
    assert!(matches!(s.handle_key(&mut projects, Key::Char('q')), ListCommand::Exit(None)));
    assert!(matches!(s.handle_key(&mut projects, Key::Esc), ListCommand::Exit(None)));
}

#[test]
fn menu_lists_clean_only_with_artifacts() {
    let with = menu_items(&project("a", "/a", &["target"]));
    let without = menu_items(&project("b", "/b", &[]));
    let acts: Vec<ListAction> = with.iter().map(|i| i.action).collect();
    assert_eq!(
        acts,
        vec![
            ListAction::ViewStats,
            ListAction::CleanArtifacts,
            ListAction::OpenEditor,
            ListAction::OpenExplorer,
            ListAction::CdToProject,
            ListAction::Remove
        ]
    );
    assert_eq!(without.len(), 5);
    assert_eq!(with[1].label, "Clean artifacts");
    assert_eq!(without[1].label, "Open in editor");
    assert_eq!(without[4].description, "Unregister project from database");
}

#[test]
fn menu_dispatch_commands() {
    let mut projects = vec![project("a", "/p/a", &["target"])];
    let mut s = ListState::new(vec![None]);
    s.handle_key(&mut projects, Key::Enter);
    assert!(matches!(s.handle_key(&mut projects, Key::Enter), ListCommand::CollectStats));
    let stats = ProjectStats {
        name: "a".to_string(),
        git: None,
        loc: LocStats {
            languages: Vec::new(),
            total_code: 0,
            total_comments: 0,
            total_blanks: 0,
            total_files: 0,
        },
        disk: DiskStats { total_bytes: 0, artifact_bytes: 0 },
    };
    s.show_stats(stats);
    assert!(matches!(s.mode, ListMode::ViewingStats { .. }));
    s.handle_key(&mut projects, Key::Char('z'));
    assert!(matches!(s.mode, ListMode::ViewingStats { .. }));
    s.handle_key(&mut projects, Key::Char('q'));
    assert!(matches!(s.mode, ListMode::Browsing));

    s.handle_key(&mut projects, Key::Enter);
    s.handle_key(&mut projects, Key::Down);
    s.handle_key(&mut projects, Key::Enter);
    assert!(matches!(s.mode, ListMode::Confirming { action: "Clean artifacts", on_confirm: PendingAction::CleanArtifacts }));
    assert!(matches!(s.handle_key(&mut projects, Key::Char('y')), ListCommand::RunClean));
    s.clean_finished(&projects, Err("denied".to_string()));
    assert!(matches!(s.mode, ListMode::CleanResult { ref message } if message == "Error: denied"));
    s.handle_key(&mut projects, Key::Enter);
    assert!(matches!(s.mode, ListMode::Browsing));

    s.handle_key(&mut projects, Key::Enter);
    s.handle_key(&mut projects, Key::Down);
    s.handle_key(&mut projects, Key::Down);
    assert!(matches!(s.handle_key(&mut projects, Key::Enter), ListCommand::LaunchEditor));
    s.editor_closed(Some("no such file".to_string()));
    assert_eq!(s.message.as_deref(), Some("Failed to launch editor: no such file"));
    assert!(matches!(s.mode, ListMode::Browsing));

    s.handle_key(&mut projects, Key::Enter);
    s.handle_key(&mut projects, Key::Down);
    s.handle_key(&mut projects, Key::Down);
    s.handle_key(&mut projects, Key::Down);
    assert!(matches!(s.handle_key(&mut projects, Key::Enter), ListCommand::LaunchExplorer));
    s.explorer_launched(None);
    assert_eq!(s.message.as_deref(), Some("Opened in file manager"));
    s.handle_key(&mut projects, Key::Enter);
    s.handle_key(&mut projects, Key::Up);
    s.handle_key(&mut projects, Key::Esc);
    assert!(matches!(s.mode, ListMode::Browsing));

    s.handle_key(&mut projects, Key::Enter);
    for _ in 0..4 {
        s.handle_key(&mut projects, Key::Down);
    }
    let r = s.handle_key(&mut projects, Key::Enter);
    assert!(matches!(r, ListCommand::Exit(Some(ref p)) if p == "/p/a"));
}

#[test]
fn confirm_cancel_and_clean_message() {
    let mut projects = vec![project("web", "/web", &["dist"])];
    let mut s = ListState::new(vec![None]);
    s.handle_key(&mut projects, Key::Enter);
    s.handle_key(&mut projects, Key::Down);
    s.handle_key(&mut projects, Key::Enter);
    s.handle_key(&mut projects, Key::Char('x'));
    assert!(matches!(s.mode, ListMode::Confirming { .. }));
    s.handle_key(&mut projects, Key::Char('N'));
    assert!(matches!(s.mode, ListMode::Browsing));
    assert_eq!(projects.len(), 1);
    s.clean_finished(&projects, Ok(2048));
    let expected = format!("Cleaned web: freed {}", bytesize::ByteSize(2048));
    assert!(matches!(s.mode, ListMode::CleanResult { ref message } if *message == expected));
    assert!(expected.len() > "Cleaned web: freed ".len() + 3);
    s.explorer_launched(Some("missing".to_string()));
    assert_eq!(s.message.as_deref(), Some("Failed to open file manager: missing"));
}

#[test]
fn picker_query_and_selection() {
    let names = strings(&["alpha", "beta", "gamma"]);
    let mut m = FuzzyMatcher::new();
    let mut p = PickerState::new(&mut m, &names);
    assert_eq!(p.filtered.len(), 3);
    assert_eq!(p.handle_key(Key::Up, &mut m, &names), PickerStep::Continue);
    assert_eq!(p.selected, 0);
    p.handle_key(Key::Down, &mut m, &names);
    p.handle_key(Key::Down, &mut m, &names);
    p.handle_key(Key::Down, &mut m, &names);
    assert_eq!(p.selected, 2);
    p.handle_key(Key::Char('b'), &mut m, &names);
    assert_eq!(p.query, "b");
    assert_eq!(p.selected, 0);
    p.handle_key(Key::Char('e'), &mut m, &names);
    assert_eq!(p.filtered.len(), 1);
    assert_eq!(p.handle_key(Key::Enter, &mut m, &names), PickerStep::Finish(Some(1)));
    p.handle_key(Key::Backspace, &mut m, &names);
    p.handle_key(Key::Backspace, &mut m, &names);
    p.handle_key(Key::Backspace, &mut m, &names);
    assert_eq!(p.query, "");
    assert_eq!(p.filtered.len(), 3);
    assert_eq!(p.handle_key(Key::Esc, &mut m, &names), PickerStep::Finish(None));
}

#[test]
fn picker_enter_with_no_match() {
    let names = strings(&["alpha"]);
    let mut m = FuzzyMatcher::new();
    let mut p = PickerState::new(&mut m, &names);
    p.handle_key(Key::Char('q'), &mut m, &names);
    assert!(p.filtered.is_empty());
    assert_eq!(p.handle_key(Key::Enter, &mut m, &names), PickerStep::Finish(None));
}
