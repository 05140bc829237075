use prj::scan::{is_strictly_below, ScanState};

fn rel(v: &[&str]) -> Vec<String> {
    v.iter().map(|s| s.to_string()).collect()
}

fn markers(v: &[&str]) -> Vec<String> {
    rel(v)
}

#[test]
fn scan_prunes_nested_project() {
    let mut s = ScanState::new(3);
    assert!(!s.visit(rel(&[]), true, &markers(&[])));
    assert!(s.visit(rel(&["P"]), true, &markers(&["Cargo.toml", ".git"])));
    assert!(!s.wants(&rel(&["P", "sub"]), true));
    assert!(!s.visit(rel(&["P", "sub"]), true, &markers(&["package.json"])));
    assert!(s.visit(rel(&["Q"]), true, &markers(&["go.mod"])));
    assert_eq!(s.into_found(), vec![rel(&["P"]), rel(&["Q"])]);
}

#[test]
fn scan_respects_depth_bound() {
    let mut s = ScanState::new(1);
    assert!(!s.visit(rel(&["a", "b"]), true, &markers(&["Cargo.toml"])));
    assert!(s.visit(rel(&["c"]), true, &markers(&["Makefile"])));
    assert_eq!(s.found(), &vec![rel(&["c"])]);
}

#[test]
fn scan_root_project_stops_everything() {
    let mut s = ScanState::new(5);
    assert!(s.visit(rel(&[]), true, &markers(&[".git"])));
    assert!(!s.visit(rel(&["x"]), true, &markers(&["Cargo.toml"])));
    assert_eq!(s.into_found(), vec![rel(&[])]);
}

#[test]
fn scan_ignores_files() {
    let mut s = ScanState::new(2);
    assert!(!s.wants(&rel(&["f"]), false));
    assert!(!s.visit(rel(&["f"]), false, &markers(&["Cargo.toml"])));
    assert!(s.found().is_empty());
}

#[test]
fn strictly_below_compares_components() {
    assert!(is_strictly_below(&rel(&["a", "b"]), &rel(&["a"])));
    assert!(!is_strictly_below(&rel(&["a"]), &rel(&["a"])));
    assert!(!is_strictly_below(&rel(&["ab", "c"]), &rel(&["a"])));
    assert!(is_strictly_below(&rel(&["a"]), &rel(&[])));
}
