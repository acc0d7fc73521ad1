use c2rust_test::project_root::{
    choose_root, locate_root, probe_warning, walk_step, MarkerProbe, RootChoice, WalkStep,
    ROOT_VARIABLE,
};

#[test]
fn walk_without_markers_returns_the_start() {
    let probes = vec![MarkerProbe::NotFound, MarkerProbe::NotFound, MarkerProbe::NotFound];
    assert_eq!(locate_root(&probes), 0);
    assert_eq!(locate_root(&vec![MarkerProbe::NotFound]), 0);
    assert_eq!(locate_root(&Vec::new()), 0);
}

#[test]
fn walk_finds_the_nearest_marker() {
    let probes = vec![
        MarkerProbe::NotFound,
        MarkerProbe::Directory,
        MarkerProbe::NotFound,
        MarkerProbe::Directory,
    ];
    assert_eq!(locate_root(&probes), 1);
    assert_eq!(locate_root(&vec![MarkerProbe::Directory, MarkerProbe::Directory]), 0);
    assert_eq!(locate_root(&vec![MarkerProbe::NotFound, MarkerProbe::NotFound, MarkerProbe::Directory]), 2);
}

#[test]
fn marker_must_be_a_directory() {
    let probes = vec![MarkerProbe::NotDirectory, MarkerProbe::NotDirectory];
    assert_eq!(locate_root(&probes), 0);
    let probes = vec![MarkerProbe::NotFound, MarkerProbe::NotDirectory, MarkerProbe::Directory];
    assert_eq!(locate_root(&probes), 2);
}

#[test]
fn failed_probes_do_not_end_the_walk() {
    let probes = vec![
        MarkerProbe::PermissionDenied,
        MarkerProbe::Unreadable("input/output error".to_string()),
        MarkerProbe::Directory,
    ];
    assert_eq!(locate_root(&probes), 2);
    let probes = vec![
        MarkerProbe::NotFound,
        MarkerProbe::PermissionDenied,
        MarkerProbe::Unreadable("x".to_string()),
    ];
    assert_eq!(locate_root(&probes), 0);
}

#[test]
fn one_step_of_the_walk() {
    assert_eq!(walk_step(&MarkerProbe::Directory, true), WalkStep::Found);
    assert_eq!(walk_step(&MarkerProbe::Directory, false), WalkStep::Found);
    assert_eq!(walk_step(&MarkerProbe::NotFound, true), WalkStep::Ascend);
    assert_eq!(walk_step(&MarkerProbe::NotFound, false), WalkStep::Fallback);
    assert_eq!(walk_step(&MarkerProbe::NotDirectory, true), WalkStep::Ascend);
    assert_eq!(walk_step(&MarkerProbe::PermissionDenied, false), WalkStep::Fallback);
    assert_eq!(walk_step(&MarkerProbe::Unreadable("x".to_string()), true), WalkStep::Ascend);
}

#[test]
fn warnings_of_failed_probes() {
    assert_eq!(
        probe_warning(&MarkerProbe::PermissionDenied, "/a/.c2rust"),
        Some("Warning: Permission denied accessing /a/.c2rust, continuing search".to_string())
    );
    assert_eq!(
        probe_warning(&MarkerProbe::Unreadable("too many links".to_string()), "/a/.c2rust"),
        Some("Warning: Error accessing /a/.c2rust: too many links, continuing search".to_string())
    );
    assert_eq!(probe_warning(&MarkerProbe::NotFound, "/a/.c2rust"), None);
    assert_eq!(probe_warning(&MarkerProbe::NotDirectory, "/a/.c2rust"), None);
    assert_eq!(probe_warning(&MarkerProbe::Directory, "/a/.c2rust"), None);
}

#[test]
fn given_root_overrides_the_walk() {
    assert_eq!(
        choose_root(Some("/elsewhere".to_string())),
        RootChoice::Given("/elsewhere".to_string())
    );
    assert_eq!(choose_root(Some(String::new())), RootChoice::Given(String::new()));
    assert_eq!(choose_root(None), RootChoice::Walk);
    assert_eq!(ROOT_VARIABLE, "C2RUST_PROJECT_ROOT");
}
