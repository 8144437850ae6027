use xtask::ci::{
    all_resources, gate, inner_folders, run, BaseDir, CheckExec, CheckKind, ProjectPlan,
    RunResults,
};
use xtask::errors::CiError;
use xtask::utils::{get_cargo_folders, FolderInfo, FolderListing};

fn plan_entry(path: &str, fmt: bool, clippy: bool, test: bool) -> ProjectPlan {
    ProjectPlan { path: path.to_string(), fmt, clippy, test }
}

fn project(path: &str) -> FolderInfo {
    FolderInfo { path: path.to_string(), is_dir: true, has_manifest: true }
}

fn listing(path: &str, entries: Vec<FolderInfo>) -> FolderListing {
    FolderListing { path: path.to_string(), exists: true, entries }
}

fn missing(path: &str) -> FolderListing {
    FolderListing { path: path.to_string(), exists: false, entries: Vec::new() }
}

fn exec_with(plan: Vec<ProjectPlan>) -> CheckExec {
    CheckExec { plan, log: Vec::new() }
}

#[test]
fn run_without_manifest_is_not_applicable() {
    let dir = FolderInfo { path: "docs".to_string(), is_dir: true, has_manifest: false };
    let mut exec = exec_with(vec![plan_entry("docs", false, false, false)]);
    let r = run(&dir, &mut exec);
    assert!(r.is_none());
    assert_eq!(exec.log.len(), 0);
}

#[test]
fn run_executes_three_checks_even_when_the_first_fails() {
    let dir = project("proj");
    let mut exec = exec_with(vec![plan_entry("proj", false, true, true)]);
    let r = run(&dir, &mut exec).expect("a project must yield a result");
    assert_eq!(exec.log.len(), 3);
    assert_eq!(exec.log[0].kind, CheckKind::Fmt);
    assert_eq!(exec.log[1].kind, CheckKind::Clippy);
    assert_eq!(exec.log[2].kind, CheckKind::Test);
    assert_eq!(exec.log[0].path, "proj");
    assert_eq!(exec.log[1].path, "proj");
    assert_eq!(exec.log[2].path, "proj");
    assert_eq!(r.path, "proj");
    assert!(!r.fmt);
    assert!(r.clippy);
    assert!(r.test);
}

#[test]
fn run_on_unplanned_path_fails_every_check() {
    let dir = project("unknown");
    let mut exec = exec_with(vec![plan_entry("other", true, true, true)]);
    let r = run(&dir, &mut exec).expect("a project must yield a result");
    assert!(!r.fmt && !r.clippy && !r.test);
    assert_eq!(exec.log.len(), 3);
}

#[test]
fn is_valid_truth_table() {
    let bools = [false, true];
    for &fmt in &bools {
        for &clippy in &bools {
            for &test in &bools {
                let r = RunResults { path: "p".to_string(), fmt, clippy, test };
                assert_eq!(r.is_valid(), fmt && clippy && test);
            }
        }
    }
}

#[test]
fn get_cargo_folders_filters_and_keeps_order() {
    let entries = vec![
        project("cat/a"),
        FolderInfo { path: "cat/readme".to_string(), is_dir: false, has_manifest: false },
        FolderInfo { path: "cat/docs".to_string(), is_dir: true, has_manifest: false },
        project("cat/b"),
        FolderInfo { path: "cat/stray-manifest".to_string(), is_dir: false, has_manifest: true },
    ];
    let l = listing("cat", entries);
    let v = get_cargo_folders(&l).expect("existing folder must list");
    assert_eq!(v, vec!["cat/a".to_string(), "cat/b".to_string()]);
}

#[test]
fn get_cargo_folders_missing_folder_is_not_found() {
    let l = missing("absent");
    match get_cargo_folders(&l) {
        Err(CiError::NotFound { path }) => assert_eq!(path, "absent"),
        _ => panic!("a missing folder must be a NotFound error"),
    }
}

#[test]
fn inner_folders_never_reports_a_non_project() {
    let entries = vec![
        project("cat/a"),
        FolderInfo { path: "cat/docs".to_string(), is_dir: true, has_manifest: false },
        project("cat/b"),
    ];
    let l = listing("cat", entries);
    let mut exec = exec_with(vec![
        plan_entry("cat/a", true, true, true),
        plan_entry("cat/docs", true, true, true),
        plan_entry("cat/b", true, false, true),
    ]);
    let results = inner_folders(&l, &mut exec).expect("existing folder must run");
    assert_eq!(results.len(), 2);
    assert_eq!(results[0].path, "cat/a");
    assert_eq!(results[1].path, "cat/b");
    assert!(!results[1].clippy);
    assert_eq!(exec.log.len(), 6);
}

#[test]
fn inner_folders_missing_folder_is_not_found_and_runs_nothing() {
    let l = missing("gone");
    let mut exec = exec_with(vec![plan_entry("gone", true, true, true)]);
    match inner_folders(&l, &mut exec) {
        Err(CiError::NotFound { path }) => assert_eq!(path, "gone"),
        _ => panic!("a missing category folder must be a NotFound error"),
    }
    assert_eq!(exec.log.len(), 0);
}

#[test]
fn gate_passes_a_fully_valid_set() {
    let rs = vec![
        RunResults { path: "a".to_string(), fmt: true, clippy: true, test: true },
        RunResults { path: "b".to_string(), fmt: true, clippy: true, test: true },
    ];
    assert!(gate(&rs).is_ok());
    assert!(gate(&Vec::new()).is_ok());
}

#[test]
fn gate_names_the_first_invalid_project() {
    let rs = vec![
        RunResults { path: "a".to_string(), fmt: true, clippy: true, test: true },
        RunResults { path: "b".to_string(), fmt: true, clippy: false, test: true },
        RunResults { path: "c".to_string(), fmt: false, clippy: true, test: true },
    ];
    match gate(&rs) {
        Err(CiError::GateFailure { path }) => assert_eq!(path, "b"),
        _ => panic!("an invalid set must be refused"),
    }
}

fn demo_base() -> BaseDir {
    BaseDir {
        root: project("base"),
        examples: listing("base/examples", vec![project("base/examples/demo")]),
        starters: listing(
            "base/starters",
            vec![project("base/starters/a"), project("base/starters/b")],
        ),
        loco_cli: listing("base/loco-cli", Vec::new()),
    }
}

fn demo_plan() -> Vec<ProjectPlan> {
    vec![
        plan_entry("base", true, true, true),
        plan_entry("base/examples/demo", true, true, true),
        plan_entry("base/starters/a", true, true, true),
        plan_entry("base/starters/b", true, false, true),
    ]
}

#[test]
fn all_resources_orders_root_then_categories() {
    let base = demo_base();
    let mut exec = exec_with(demo_plan());
    let rs = all_resources(&base, &mut exec).expect("nothing is missing");
    assert_eq!(rs.len(), 4);
    assert_eq!(rs[0].path, "base");
    assert_eq!(rs[1].path, "base/examples/demo");
    assert_eq!(rs[2].path, "base/starters/a");
    assert_eq!(rs[3].path, "base/starters/b");
    assert_eq!(exec.log.len(), 12);
}

#[test]
fn all_resources_root_without_manifest_is_fatal() {
    let mut base = demo_base();
    base.root.has_manifest = false;
    let mut exec = exec_with(demo_plan());
    match all_resources(&base, &mut exec) {
        Err(CiError::NotFound { path }) => assert_eq!(path, "base"),
        _ => panic!("an unbuildable root must be fatal"),
    }
    assert_eq!(exec.log.len(), 0);
}

#[test]
fn all_resources_missing_category_aborts_after_root() {
    let mut base = demo_base();
    base.starters = missing("base/starters");
    let mut exec = exec_with(demo_plan());
    match all_resources(&base, &mut exec) {
        Err(CiError::NotFound { path }) => assert_eq!(path, "base/starters"),
        _ => panic!("a missing category folder must be fatal"),
    }
    // The root and the examples category already ran, in order.
    assert_eq!(exec.log.len(), 6);
}

#[test]
fn all_resources_is_deterministic() {
    let base = demo_base();
    let mut exec1 = exec_with(demo_plan());
    let mut exec2 = exec_with(demo_plan());
    let rs1 = all_resources(&base, &mut exec1).expect("nothing is missing");
    let rs2 = all_resources(&base, &mut exec2).expect("nothing is missing");
    assert_eq!(rs1.len(), rs2.len());
    for (a, b) in rs1.iter().zip(rs2.iter()) {
        assert_eq!(a.path, b.path);
        assert_eq!(a.fmt, b.fmt);
        assert_eq!(a.clippy, b.clippy);
        assert_eq!(a.test, b.test);
    }
    assert_eq!(exec1.log.len(), exec2.log.len());
    for (a, b) in exec1.log.iter().zip(exec2.log.iter()) {
        assert_eq!(a.path, b.path);
        assert_eq!(a.kind, b.kind);
    }
}

#[test]
fn default_record_is_empty_and_invalid() {
    let r = RunResults::default();
    assert_eq!(r.path, "");
    assert!(!r.fmt && !r.clippy && !r.test);
    assert!(!r.is_valid());
}
