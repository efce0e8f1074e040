//! Tests of the engine models: the deletion batch accounting and event
//! stream, and the walk over a modelled directory tree.

use nodenuke::deleter::{delete_error_message, delete_run_events, DeleteBatch, DeleteMsg, PathOutcome};
use nodenuke::fstree::{forest_size, scan_forest, tree_size, FsNode};
use nodenuke::is_target_dir_name;
use nodenuke::scanner::sum_file_sizes;

#[test]
fn target_name_must_match_exactly() {
    assert!(is_target_dir_name("node_modules"));
    assert!(!is_target_dir_name("node_module"));
    assert!(!is_target_dir_name("Node_Modules"));
    assert!(!is_target_dir_name(""));
}

#[test]
fn batch_accounts_every_path_exactly_once() {
    let mut batch = DeleteBatch::new();
    batch.record_success(100);
    batch.record_failure("/root/b/node_modules: permission denied".to_string());
    batch.record_success(25);
    assert_eq!(batch.freed, 125);
    assert_eq!(batch.recorded, 3);
    assert_eq!(batch.succeeded, 2);
    assert_eq!(batch.errors.len(), 1);
    assert_eq!(batch.errors[0], "/root/b/node_modules: permission denied");
}

#[test]
fn freed_bytes_saturate_instead_of_wrapping() {
    let mut batch = DeleteBatch::new();
    batch.record_success(u64::MAX - 10);
    batch.record_success(100);
    assert_eq!(batch.freed, u64::MAX);
}

#[test]
fn error_messages_name_the_path_and_the_reason() {
    assert_eq!(
        delete_error_message("/root/b/node_modules", "permission denied"),
        "/root/b/node_modules: permission denied"
    );
}

#[test]
fn delete_events_progress_in_order_then_one_report() {
    // Three paths, the second failing: two successes feed the freed total,
    // one message lands in the error list, and a progress event for every
    // path comes before the terminal report.
    let outcomes = vec![
        PathOutcome { path: "/root/a/node_modules".to_string(), size: 100, error: None },
        PathOutcome {
            path: "/root/b/node_modules".to_string(),
            size: 50,
            error: Some("/root/b/node_modules: permission denied".to_string()),
        },
        PathOutcome { path: "/root/c/node_modules".to_string(), size: 25, error: None },
    ];
    let events = delete_run_events(outcomes);
    assert_eq!(events.len(), 4);
    for (i, expected) in ["/root/a/node_modules", "/root/b/node_modules", "/root/c/node_modules"]
        .iter()
        .enumerate()
    {
        match &events[i] {
            DeleteMsg::Progress(p) => assert_eq!(p, expected),
            DeleteMsg::Done { .. } => panic!("terminal event before the last position"),
        }
    }
    match &events[3] {
        DeleteMsg::Done { freed, errors } => {
            assert_eq!(*freed, 125);
            assert_eq!(errors, &vec!["/root/b/node_modules: permission denied".to_string()]);
        }
        DeleteMsg::Progress(_) => panic!("the last event must be the terminal report"),
    }
}

fn file(name: &str, size: u64) -> FsNode {
    FsNode::File { name: name.to_string(), size }
}

fn dir(name: &str, entries: Vec<FsNode>) -> FsNode {
    FsNode::Dir { name: name.to_string(), entries }
}

#[test]
fn tree_sizes_add_up_recursively() {
    let t = dir(
        "root",
        vec![file("a", 10), dir("sub", vec![file("b", 20), file("c", 30)])],
    );
    assert_eq!(tree_size(&t), 60);
}

#[test]
fn nested_matches_are_never_reported() {
    // proj-a/node_modules (50 MB) and proj-b/node_modules (10 MB in total)
    // with a further match nested inside proj-b's — the walk reports exactly
    // the two outer matches, and the nested one only contributes its size.
    let tree = vec![
        dir(
            "proj-a",
            vec![dir("node_modules", vec![file("pkg.js", 50_000_000)])],
        ),
        dir(
            "proj-b",
            vec![dir(
                "node_modules",
                vec![
                    file("direct.js", 5_000_000),
                    dir("nested", vec![dir("node_modules", vec![file("deep.js", 5_000_000)])]),
                ],
            )],
        ),
    ];
    let base: Vec<char> = "/root".chars().collect();
    let found = scan_forest(&tree, &base);
    assert_eq!(found.len(), 2);
    assert_eq!(found[0].path, "/root/proj-a/node_modules");
    assert_eq!(found[0].size, 50_000_000);
    assert_eq!(found[1].path, "/root/proj-b/node_modules");
    assert_eq!(found[1].size, 10_000_000);
    // No reported path lies inside another reported one.
    for a in &found {
        for b in &found {
            if a.path != b.path {
                assert!(!b.path.starts_with(&format!("{}/", a.path)));
            }
        }
    }
    assert_eq!(forest_size(&tree), 60_000_000);
}

#[test]
fn directories_not_named_like_the_target_are_walked_through() {
    let tree = vec![dir(
        "work",
        vec![dir("api", vec![dir("node_modules", vec![file("x", 7)])])],
    )];
    let base: Vec<char> = "/r".chars().collect();
    let found = scan_forest(&tree, &base);
    assert_eq!(found.len(), 1);
    assert_eq!(found[0].path, "/r/work/api/node_modules");
    assert_eq!(found[0].size, 7);
}

#[test]
fn files_named_like_the_target_are_not_reported() {
    let tree = vec![dir("proj", vec![file("node_modules", 5)])];
    let base: Vec<char> = "/r".chars().collect();
    let found = scan_forest(&tree, &base);
    assert!(found.is_empty());
}

#[test]
fn walked_file_sums_skip_non_files() {
    let entries = vec![(true, 10u64), (false, 999u64), (true, 32u64)];
    assert_eq!(sum_file_sizes(&entries), 42);
}
