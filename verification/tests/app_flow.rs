//! Tests of the coordination layer: scan and delete event handling,
//! selection, navigation and the screen transitions.

use std::sync::mpsc;
use std::sync::{Arc, Mutex};

use nodenuke::app::{App, NodeModuleEntry, Screen};
use nodenuke::deleter::DeleteMsg;
use nodenuke::scanner::{ActiveScan, ScanMsg};

fn fresh_scan() -> (mpsc::Sender<ScanMsg>, ActiveScan) {
    let (tx, rx) = mpsc::channel();
    let scan = ActiveScan {
        rx,
        current_path: Arc::new(Mutex::new(String::new())),
        done: false,
    };
    (tx, scan)
}

fn found(path: &str, size: u64, sensitive: bool, last_modified: Option<u64>) -> ScanMsg {
    ScanMsg::Found { path: path.to_string(), size, sensitive, last_modified }
}

fn app_with_entries(entries: Vec<(&str, u64, bool)>) -> App {
    let mut app = App::new("/root".to_string());
    let (tx, scan) = fresh_scan();
    app.begin_scan(scan);
    for (path, size, sensitive) in entries {
        tx.send(found(path, size, sensitive, None)).unwrap();
    }
    tx.send(ScanMsg::Done).unwrap();
    app.process_scan_messages();
    app
}

#[test]
fn new_app_starts_on_the_welcome_screen() {
    let app = App::new("/root".to_string());
    assert!(matches!(app.screen, Screen::Welcome));
    assert_eq!(app.scan_root, "/root");
    assert!(app.entries.is_empty());
}

#[test]
fn entries_are_selected_at_creation_exactly_when_safe() {
    let safe = NodeModuleEntry::new("/a/node_modules".to_string(), 10, false, None);
    assert!(safe.selected);
    let sensitive = NodeModuleEntry::new("/b/node_modules".to_string(), 10, true, None);
    assert!(!sensitive.selected);
}

#[test]
fn scan_results_stream_in_and_finish_sorted() {
    // The scenario tree: proj-a/node_modules (50 MB), proj-b/node_modules
    // (10 MB, modified two days ago, with a nested match inside it that is
    // never reported). Two matches, both safe, both selected, proj-a first,
    // 60 MB in total.
    let mut app = App::new("/root".to_string());
    let (tx, scan) = fresh_scan();
    app.begin_scan(scan);
    assert!(matches!(app.screen, Screen::Scanning));

    let home = "/home/alice";
    let a = "/root/proj-a/node_modules";
    let b = "/root/proj-b/node_modules";
    let two_days_ago = 1_700_000_000 - 2 * 86400;
    tx.send(found(b, 10_000_000, nodenuke::scanner::is_sensitive_dir(b, home, "/"), Some(two_days_ago)))
        .unwrap();
    tx.send(found(a, 50_000_000, nodenuke::scanner::is_sensitive_dir(a, home, "/"), None))
        .unwrap();
    tx.send(ScanMsg::Done).unwrap();
    app.process_scan_messages();

    assert!(matches!(app.screen, Screen::List));
    assert_eq!(app.entries.len(), 2);
    assert_eq!(app.entries[0].path, a);
    assert_eq!(app.entries[0].size, 50_000_000);
    assert_eq!(app.entries[1].path, b);
    assert!(!app.entries[0].sensitive);
    assert!(!app.entries[1].sensitive);
    assert!(app.entries[0].selected);
    assert!(app.entries[1].selected);
    assert_eq!(app.cursor, Some(0));
    assert_eq!(app.total_size(), 60_000_000);
    assert_eq!(app.entries[1].last_modified, Some(two_days_ago));
}

#[test]
fn empty_scan_skips_straight_to_the_summary() {
    let mut app = App::new("/root".to_string());
    let (tx, scan) = fresh_scan();
    app.begin_scan(scan);
    tx.send(ScanMsg::Done).unwrap();
    app.process_scan_messages();
    assert!(matches!(app.screen, Screen::Done));
    assert!(app.entries.is_empty());
}

#[test]
fn a_finished_scan_is_processed_only_once() {
    let mut app = app_with_entries(vec![("/root/a/node_modules", 5, false)]);
    assert!(matches!(app.screen, Screen::List));
    // The terminal event was consumed; further ticks change nothing.
    app.process_scan_messages();
    assert!(matches!(app.screen, Screen::List));
    assert_eq!(app.entries.len(), 1);
}

#[test]
fn results_arrive_across_several_ticks() {
    let mut app = App::new("/root".to_string());
    let (tx, scan) = fresh_scan();
    app.begin_scan(scan);
    tx.send(found("/root/a/node_modules", 5, false, None)).unwrap();
    app.process_scan_messages();
    assert!(matches!(app.screen, Screen::Scanning));
    assert_eq!(app.entries.len(), 1);
    tx.send(found("/root/b/node_modules", 9, false, None)).unwrap();
    tx.send(ScanMsg::Done).unwrap();
    app.process_scan_messages();
    assert!(matches!(app.screen, Screen::List));
    assert_eq!(app.entries.len(), 2);
    assert_eq!(app.entries[0].size, 9);
}

#[test]
fn current_scanning_path_reads_the_shared_cell() {
    let mut app = App::new("/root".to_string());
    assert_eq!(app.current_scanning_path(), "");
    let (_tx, scan) = fresh_scan();
    let cell = Arc::clone(&scan.current_path);
    app.begin_scan(scan);
    *cell.lock().unwrap() = "/root/somewhere".to_string();
    assert_eq!(app.current_scanning_path(), "/root/somewhere");
}

#[test]
fn navigation_wraps_both_ways() {
    let mut app = app_with_entries(vec![
        ("/root/a/node_modules", 30, false),
        ("/root/b/node_modules", 20, false),
        ("/root/c/node_modules", 10, false),
    ]);
    assert_eq!(app.cursor, Some(0));
    app.navigate_up();
    assert_eq!(app.cursor, Some(2));
    app.navigate_down();
    assert_eq!(app.cursor, Some(0));
    app.navigate_down();
    assert_eq!(app.cursor, Some(1));
}

#[test]
fn toggle_selected_flips_the_highlighted_entry() {
    let mut app = app_with_entries(vec![
        ("/root/a/node_modules", 30, false),
        ("/root/b/node_modules", 20, true),
    ]);
    assert!(app.entries[0].selected);
    app.toggle_selected();
    assert!(!app.entries[0].selected);
    app.toggle_selected();
    assert!(app.entries[0].selected);
    // Sensitive entries can be selected by hand.
    app.navigate_down();
    app.toggle_selected();
    assert!(app.entries[1].selected);
}

#[test]
fn toggle_all_selects_safe_entries_first_then_deselects() {
    let mut app = app_with_entries(vec![
        ("/root/a/node_modules", 30, false),
        ("/root/b/node_modules", 20, true),
        ("/root/c/node_modules", 10, false),
    ]);
    // Deselect one safe entry, so one safe entry is unselected.
    app.navigate_down();
    app.navigate_down();
    app.toggle_selected();
    assert!(!app.entries[2].selected);
    // First press: every safe entry selected, sensitive untouched.
    app.toggle_all();
    assert!(app.entries[0].selected);
    assert!(!app.entries[1].selected);
    assert!(app.entries[2].selected);
    // Second press: every safe entry deselected.
    app.toggle_all();
    assert!(!app.entries[0].selected);
    assert!(!app.entries[1].selected);
    assert!(!app.entries[2].selected);
}

#[test]
fn toggle_all_force_includes_sensitive_entries() {
    let mut app = app_with_entries(vec![
        ("/root/a/node_modules", 30, false),
        ("/root/b/node_modules", 20, true),
    ]);
    assert!(!app.entries[1].selected);
    app.toggle_all_force();
    assert!(app.entries[0].selected);
    assert!(app.entries[1].selected);
    app.toggle_all_force();
    assert!(!app.entries[0].selected);
    assert!(!app.entries[1].selected);
}

#[test]
fn selection_aggregates_count_size_and_paths() {
    let mut app = app_with_entries(vec![
        ("/root/a/node_modules", 30, false),
        ("/root/b/node_modules", 20, true),
        ("/root/c/node_modules", 10, false),
    ]);
    assert_eq!(app.selected_count(), 2);
    assert_eq!(app.selected_size(), 40);
    assert_eq!(app.total_size(), 60);
    assert_eq!(
        app.selected_paths(),
        vec!["/root/a/node_modules".to_string(), "/root/c/node_modules".to_string()]
    );
    app.toggle_selected();
    assert_eq!(app.selected_count(), 1);
    assert_eq!(app.selected_size(), 10);
}

#[test]
fn requesting_deletion_needs_a_selection() {
    let mut app = app_with_entries(vec![("/root/a/node_modules", 30, false)]);
    app.toggle_selected();
    assert_eq!(app.selected_count(), 0);
    app.request_delete();
    assert!(matches!(app.screen, Screen::List));
    app.toggle_selected();
    app.request_delete();
    assert!(matches!(app.screen, Screen::Confirming));
    app.cancel_delete();
    assert!(matches!(app.screen, Screen::List));
}

#[test]
fn delete_run_counts_progress_and_records_the_final_report() {
    let mut app = app_with_entries(vec![
        ("/root/a/node_modules", 100, false),
        ("/root/b/node_modules", 50, false),
        ("/root/c/node_modules", 25, false),
    ]);
    app.request_delete();
    assert!(matches!(app.screen, Screen::Confirming));

    let (tx, rx) = mpsc::channel::<DeleteMsg>();
    app.begin_delete(rx);
    assert!(matches!(app.screen, Screen::Deleting));
    assert_eq!(app.delete_total, 3);
    assert_eq!(app.delete_done, 0);
    assert_eq!(app.delete_freed, 0);

    tx.send(DeleteMsg::Progress("/root/a/node_modules".to_string())).unwrap();
    tx.send(DeleteMsg::Progress("/root/b/node_modules".to_string())).unwrap();
    app.process_delete_messages();
    assert!(matches!(app.screen, Screen::Deleting));
    assert_eq!(app.delete_done, 2);
    assert_eq!(app.delete_current, "/root/b/node_modules");

    tx.send(DeleteMsg::Progress("/root/c/node_modules".to_string())).unwrap();
    tx.send(DeleteMsg::Done {
        freed: 125,
        errors: vec!["/root/b/node_modules: permission denied".to_string()],
    })
    .unwrap();
    app.process_delete_messages();
    assert!(matches!(app.screen, Screen::Done));
    assert_eq!(app.delete_done, 3);
    assert_eq!(app.delete_freed, 125);
    assert_eq!(app.delete_errors, vec!["/root/b/node_modules: permission denied".to_string()]);
    assert!(app.delete_rx.is_none());
}

#[test]
fn entries_with_equal_sizes_all_survive_the_sort() {
    let app = app_with_entries(vec![
        ("/root/a/node_modules", 10, false),
        ("/root/b/node_modules", 10, false),
        ("/root/c/node_modules", 10, false),
    ]);
    assert_eq!(app.entries.len(), 3);
    assert!(app.entries.iter().all(|e| e.size == 10));
    let mut paths: Vec<&str> = app.entries.iter().map(|e| e.path.as_str()).collect();
    paths.sort();
    assert_eq!(
        paths,
        vec!["/root/a/node_modules", "/root/b/node_modules", "/root/c/node_modules"]
    );
}

#[test]
fn selected_size_saturates_instead_of_wrapping() {
    let app = app_with_entries(vec![
        ("/root/a/node_modules", u64::MAX, false),
        ("/root/b/node_modules", u64::MAX, false),
    ]);
    assert_eq!(app.selected_size(), u64::MAX);
    assert_eq!(app.total_size(), u64::MAX);
}

#[test]
fn a_new_delete_run_never_inherits_counters() {
    let mut app = app_with_entries(vec![("/root/a/node_modules", 100, false)]);
    app.delete_done = 7;
    app.delete_freed = 999;
    app.delete_current = "stale".to_string();
    app.delete_errors.push("stale".to_string());
    let (_tx, rx) = mpsc::channel::<DeleteMsg>();
    app.begin_delete(rx);
    assert_eq!(app.delete_done, 0);
    assert_eq!(app.delete_total, 1);
    assert_eq!(app.delete_freed, 0);
    assert_eq!(app.delete_current, "");
    assert!(app.delete_errors.is_empty());
}
