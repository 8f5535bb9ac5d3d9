use psd_watch::batch::{filter_candidates, summarize};
use psd_watch::classify::{accept, EventCategory, PathInfo};
use psd_watch::convert::{ExportError, ExportOutcome};
use psd_watch::dispatch::{choose_watch_mode, Dispatcher, LoopState, StartupError, WatchMode};
use psd_watch::format::ExportFormat;
use psd_watch::ledger::DebounceLedger;
use psd_watch::paths::{bytes_eq, has_document_extension, output_path_for, with_extension};

fn b(s: &str) -> Vec<u8> {
    s.as_bytes().to_vec()
}

#[test]
fn extension_strings() {
    assert_eq!(ExportFormat::Png.extension(), "png");
    assert_eq!(ExportFormat::Jpg.extension(), "jpg");
}

#[test]
fn extension_bytes_match_strings() {
    assert_eq!(ExportFormat::Png.extension_bytes(), b("png"));
    assert_eq!(ExportFormat::Jpg.extension_bytes(), b("jpg"));
}

#[test]
fn output_path_replaces_extension() {
    assert_eq!(output_path_for(&b("art.psd"), ExportFormat::Png), b("art.png"));
    assert_eq!(output_path_for(&b("dir/sub/pic.psd"), ExportFormat::Jpg), b("dir/sub/pic.jpg"));
}

#[test]
fn output_path_without_extension_appends() {
    assert_eq!(output_path_for(&b("archive"), ExportFormat::Png), b("archive.png"));
}

#[test]
fn output_path_hidden_file_appends() {
    // a name that starts with its only dot has no extension
    assert_eq!(output_path_for(&b(".psd"), ExportFormat::Png), b(".psd.png"));
}

#[test]
fn output_path_keeps_earlier_dots() {
    assert_eq!(output_path_for(&b("a.b.psd"), ExportFormat::Png), b("a.b.png"));
}

#[test]
fn with_extension_general() {
    assert_eq!(with_extension(&b("x.tmp"), &b("bak")), b("x.bak"));
}

#[test]
fn document_extension_cases() {
    assert!(has_document_extension(&b("a.psd")));
    assert!(has_document_extension(&b("dir/a.psd")));
    assert!(has_document_extension(&b("a.b.psd")));
    assert!(!has_document_extension(&b("a.PSD")));
    assert!(!has_document_extension(&b("apsd")));
    assert!(!has_document_extension(&b(".psd")));
    assert!(!has_document_extension(&b("dir.psd/file")));
    assert!(!has_document_extension(&b("a.psdx")));
    assert!(!has_document_extension(&b("")));
}

#[test]
fn bytes_eq_cases() {
    assert!(bytes_eq(&b("a.psd"), &b("a.psd")));
    assert!(!bytes_eq(&b("a.psd"), &b("b.psd")));
    assert!(!bytes_eq(&b("a.psd"), &b("a.psd2")));
}

#[test]
fn classifier_accepts_created_and_modified() {
    assert!(accept(EventCategory::Created, true, &b("a.psd")));
    assert!(accept(EventCategory::Modified, true, &b("w/a.psd")));
}

#[test]
fn classifier_rejects_other_kinds() {
    assert!(!accept(EventCategory::Removed, true, &b("a.psd")));
    assert!(!accept(EventCategory::Other, true, &b("a.psd")));
}

#[test]
fn classifier_rejects_non_files_and_wrong_extension() {
    assert!(!accept(EventCategory::Created, false, &b("a.psd")));
    assert!(!accept(EventCategory::Created, true, &b("a.png")));
    assert!(!accept(EventCategory::Modified, true, &b(".psd")));
}

#[test]
fn ledger_first_dispatch_accepted() {
    let mut ledger = DebounceLedger::new();
    assert!(ledger.should_dispatch(&b("a.psd"), 0, 100));
}

#[test]
fn ledger_rapid_double_save_suppressed() {
    // two events 10ms apart with a 100ms window: one dispatch
    let mut ledger = DebounceLedger::new();
    assert!(ledger.should_dispatch(&b("a.psd"), 0, 100));
    assert!(!ledger.should_dispatch(&b("a.psd"), 10, 100));
}

#[test]
fn ledger_slow_double_save_dispatches_twice() {
    // two events 150ms apart with a 100ms window: two dispatches
    let mut ledger = DebounceLedger::new();
    assert!(ledger.should_dispatch(&b("a.psd"), 0, 100));
    assert!(ledger.should_dispatch(&b("a.psd"), 150, 100));
}

#[test]
fn ledger_window_boundary_is_inclusive() {
    let mut ledger = DebounceLedger::new();
    assert!(ledger.should_dispatch(&b("a.psd"), 0, 100));
    assert!(!ledger.should_dispatch(&b("a.psd"), 99, 100));
    assert!(ledger.should_dispatch(&b("a.psd"), 100, 100));
}

#[test]
fn ledger_clock_going_backwards_is_suppressed() {
    let mut ledger = DebounceLedger::new();
    assert!(ledger.should_dispatch(&b("a.psd"), 50, 100));
    assert!(!ledger.should_dispatch(&b("a.psd"), 40, 100));
}

#[test]
fn ledger_same_instant_race_one_winner() {
    // two check-and-update calls at the same instant: whichever is
    // linearized first wins, the other is suppressed
    let mut ledger = DebounceLedger::new();
    assert!(ledger.should_dispatch(&b("a.psd"), 5, 100));
    assert!(!ledger.should_dispatch(&b("a.psd"), 5, 100));
}

#[test]
fn ledger_paths_are_independent() {
    let mut ledger = DebounceLedger::new();
    assert!(ledger.should_dispatch(&b("a.psd"), 0, 100));
    assert!(ledger.should_dispatch(&b("b.psd"), 0, 100));
}

#[test]
fn ledger_greedy_sequence() {
    let mut ledger = DebounceLedger::new();
    let times: Vec<u64> = vec![0, 10, 150, 240, 260];
    let decisions = ledger.decide_sequence(&b("a.psd"), &times, 100);
    assert_eq!(decisions, vec![true, false, true, false, true]);
}

#[test]
fn dispatcher_single_document() {
    // a single valid document created in a watched directory is
    // dispatched exactly once
    let mut dispatcher = Dispatcher::new(ExportFormat::Png, 100);
    let infos = vec![PathInfo { path: b("w/a.psd"), is_regular_file: true }];
    let dispatched = dispatcher.handle_notification(EventCategory::Created, &infos, 5);
    assert_eq!(dispatched, vec![b("w/a.psd")]);
    assert_eq!(dispatcher.state, LoopState::Watching);
}

#[test]
fn dispatcher_rapid_double_save() {
    let mut dispatcher = Dispatcher::new(ExportFormat::Png, 100);
    let infos = vec![PathInfo { path: b("w/a.psd"), is_regular_file: true }];
    let first = dispatcher.handle_notification(EventCategory::Modified, &infos, 0);
    let second = dispatcher.handle_notification(EventCategory::Modified, &infos, 10);
    assert_eq!(first.len(), 1);
    assert_eq!(second.len(), 0);
}

#[test]
fn dispatcher_slow_double_save() {
    let mut dispatcher = Dispatcher::new(ExportFormat::Png, 100);
    let infos = vec![PathInfo { path: b("w/a.psd"), is_regular_file: true }];
    let first = dispatcher.handle_notification(EventCategory::Modified, &infos, 0);
    let second = dispatcher.handle_notification(EventCategory::Modified, &infos, 150);
    assert_eq!(first.len(), 1);
    assert_eq!(second.len(), 1);
}

#[test]
fn dispatcher_ignores_irrelevant_paths() {
    let mut dispatcher = Dispatcher::new(ExportFormat::Png, 100);
    let infos = vec![
        PathInfo { path: b("w/notes.txt"), is_regular_file: true },
        PathInfo { path: b("w/subdir"), is_regular_file: false },
        PathInfo { path: b("w/a.psd"), is_regular_file: true },
    ];
    let dispatched = dispatcher.handle_notification(EventCategory::Created, &infos, 0);
    assert_eq!(dispatched, vec![b("w/a.psd")]);
}

#[test]
fn dispatcher_ignores_removals() {
    let mut dispatcher = Dispatcher::new(ExportFormat::Png, 100);
    let infos = vec![PathInfo { path: b("w/a.psd"), is_regular_file: true }];
    let dispatched = dispatcher.handle_notification(EventCategory::Removed, &infos, 0);
    assert!(dispatched.is_empty());
}

#[test]
fn dispatcher_debounces_within_one_notification() {
    // the same path twice in one notification: the ledger is threaded
    // through, so only the first occurrence dispatches
    let mut dispatcher = Dispatcher::new(ExportFormat::Png, 100);
    let infos = vec![
        PathInfo { path: b("w/a.psd"), is_regular_file: true },
        PathInfo { path: b("w/a.psd"), is_regular_file: true },
    ];
    let dispatched = dispatcher.handle_notification(EventCategory::Created, &infos, 0);
    assert_eq!(dispatched, vec![b("w/a.psd")]);
}

#[test]
fn dispatcher_stream_error_keeps_watching() {
    let mut dispatcher = Dispatcher::new(ExportFormat::Png, 100);
    dispatcher.handle_stream_error();
    assert_eq!(dispatcher.state, LoopState::Watching);
    dispatcher.handle_stream_closed();
    assert_eq!(dispatcher.state, LoopState::Stopped);
}

#[test]
fn watch_mode_missing_path() {
    assert_eq!(
        choose_watch_mode(false, false, false, &b("gone")),
        Err(StartupError::PathNotFound)
    );
}

#[test]
fn watch_mode_directory_is_recursive() {
    assert_eq!(choose_watch_mode(true, true, false, &b("dir")), Ok(WatchMode::RecursiveDirectory));
}

#[test]
fn watch_mode_document_file_is_single() {
    assert_eq!(choose_watch_mode(true, false, true, &b("a.psd")), Ok(WatchMode::SingleFile));
}

#[test]
fn watch_mode_other_file_is_unwatchable() {
    assert_eq!(
        choose_watch_mode(true, false, true, &b("a.txt")),
        Err(StartupError::UnwatchablePath)
    );
    assert_eq!(
        choose_watch_mode(true, false, false, &b("sock")),
        Err(StartupError::UnwatchablePath)
    );
}

#[test]
fn filter_candidates_selects_documents() {
    let infos = vec![
        PathInfo { path: b("w/a.psd"), is_regular_file: true },
        PathInfo { path: b("w/b.txt"), is_regular_file: true },
        PathInfo { path: b("w/sub"), is_regular_file: false },
        PathInfo { path: b("w/sub/c.psd"), is_regular_file: true },
        PathInfo { path: b("w/fake.psd"), is_regular_file: false },
    ];
    let docs = filter_candidates(&infos);
    assert_eq!(docs, vec![b("w/a.psd"), b("w/sub/c.psd")]);
}

#[test]
fn summarize_counts_outcomes() {
    let outcomes = vec![
        ExportOutcome { path: b("a.psd"), result: Ok(()) },
        ExportOutcome { path: b("b.psd"), result: Err(ExportError::UnparseableDocument) },
        ExportOutcome { path: b("c.psd"), result: Ok(()) },
    ];
    let summary = summarize(&outcomes);
    assert_eq!(summary.attempted, 3);
    assert_eq!(summary.succeeded, 2);
    assert_eq!(summary.failed, 1);
}

#[test]
fn summarize_empty_reports_zero_found() {
    let summary = summarize(&Vec::new());
    assert_eq!(summary.attempted, 0);
    assert_eq!(summary.succeeded, 0);
    assert_eq!(summary.failed, 0);
}
