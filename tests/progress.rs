use cursor_rust_tools::client_state::{
    indexing_token, initial_indexing_finished, ClientState, IndexedGate, ProgressToken,
    WorkDoneProgress,
};
use cursor_rust_tools::path::ProjectPath;
use cursor_rust_tools::progress::{IndexingProgress, LspNotification};

fn path(parts: &[&str]) -> ProjectPath {
    ProjectPath::from_components(parts.iter().map(|p| p.to_string()).collect())
}

#[test]
fn start_then_complete_is_finished_at_full_percentage() {
    let mut p = IndexingProgress::new(path(&["w"]));
    p.start_indexing();
    p.complete_indexing();
    assert!(!p.is_indexing);
    assert_eq!(p.progress_percentage, Some(100));
    let secs = p.elapsed_seconds_at(0).unwrap();
    assert!(secs >= 0);
}

#[test]
fn elapsed_time_formats() {
    let mut p = IndexingProgress::new(path(&["w"]));
    assert_eq!(p.elapsed_time_at(0), "Not started");
    assert_eq!(p.status_message_at(0), "Ready");
    p.start_indexing_at(0);
    assert_eq!(p.elapsed_time_at(59_999), "59s");
    assert_eq!(p.elapsed_time_at(61_000), "1m 1s");
    assert_eq!(p.elapsed_time_at(3_723_000), "1h 2m 3s");
    assert_eq!(p.status_message_at(5_000), "Indexing in progress - 5s");
    p.status_message = Some("Indexing".to_string());
    p.progress_percentage = Some(42);
    assert_eq!(p.status_message_at(5_000), "Indexing (42%) - 5s");
    p.progress_percentage = None;
    assert_eq!(p.status_message_at(5_000), "Indexing - 5s");
    p.complete_indexing_at(9_000);
    assert_eq!(p.status_message_at(99_000), "Indexing complete (9s)");
}

#[test]
fn pause_then_resume_accumulates_paused_seconds() {
    let mut p = IndexingProgress::new(path(&["w"]));
    p.start_indexing_at(10_000);
    p.pause_indexing_at(20_000);
    assert!(p.is_paused);
    assert_eq!(p.status_message_at(25_000), "Indexing paused - 10s");
    p.resume_indexing_at(32_500);
    assert!(!p.is_paused);
    assert_eq!(p.total_paused_time, 12);
    assert!(p.total_paused_time * 1000 <= 32_500 - 10_000);
    assert_eq!(p.elapsed_time_at(40_000), "18s");
}

#[test]
fn pause_and_resume_are_ignored_when_not_applicable() {
    let mut p = IndexingProgress::new(path(&["w"]));
    p.pause_indexing_at(5);
    assert!(!p.is_paused);
    p.start_indexing_at(0);
    p.resume_indexing_at(10_000);
    assert_eq!(p.total_paused_time, 0);
    p.pause_indexing_at(1_000);
    p.pause_indexing_at(2_000);
    assert_eq!(p.paused_at, Some(1_000));
}

#[test]
fn negative_elapsed_time_is_shown_in_seconds() {
    let mut p = IndexingProgress::new(path(&["w"]));
    p.start_indexing_at(10_000);
    assert_eq!(p.elapsed_time_at(7_500), "-2s");
}

#[test]
fn indexing_tokens() {
    assert!(indexing_token(&ProgressToken::String("rustAnalyzer/Indexing".to_string())));
    assert!(indexing_token(&ProgressToken::String("rustAnalyzer/cachePriming".to_string())));
    assert!(indexing_token(&ProgressToken::String("rustAnalyzer/Building".to_string())));
    assert!(!indexing_token(&ProgressToken::String("rustAnalyzer/Fetching".to_string())));
    assert!(!indexing_token(&ProgressToken::Number(3)));
}

#[test]
fn progress_reports_become_events() {
    let state = ClientState::new(path(&["w"]));
    let token = ProgressToken::String("rustAnalyzer/Indexing".to_string());
    let out = state.progress_at(
        &token,
        WorkDoneProgress::Report { message: Some("12/40".to_string()), percentage: Some(30) },
        1_000,
    );
    assert!(!out.signal_indexed);
    assert_eq!(out.notifications.len(), 2);
    match &out.notifications[0] {
        LspNotification::IndexingProgress(p) => {
            assert!(p.is_indexing);
            assert_eq!(p.status_message, Some("12/40".to_string()));
            assert_eq!(p.progress_percentage, Some(30));
            assert_eq!(p.started_at, Some(1_000));
        }
        _ => panic!("expected a progress event"),
    }
    assert!(matches!(out.notifications[1], LspNotification::Indexing { is_indexing: true, .. }));

    let end = state.progress_at(&token, WorkDoneProgress::End { message: None }, 2_000);
    assert!(end.signal_indexed);
    match &end.notifications[0] {
        LspNotification::IndexingProgress(p) => {
            assert!(!p.is_indexing);
            assert_eq!(p.progress_percentage, Some(100));
        }
        _ => panic!("expected a progress event"),
    }
    assert!(matches!(end.notifications[1], LspNotification::Indexing { is_indexing: false, .. }));

    let other = state.progress_at(
        &ProgressToken::Number(1),
        WorkDoneProgress::Begin { title: "x".to_string() },
        0,
    );
    assert!(other.notifications.is_empty());
    assert!(!other.signal_indexed);
}

#[test]
fn only_the_first_completion_releases_waiters() {
    let mut gate = IndexedGate::new();
    assert!(gate.must_wait());
    assert!(gate.on_completion());
    assert!(!gate.on_completion());
    assert!(!gate.must_wait());
    let events = initial_indexing_finished(&path(&["w"]), 0, 3_000);
    assert_eq!(events.len(), 2);
    match &events[0] {
        LspNotification::IndexingProgress(p) => assert_eq!(p.elapsed_time_at(0), "3s"),
        _ => panic!("expected a progress event"),
    }
}
