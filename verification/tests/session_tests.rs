use diskray::session::{
    start_location_index, CleanupKind, CleanupSession, CleanupStats, Effect, EntryState,
    EntryStatus, Key, KeyInput, Mode, Outcome, Phase,
};

fn press(k: Key) -> KeyInput {
    KeyInput { key: k, press: true, control: false, alt: false }
}

fn entry(status: EntryStatus, size_kb: u64) -> EntryState {
    EntryState { status, size_kb, cleaned: false }
}

/// A session as the command line starts it: `--analyze`, `--clean`, or
/// neither.
fn session(analyze: bool, clean: bool, volume_requested: bool) -> CleanupSession {
    let mode = if clean { Mode::Clean } else { Mode::Analyze };
    CleanupSession::new(mode, analyze, false, 3, 1, volume_requested)
}

#[test]
fn selection_only_includes_ready_nonempty_entries() {
    let mut app = session(false, true, false);
    app.entries = vec![entry(EntryStatus::Ready, 10)];
    assert!(app.is_selectable(0));
    app.entries[0].size_kb = 0;
    assert!(!app.is_selectable(0));
    app.entries[0].size_kb = 10;
    app.entries[0].status = EntryStatus::InUse;
    assert!(!app.is_selectable(0));
    app.entries[0].status = EntryStatus::Review;
    assert!(!app.is_selectable(0));
}

#[test]
fn location_picker_defaults_to_the_local_startup_volume() {
    let locations = vec!["/Users/me".to_string(), "/".to_string(), "/Volumes/USB".to_string()];
    assert_eq!(start_location_index(&locations, None), 1);
    assert_eq!(start_location_index(&locations, Some("/Volumes/USB/")), 2);
    assert_eq!(start_location_index(&locations, Some("/Volumes/Other")), 1);
    assert_eq!(start_location_index(&vec!["/Users/me".to_string()], None), 0);
}

#[test]
fn completed_scan_hides_missing_candidates() {
    let mut app = session(true, false, true);
    app.record_scan_entry(entry(EntryStatus::Missing, 0));
    app.record_scan_entry(entry(EntryStatus::Ready, 0));
    app.finish_scan();
    assert_eq!(app.phase, Phase::Review);
    assert!(app.entries.is_empty());
}

#[test]
fn scan_keeps_problem_entries_and_lists_largest_first() {
    let mut app = session(false, false, true);
    app.record_scan_entry(entry(EntryStatus::Ready, 5));
    app.record_scan_entry(entry(EntryStatus::Symlink, 0));
    app.record_scan_entry(entry(EntryStatus::Review, 50));
    app.record_scan_entry(entry(EntryStatus::Optional, 5));
    app.finish_scan();
    let sizes: Vec<u64> = app.entries.iter().map(|e| e.size_kb).collect();
    assert_eq!(sizes, vec![50, 5, 5, 0]);
    assert_eq!(app.entries[1].status, EntryStatus::Ready);
    assert_eq!(app.entries[2].status, EntryStatus::Optional);
    assert_eq!(app.identified_kb(), 60);
    assert_eq!(app.ready_kb(), 5);
    assert_eq!(app.optional_kb(), 5);
    assert_eq!(app.review_kb(), 50);
}

#[test]
fn completed_summary_closes_after_the_grace_period() {
    let mut app = session(false, true, false);
    app.phase = Phase::Summary;
    assert!(!app.summary_has_timed_out(Some(0)));
    assert!(app.summary_has_timed_out(Some(5_001)));
    assert!(!app.summary_has_timed_out(None));
}

#[test]
fn completed_summary_can_be_closed_immediately() {
    let mut app = session(false, true, false);
    app.phase = Phase::Summary;
    app.handle_key(press(Key::Enter));
    assert!(app.quit);
}

#[test]
fn escape_cancels_scan_and_returns_to_location_picker() {
    let mut app = session(true, false, true);
    assert_eq!(app.phase, Phase::Scanning);
    app.entries.push(entry(EntryStatus::Ready, 10));
    let effect = app.handle_key(press(Key::Esc));
    assert_eq!(app.phase, Phase::Location);
    assert!(!app.quit);
    assert!(app.entries.is_empty());
    assert_eq!(effect, Effect::CancelScan);
}

#[test]
fn enter_opens_and_closes_details_without_quitting_analyze_mode() {
    let mut app = session(true, false, false);
    app.entries = vec![entry(EntryStatus::Ready, 10)];
    app.phase = Phase::Review;
    app.handle_key(press(Key::Enter));
    assert_eq!(app.phase, Phase::Details);
    assert!(!app.quit);
    app.handle_key(press(Key::Enter));
    assert_eq!(app.phase, Phase::Review);
    assert!(!app.quit);
}

#[test]
fn enter_still_opens_confirmation_when_cleanup_items_are_selected() {
    let mut app = session(false, true, false);
    app.entries = vec![entry(EntryStatus::Ready, 10)];
    app.select(0);
    app.phase = Phase::Review;
    app.handle_key(press(Key::Enter));
    assert_eq!(app.phase, Phase::Confirm);
    assert!(!app.quit);
}

#[test]
fn default_tui_can_prepare_all_safe_items_without_a_restart() {
    let mut app = session(false, false, false);
    app.entries = vec![
        entry(EntryStatus::Ready, 10),
        entry(EntryStatus::InUse, 20),
        entry(EntryStatus::Review, 30),
    ];
    app.phase = Phase::Details;
    app.handle_key(press(Key::Char('c')));
    assert_eq!(app.mode, Mode::Clean);
    assert_eq!(app.phase, Phase::Confirm);
    assert_eq!(app.selected_indices(), vec![0]);
}

#[test]
fn explicit_analyze_mode_keeps_safe_cleanup_locked() {
    let mut app = session(true, false, false);
    app.entries = vec![entry(EntryStatus::Ready, 10)];
    app.phase = Phase::Review;
    app.handle_key(press(Key::Char('c')));
    assert_eq!(app.mode, Mode::Analyze);
    assert_eq!(app.phase, Phase::Review);
    assert!(app.selected_indices().is_empty());
}

#[test]
fn default_tui_shows_and_accepts_review_deletion_shortcut() {
    let mut app = session(false, false, false);
    app.entries = vec![entry(EntryStatus::Review, 10)];
    app.phase = Phase::Details;
    let rendered: Vec<String> =
        app.footer_commands().iter().map(|(k, label)| format!("{k} {label}")).collect();
    assert!(rendered.iter().any(|c| c == "d advanced delete"));
    assert!(rendered.iter().any(|c| c == "c clean all safe"));
    assert!(rendered.iter().any(|c| c == "o reveal in Finder"));
    app.handle_key(press(Key::Char('d')));
    assert_eq!(app.mode, Mode::Clean);
    assert_eq!(app.phase, Phase::ReviewConfirm);
    assert_eq!(app.review_target, Some(0));
}

#[test]
fn review_deletion_requires_clean_mode_and_typed_confirmation() {
    let mut app = session(false, true, false);
    app.entries = vec![entry(EntryStatus::Review, 10)];
    app.phase = Phase::Review;
    app.handle_key(press(Key::Char('d')));
    assert_eq!(app.phase, Phase::ReviewConfirm);
    assert_eq!(app.review_target, Some(0));
    for character in "delete".chars() {
        app.handle_key(press(Key::Char(character)));
    }
    let effect = app.handle_key(press(Key::Enter));
    assert_eq!(app.phase, Phase::Cleaning);
    assert_eq!(app.cleanup_kind, CleanupKind::ReviewData);
    assert_eq!(app.cleanup_queue, vec![0]);
    assert_eq!(effect, Effect::BeginCleanup);
}

#[test]
fn review_deletion_is_unavailable_in_analyze_mode() {
    let mut app = session(true, false, false);
    app.entries = vec![entry(EntryStatus::Review, 10)];
    app.phase = Phase::Review;
    app.handle_key(press(Key::Char('d')));
    assert_eq!(app.phase, Phase::Review);
    assert_eq!(app.review_target, None);
}

#[test]
fn a_wrong_word_is_refused_and_typing_stops_at_six_bytes() {
    let mut app = session(false, true, false);
    app.entries = vec![entry(EntryStatus::Review, 10)];
    app.phase = Phase::Review;
    app.handle_key(press(Key::Char('d')));
    for character in "delta".chars() {
        app.handle_key(press(Key::Char(character)));
    }
    app.handle_key(press(Key::Enter));
    assert!(app.confirmation_error);
    assert_eq!(app.phase, Phase::ReviewConfirm);
    app.handle_key(press(Key::Char('x')));
    app.handle_key(press(Key::Char('y')));
    assert_eq!(app.confirmation.iter().collect::<String>(), "DELTAX");
    app.handle_key(press(Key::Backspace));
    assert_eq!(app.confirmation.iter().collect::<String>(), "DELTA");
    app.handle_key(press(Key::Esc));
    assert_eq!(app.phase, Phase::Review);
    assert_eq!(app.review_target, None);
}

#[test]
fn toggling_and_cleaning_follow_the_selection_order() {
    let mut app = session(false, true, false);
    app.entries = vec![
        entry(EntryStatus::Ready, 10),
        entry(EntryStatus::Ready, 20),
        entry(EntryStatus::InUse, 30),
    ];
    app.phase = Phase::Review;
    app.cursor = 1;
    app.handle_key(press(Key::Char(' ')));
    assert_eq!(app.selected_indices(), vec![1]);
    assert_eq!(app.selected_kb(), 20);
    app.handle_key(press(Key::Char('a')));
    assert_eq!(app.selected_indices(), vec![0, 1]);
    app.handle_key(press(Key::Char('a')));
    assert!(app.selected_indices().is_empty());
    app.handle_key(press(Key::Char('a')));
    app.handle_key(press(Key::Enter));
    assert_eq!(app.phase, Phase::Confirm);
    let effect = app.handle_key(press(Key::Char('y')));
    assert_eq!(effect, Effect::BeginCleanup);
    assert_eq!(app.cleanup_queue, vec![0, 1]);
    assert_eq!(app.cleanup_kind, CleanupKind::Cache);
    app.cleanup_index = 1;
    let stop = app.handle_key(KeyInput { key: Key::Char('c'), press: true, control: true, alt: false });
    assert_eq!(stop, Effect::FinishCleanup);
    assert!(app.stopped_early);
    assert_eq!(app.cleanup_queue, vec![0]);
    assert_eq!(app.phase, Phase::Summary);
}

#[test]
fn location_keys_move_within_the_list_and_choose() {
    let mut app = session(false, false, false);
    app.handle_key(press(Key::Down));
    app.handle_key(press(Key::Down));
    app.handle_key(press(Key::Down));
    assert_eq!(app.location_cursor, 2);
    app.handle_key(press(Key::Home));
    assert_eq!(app.location_cursor, 0);
    let effect = app.handle_key(press(Key::Enter));
    assert_eq!(effect, Effect::ChooseLocation(0));
    assert_eq!(app.phase, Phase::Scanning);
    let released = KeyInput { key: Key::Esc, press: false, control: false, alt: false };
    assert_eq!(app.handle_key(released), Effect::Nothing);
    assert_eq!(app.phase, Phase::Scanning);
}

#[test]
fn footer_lists_the_commands_of_the_entry_under_the_cursor() {
    let mut app = session(false, false, false);
    app.entries = vec![
        entry(EntryStatus::Ready, 10),
        entry(EntryStatus::Optional, 10),
        entry(EntryStatus::Review, 10),
        entry(EntryStatus::InUse, 10),
    ];
    app.selected = vec![false; 4];
    app.phase = Phase::Review;
    app.cursor = 0;
    let keys = |app: &CleanupSession| -> Vec<&str> { app.footer_commands().iter().map(|c| c.0).collect() };
    assert_eq!(keys(&app), ["space", "d", "c", "↵", "o", "q"]);
    app.cursor = 1;
    assert!(app.current_is_optional());
    assert_eq!(app.footer_commands()[0], ("d", "opt in"));
    app.cursor = 2;
    assert_eq!(app.footer_commands()[0], ("d", "advanced delete"));
    app.cursor = 3;
    assert_eq!(keys(&app), ["m", "c", "↵", "r", "q"]);
    app.mode = Mode::Clean;
    assert_eq!(keys(&app), ["↑↓", "space", "a", "↵", "q"]);
    app.analysis_only = true;
    assert_eq!(app.footer_commands()[4], ("q", "quit"));
    assert_eq!(app.footer_commands()[1], ("↵", "details"));
    app.phase = Phase::Details;
    assert_eq!(app.footer_commands()[0], ("esc", "back"));
    app.phase = Phase::Scanning;
    assert!(app.footer_commands().is_empty());
}

#[test]
fn cleaning_footer_names_what_is_deleted() {
    let mut app = session(false, true, false);
    app.phase = Phase::Cleaning;
    assert_eq!(app.cleaning_title(), " CLEANING • Esc/q stops after the current item ");
    app.cleanup_kind = CleanupKind::ReviewData;
    assert_eq!(app.cleaning_title(), " DELETING REVIEW DATA • Esc/q stops after the current item ");
    app.stopped_early = true;
    assert_eq!(app.cleaning_title(), " STOP REQUESTED • finishing the current item ");
}

#[test]
fn cleaning_the_queue_counts_each_outcome() {
    let mut app = session(false, true, false);
    app.entries = vec![entry(EntryStatus::Ready, 10), entry(EntryStatus::Ready, 20), entry(EntryStatus::Ready, 30)];
    app.cleanup_queue = vec![0, 2, 1];
    app.phase = Phase::Cleaning;
    let mut stats = CleanupStats::new();
    assert_eq!(app.next_to_clean(), Some(0));
    app.entry_cleaned(&mut stats, Outcome::Cleared(10));
    assert_eq!(app.next_to_clean(), Some(2));
    app.entry_cleaned(&mut stats, Outcome::SafetySkipped);
    app.entry_cleaned(&mut stats, Outcome::Failed(5));
    assert_eq!(app.next_to_clean(), None);
    assert!(app.entries.iter().all(|e| e.cleaned));
    assert!(!app.is_selectable(0));
    assert_eq!((stats.cleared, stats.safety_skipped, stats.failed), (1, 1, 1));
    assert_eq!(stats.measured_removed_kb, 15);
    app.cleanup_finished(&mut stats, 100, 90);
    assert_eq!(stats.filesystem_change_kb, 0);
    app.cleanup_finished(&mut stats, 100, 140);
    assert_eq!(stats.filesystem_change_kb, 40);
    assert_eq!(app.phase, Phase::Summary);
}

#[test]
fn locations_that_cannot_be_measured_are_recorded_as_they_are() {
    let mut app = session(false, false, true);
    assert!(app.scan_location(EntryStatus::Ready));
    assert!(app.scan_location(EntryStatus::Review));
    assert!(app.entries.is_empty());
    assert!(!app.scan_location(EntryStatus::Missing));
    assert!(app.entries.is_empty());
    assert!(!app.scan_location(EntryStatus::Symlink));
    assert!(!app.scan_location(EntryStatus::ScanError));
    assert_eq!(app.entries.len(), 2);
    assert_eq!(app.entries[0].status, EntryStatus::Symlink);
    assert_eq!(app.entries[1].size_kb, 0);
}

#[test]
fn deleting_the_current_entry_chooses_only_that_entry() {
    let mut app = session(false, false, false);
    app.entries = vec![
        entry(EntryStatus::Ready, 10),
        entry(EntryStatus::Optional, 10),
        entry(EntryStatus::InUse, 10),
        entry(EntryStatus::Review, 10),
    ];
    app.selected = vec![true, false, false, false];
    app.phase = Phase::Review;
    app.cursor = 1;
    assert!(app.is_direct_cleanup_candidate(1));
    app.prepare_current_cleanup();
    assert_eq!(app.mode, Mode::Clean);
    assert_eq!(app.phase, Phase::Confirm);
    assert_eq!(app.selected, vec![false, true, false, false]);
    app.phase = Phase::Review;
    app.cursor = 2;
    app.prepare_current_cleanup();
    assert_eq!(app.phase, Phase::Review);
    app.cursor = 3;
    app.prepare_current_cleanup();
    assert_eq!(app.phase, Phase::ReviewConfirm);
    assert_eq!(app.review_target, Some(3));
}

#[test]
fn a_stop_request_ends_the_queue_unless_a_worker_is_running() {
    let mut app = session(false, true, false);
    app.cleanup_queue = vec![0, 1];
    app.phase = Phase::Cleaning;
    assert!(app.request_stop(true));
    assert!(app.stopped_early);
    assert_eq!(app.cleanup_queue, vec![0, 1]);
    assert!(!app.request_stop(false));
    assert!(app.cleanup_queue.is_empty());
}
