use diskray::assistant::{palette_key, palette_matches, PaletteInput, PALETTE_LEN};
use diskray::care_keys::{
    approval_step_note, bar_key, clear_history_key, help_key, intake_key, intake_note,
    review_step_note, ApprovalStep, BarStep, ClearStep, ConfirmNote, Intake, PlanCheck,
    PlanReview, ReviewStep, Tab,
};
use diskray::care_workspace::{
    layer_for, note_for, palette_code, workspace_key, working_key, Action, Layer, WorkspaceFacts,
    WorkspaceState,
};
use diskray::shell::{Code, ShellKey};

fn fresh_workspace() -> WorkspaceState {
    WorkspaceState {
        screen: Tab::Overview,
        bar_focus: false,
        detail: false,
        coverage: false,
        help: false,
        clearing_history: false,
        reviewing: false,
        legacy: false,
        detail_scroll: 0,
        show_all: false,
        motion: false,
        cursor: 0,
        explorer_cursor: 0,
        history_cursor: 0,
    }
}

fn fixture_facts() -> WorkspaceFacts {
    WorkspaceFacts {
        analysis_only: false,
        working: false,
        palette_open: false,
        asking_open: false,
        awaiting_approval: false,
        answer_open: false,
        plan_empty: true,
        visible_len: 1,
        explorer_len: 0,
        history_len: 0,
        has_selection: true,
        explore_item_is_file: false,
        investigating: false,
        automatic_investigation: false,
        model_ready: false,
        width: 120,
    }
}

fn empty_review() -> PlanReview {
    PlanReview {
        typed: Vec::new(),
        signals_ack: false,
        moves_ack: false,
        has_review_clean: false,
        has_signal: false,
        has_move: false,
        scroll: 0,
    }
}

/// The parts of the workspace a test drives.
struct Desk {
    s: WorkspaceState,
    facts: WorkspaceFacts,
    palette: Option<PaletteInput>,
    review: PlanReview,
    clear_word: Vec<char>,
    plan: Vec<&'static str>,
    history_cleared: bool,
    ran: bool,
}

fn desk() -> Desk {
    Desk {
        s: fresh_workspace(),
        facts: fixture_facts(),
        palette: None,
        review: empty_review(),
        clear_word: Vec::new(),
        plan: Vec::new(),
        history_cleared: false,
        ran: false,
    }
}

/// One key through the workspace's layers, doing what each step asks.
fn press(d: &mut Desk, code: Code) -> Action {
    d.facts.palette_open = d.palette.is_some();
    d.facts.plan_empty = d.plan.is_empty();
    match layer_for(&d.s, &d.facts, code) {
        Layer::Palette => match palette_key(&mut d.palette, code) {
            Some(sent) => press(d, palette_code(sent)),
            None => Action::Stay,
        },
        Layer::Help => {
            if help_key(&mut d.s.detail_scroll, code) {
                d.s.help = false;
            }
            Action::Stay
        }
        Layer::Bar => {
            match bar_key(d.s.screen, code) {
                BarStep::FocusList => d.s.bar_focus = false,
                BarStep::GoTo(t) => d.s.screen = t,
                BarStep::Quit => return Action::Quit,
                BarStep::Stay => {}
            }
            Action::Stay
        }
        Layer::Reviewing => {
            match d.review.handle_key(code, d.facts.analysis_only, d.plan.is_empty()) {
                ReviewStep::Leave => d.s.reviewing = false,
                ReviewStep::ClearPlan => {
                    d.plan.clear();
                    d.s.reviewing = false;
                }
                ReviewStep::Execute => {
                    d.ran = true;
                    d.s.reviewing = false;
                }
                _ => {}
            }
            Action::Stay
        }
        Layer::StartClearingHistory => {
            d.s.start_clearing_history(&mut d.clear_word);
            Action::Stay
        }
        Layer::ClearingHistory => {
            match clear_history_key(&mut d.clear_word, code, d.facts.analysis_only) {
                ClearStep::Clear => {
                    d.history_cleared = true;
                    d.s.clearing_history = false;
                }
                ClearStep::Cancelled => d.s.clearing_history = false,
                ClearStep::Typing => {}
            }
            Action::Stay
        }
        Layer::Dropped | Layer::Working => Action::Stay,
        Layer::Main => {
            let action = workspace_key(&mut d.s, &mut d.review, &d.facts, code);
            match action {
                Action::OpenPalette => {
                    d.palette = Some(PaletteInput { query: Vec::new(), cursor: 0 })
                }
                Action::AddSelected { .. } => d.plan.push("clean"),
                _ => {}
            }
            action
        }
        other => panic!("unexpected layer {:?}", other),
    }
}

fn key(code: Code) -> ShellKey {
    ShellKey { code, press: true, control: false, alt: false }
}

#[test]
fn command_palette_filters_and_runs_the_chosen_command() {
    let mut d = desk();
    assert_eq!(press(&mut d, Code::Char(':')), Action::OpenPalette);
    assert!(d.palette.is_some());
    for c in "hist".chars() {
        assert_eq!(press(&mut d, Code::Char(c)), Action::Stay);
    }
    assert_eq!(palette_matches("hist").len(), 1);
    assert_eq!(palette_matches("hist")[0].label, "Go to History");
    assert_eq!(press(&mut d, Code::Enter), Action::GoTo(Tab::History));
    assert!(d.palette.is_none());
    assert_eq!(d.s.screen, Tab::History);
    // Typing never triggers single-letter commands while the palette is open.
    press(&mut d, Code::Char(':'));
    assert_eq!(press(&mut d, Code::Char('q')), Action::Stay);
    assert_eq!(d.palette.as_ref().map(|p| p.query.clone()), Some(vec!['q']));
    assert_eq!(press(&mut d, Code::Esc), Action::Stay);
    assert!(d.palette.is_none());
    assert!(palette_matches("zzz").is_empty());
    assert_eq!(palette_matches("").len(), PALETTE_LEN);
    assert_eq!(press(&mut d, Code::Char('q')), Action::Quit);
}

#[test]
fn review_requires_exact_phrase_and_tiny_terminal_blocks_hidden_confirmation() {
    let mut d = desk();
    assert_eq!(press(&mut d, Code::Char(' ')), Action::AddSelected { force: false });
    assert_eq!(d.plan.len(), 1);
    press(&mut d, Code::Char('p'));
    assert!(d.s.reviewing);
    assert_eq!(
        d.review.handle_key(Code::Enter, false, false),
        ReviewStep::Refused(ConfirmNote::TypeClean)
    );
    press(&mut d, Code::Enter);
    assert!(!d.ran);
    d.review.typed = "CLEAN".chars().collect();
    // A 40-column terminal drops the Enter before any layer sees it.
    assert_eq!(intake_key(40, 24, key(Code::Enter), false), Intake::Ignore);
    assert!(!d.ran);
    assert!(matches!(intake_key(40, 24, key(Code::Esc), false), Intake::Pass { .. }));
    press(&mut d, Code::Esc);
    assert!(!d.s.reviewing);
    assert_eq!(d.plan.len(), 1);
}

#[test]
fn a_confirmed_plan_runs_and_p_forgets_the_confirmation() {
    let mut d = desk();
    press(&mut d, Code::Char(' '));
    press(&mut d, Code::Char('p'));
    for c in "CLEAN".chars() {
        press(&mut d, Code::Char(c));
    }
    assert_eq!(d.review.check(false, false), PlanCheck::Run);
    press(&mut d, Code::Enter);
    assert!(d.ran);
    d.review.signals_ack = true;
    press(&mut d, Code::Char('p'));
    assert!(d.review.typed.is_empty() && !d.review.signals_ack && !d.review.moves_ack);
}

#[test]
fn the_plan_check_asks_for_the_right_word_and_acknowledgements() {
    let mut r = empty_review();
    r.has_review_clean = true;
    r.has_signal = true;
    r.typed = "APPLY".chars().collect();
    assert_eq!(r.check(false, false), PlanCheck::Refused(ConfirmNote::TypeDelete));
    assert_eq!(ConfirmNote::TypeDelete.text(), "Type DELETE to confirm these exact actions.");
    r.typed = "DELETE".chars().collect();
    assert_eq!(r.check(false, false), PlanCheck::Refused(ConfirmNote::AcknowledgeSignals));
    assert_eq!(
        ConfirmNote::AcknowledgeSignals.text(),
        "Press s in review to acknowledge the process-signal consequences."
    );
    r.signals_ack = true;
    assert_eq!(r.check(false, false), PlanCheck::Run);
    assert_eq!(r.check(true, false), PlanCheck::Idle);
    assert_eq!(r.check(false, true), PlanCheck::Idle);
    assert_eq!(r.handle_key(Code::Enter, true, false), ReviewStep::Stay);
    let mut m = empty_review();
    m.has_move = true;
    m.typed = "APPLY".chars().collect();
    assert_eq!(m.check(false, false), PlanCheck::Refused(ConfirmNote::AcknowledgeMoves));
    assert_eq!(m.handle_key(Code::Char('m'), false, false), ReviewStep::MovesNote);
    assert_eq!(m.handle_key(Code::Enter, false, false), ReviewStep::Execute);
    m.typed = "CLEAN".chars().collect();
    assert_eq!(m.check(false, false), PlanCheck::Refused(ConfirmNote::TypeApply));
    assert_eq!(m.handle_key(Code::Delete, false, false), ReviewStep::ClearPlan);
    assert!(m.typed.is_empty() && !m.moves_ack);
}

#[test]
fn history_opens_results_and_navigation_closes_them() {
    let mut d = desk();
    d.facts.history_len = 1;
    press(&mut d, Code::Char('3'));
    assert_eq!(d.s.screen, Tab::History);
    press(&mut d, Code::Enter);
    assert!(d.s.detail);
    press(&mut d, Code::Esc);
    assert!(!d.s.detail);
}

#[test]
fn help_is_scrollable_and_captures_actions_and_navigation_clicks() {
    let mut d = desk();
    press(&mut d, Code::Char('?'));
    assert!(d.s.help);
    press(&mut d, Code::Char(' '));
    assert!(d.plan.is_empty());
    assert!(d.s.help);
    assert_eq!(d.s.screen, Tab::Overview);
    press(&mut d, Code::PageDown);
    assert_eq!(d.s.detail_scroll, 5);
    press(&mut d, Code::Esc);
    assert!(!d.s.help);
}

#[test]
fn coverage_never_queues_an_action_for_a_hidden_finding() {
    let mut d = desk();
    press(&mut d, Code::Char('v'));
    assert!(d.s.coverage);
    assert_eq!(press(&mut d, Code::Char(' ')), Action::Stay);
    assert!(d.plan.is_empty());
    press(&mut d, Code::Esc);
    assert!(!d.s.coverage);
}

#[test]
fn menu_focus_never_adds_actions_and_read_only_stays_locked() {
    let mut d = desk();
    d.s.bar_focus = true;
    press(&mut d, Code::Char(' '));
    assert!(d.plan.is_empty());
    press(&mut d, Code::Tab);
    press(&mut d, Code::Char(' '));
    assert_eq!(d.plan.len(), 1);
    d.plan.clear();
    d.facts.analysis_only = true;
    assert_eq!(press(&mut d, Code::Char(' ')), Action::Locked);
    assert!(d.plan.is_empty());
}

#[test]
fn clearing_history_requires_a_separate_phrase_and_writable_session() {
    let mut d = desk();
    d.s.screen = Tab::History;
    press(&mut d, Code::Delete);
    assert!(d.s.clearing_history);
    press(&mut d, Code::Enter);
    assert!(!d.history_cleared);
    for c in "CLEAR".chars() {
        press(&mut d, Code::Char(c));
    }
    press(&mut d, Code::Enter);
    assert!(d.history_cleared);
    d.history_cleared = false;
    d.facts.analysis_only = true;
    press(&mut d, Code::Delete);
    assert!(!d.s.clearing_history);
    assert!(!d.history_cleared);
}

#[test]
fn the_layers_are_tried_in_order() {
    let mut s = fresh_workspace();
    let mut f = fixture_facts();
    f.working = true;
    s.help = true;
    assert_eq!(layer_for(&s, &f, Code::Esc), Layer::Working);
    f.working = false;
    f.palette_open = true;
    assert_eq!(layer_for(&s, &f, Code::Esc), Layer::Help);
    s.help = false;
    assert_eq!(layer_for(&s, &f, Code::Esc), Layer::Palette);
    f.palette_open = false;
    s.legacy = true;
    assert_eq!(layer_for(&s, &f, Code::Esc), Layer::Legacy);
    s.legacy = false;
    s.screen = Tab::History;
    f.awaiting_approval = true;
    assert_eq!(layer_for(&s, &f, Code::Char('i')), Layer::Dropped);
    assert_eq!(layer_for(&s, &f, Code::Char('a')), Layer::Approval);
    f.awaiting_approval = false;
    f.answer_open = true;
    assert_eq!(layer_for(&s, &f, Code::Char('2')), Layer::Answer);
    assert_eq!(layer_for(&s, &f, Code::Char('q')), Layer::Main);
}

#[test]
fn the_workspace_table_moves_screens_lists_and_details() {
    let mut d = desk();
    d.facts.visible_len = 3;
    press(&mut d, Code::Down);
    press(&mut d, Code::Char('j'));
    press(&mut d, Code::Char('j'));
    assert_eq!(d.s.cursor, 2);
    press(&mut d, Code::Up);
    assert_eq!(d.s.cursor, 1);
    assert_eq!(press(&mut d, Code::Tab), Action::GoTo(Tab::Explore));
    assert_eq!(press(&mut d, Code::BackTab), Action::GoTo(Tab::Overview));
    assert_eq!(press(&mut d, Code::BackTab), Action::GoTo(Tab::History));
    press(&mut d, Code::Char('2'));
    assert_eq!(press(&mut d, Code::Enter), Action::OpenItem);
    d.facts.explore_item_is_file = true;
    assert_eq!(press(&mut d, Code::Enter), Action::Stay);
    assert!(d.s.detail);
    assert_eq!(press(&mut d, Code::Char('f')), Action::RuleForItem);
    assert_eq!(press(&mut d, Code::Char('i')), Action::Measure);
    press(&mut d, Code::Esc);
    assert!(!d.s.detail);
    assert_eq!(press(&mut d, Code::Esc), Action::ExplorerBack);
    press(&mut d, Code::Char('1'));
    d.facts.width = 80;
    assert_eq!(press(&mut d, Code::Char('i')), Action::Investigate);
    assert!(d.s.detail);
    d.plan.push("clean");
    assert_eq!(press(&mut d, Code::Char('r')), Action::PlanPending);
    d.facts.analysis_only = true;
    assert_eq!(press(&mut d, Code::Char('a')), Action::ReadOnly);
    assert_eq!(press(&mut d, Code::Char('m')), Action::Stay);
    assert_eq!(press(&mut d, Code::Char('/')), Action::AskUnavailable);
    press(&mut d, Code::PageDown);
    assert_eq!(d.s.detail_scroll, 5);
}

#[test]
fn the_workspace_words_its_notes() {
    assert_eq!(note_for(Action::Locked), Some("This session is locked read-only."));
    assert_eq!(
        note_for(Action::PlanPending),
        Some("Review or clear the pending plan before rechecking.")
    );
    assert_eq!(note_for(Action::Quit), None);
    assert_eq!(
        working_key(Code::Esc),
        Some("Stop requested. Waiting for the current action to finish safely.")
    );
    assert_eq!(working_key(Code::Char(' ')), None);
    let mut r = empty_review();
    r.has_signal = true;
    let step = r.handle_key(Code::Char('s'), false, false);
    assert_eq!(
        review_step_note(step, &r),
        Some("Process-signal consequences acknowledged for this exact plan.")
    );
    let step = r.handle_key(Code::Char('s'), false, false);
    assert_eq!(review_step_note(step, &r), Some("Process-signal acknowledgment removed."));
    let step = r.handle_key(Code::Enter, false, false);
    assert_eq!(review_step_note(step, &r), Some("Type APPLY to confirm these exact actions."));
    assert_eq!(
        approval_step_note(ApprovalStep::Decline),
        Some("Administrator-assisted tracing skipped. The case will continue with other evidence.")
    );
    assert_eq!(intake_note(Intake::CancelWork), Some("Stopping after the current action finishes."));
    assert_eq!(intake_note(Intake::Quit), None);
}
