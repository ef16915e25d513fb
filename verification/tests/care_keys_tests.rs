use diskray::care_keys::{
    answer_key, approval_key, bar_key, clear_history_key, intake_key, help_key, legacy_process_key,
    AnswerStep, ApprovalStep, BarStep, ClearStep, ConfirmNote, Intake, LegacyStep, PlanReview, ReviewStep,
    Tab,
};
use diskray::screens::ProcessReview;
use diskray::shell::{Code, ShellKey};

fn key(code: Code) -> ShellKey {
    ShellKey { code, press: true, control: false, alt: false }
}

#[test]
fn the_intake_drops_keys_on_a_tiny_terminal_and_handles_control_c() {
    assert_eq!(intake_key(40, 24, key(Code::Down), false), Intake::Ignore);
    let ctrl_c = ShellKey { code: Code::Char('c'), press: true, control: true, alt: false };
    assert_eq!(intake_key(40, 24, ctrl_c, false), Intake::Quit);
    assert_eq!(intake_key(80, 24, ctrl_c, true), Intake::CancelWork);
    assert_eq!(intake_key(80, 24, key(Code::Char('j')), false), Intake::Pass { moved: true, clear_note: true });
    assert_eq!(intake_key(80, 24, key(Code::Char('?')), false), Intake::Pass { moved: false, clear_note: false });
    assert_eq!(intake_key(80, 24, key(Code::Char('z')), true), Intake::Pass { moved: false, clear_note: false });
    let release = ShellKey { code: Code::Down, press: false, control: false, alt: false };
    assert_eq!(intake_key(80, 24, release, false), Intake::Ignore);
}

#[test]
fn clearing_history_requires_the_word_and_a_writable_session() {
    let mut typed: Vec<char> = Vec::new();
    assert_eq!(clear_history_key(&mut typed, Code::Char('C'), true), ClearStep::Cancelled);
    assert!(typed.is_empty());
    for c in "CLEAR1X".chars() {
        assert_eq!(clear_history_key(&mut typed, Code::Char(c), false), ClearStep::Typing);
    }
    assert_eq!(typed, vec!['C', 'L', 'E', 'A', 'R']);
    assert_eq!(clear_history_key(&mut typed, Code::Enter, false), ClearStep::Clear);
    assert!(typed.is_empty());
    let mut wrong = vec!['c', 'l', 'e', 'a', 'r'];
    assert_eq!(clear_history_key(&mut wrong, Code::Enter, false), ClearStep::Typing);
    assert_eq!(clear_history_key(&mut wrong, Code::Esc, false), ClearStep::Cancelled);
    assert!(wrong.is_empty());
}

#[test]
fn the_plan_review_toggles_acknowledgements_and_runs() {
    let mut r = PlanReview {
        typed: Vec::new(),
        signals_ack: false,
        moves_ack: false,
        has_review_clean: false,
        has_signal: true,
        has_move: false,
        scroll: 0,
    };
    assert_eq!(r.handle_key(Code::Char('s'), false, false), ReviewStep::SignalsNote);
    assert!(r.signals_ack);
    assert_eq!(r.handle_key(Code::Char('m'), false, false), ReviewStep::Stay);
    assert_eq!(r.typed, vec!['m']);
    r.handle_key(Code::PageDown, false, false);
    assert_eq!(r.scroll, 1);
    assert_eq!(r.handle_key(Code::Enter, false, false), ReviewStep::Refused(ConfirmNote::TypeApply));
    r.typed = vec!['A', 'P', 'P', 'L', 'Y'];
    assert_eq!(r.handle_key(Code::Enter, false, false), ReviewStep::Execute);
    r.clear_plan();
    assert!(!r.signals_ack && r.typed.is_empty());
    r.typed = vec!['a'];
    assert_eq!(r.handle_key(Code::Esc, false, false), ReviewStep::Leave);
    assert!(r.typed.is_empty());
}

#[test]
fn the_bar_moves_within_its_screens() {
    assert_eq!(bar_key(Tab::Overview, Code::Left), BarStep::GoTo(Tab::Overview));
    assert_eq!(bar_key(Tab::Overview, Code::Down), BarStep::GoTo(Tab::Explore));
    assert_eq!(bar_key(Tab::History, Code::Right), BarStep::GoTo(Tab::History));
    assert_eq!(bar_key(Tab::History, Code::Up), BarStep::GoTo(Tab::Explore));
    assert_eq!(bar_key(Tab::Explore, Code::Esc), BarStep::FocusList);
    assert_eq!(bar_key(Tab::Explore, Code::Char('q')), BarStep::Quit);
}

#[test]
fn the_retained_process_list_adds_only_permitted_signals() {
    let mut p = ProcessReview { cursor: 0, may_signal: vec![false, true], target: None };
    assert_eq!(legacy_process_key(&mut p, key(Code::Char('d')), true, false), LegacyStep::Stay);
    assert_eq!(legacy_process_key(&mut p, key(Code::Down), true, false), LegacyStep::Stay);
    assert_eq!(p.cursor, 1);
    assert_eq!(legacy_process_key(&mut p, key(Code::Char('x')), true, true), LegacyStep::Stay);
    assert_eq!(
        legacy_process_key(&mut p, key(Code::Char('x')), true, false),
        LegacyStep::AddSignal { index: 1, kill: true }
    );
    assert_eq!(legacy_process_key(&mut p, key(Code::Esc), false, false), LegacyStep::Unclaimed);
    assert_eq!(legacy_process_key(&mut p, key(Code::Tab), true, false), LegacyStep::Stay);
}

#[test]
fn help_approval_and_answers() {
    let mut scroll: u16 = 3;
    assert!(!help_key(&mut scroll, Code::PageUp));
    assert_eq!(scroll, 0);
    assert!(help_key(&mut scroll, Code::Char('?')));
    assert_eq!(approval_key(&mut scroll, Code::Char('a')), ApprovalStep::Approve);
    assert_eq!(approval_key(&mut scroll, Code::Esc), ApprovalStep::Decline);
    assert_eq!(approval_key(&mut scroll, Code::Down), ApprovalStep::Stay);
    assert_eq!(scroll, 1);
    let (step, picked) = answer_key(&mut scroll, Code::Char('2'), "Why is my disk almost full?");
    assert_eq!(step, AnswerStep::FollowUp);
    assert_eq!(picked, Some("Which caches can I clear safely?"));
    assert_eq!(answer_key(&mut scroll, Code::Left, "").0, AnswerStep::Close);
    assert_eq!(scroll, 0);
    assert_eq!(answer_key(&mut scroll, Code::Char('z'), "").0, AnswerStep::Rest);
}
