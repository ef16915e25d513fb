//! The key layers of the care workspace, each over its own small state:
//! the intake every key passes first (terminal size, key-up events, Control-C),
//! the retained process list, the help, the typed word that clears the
//! history, the review of a plan before it runs, the navigation bar, an
//! approval request and an open answer. The program keeps the layers'
//! order and runs what each step asks for.
use vstd::prelude::*;
use crate::assistant::{follow_up_for_digit, follow_up_pick};
use crate::layout::{MIN_HEIGHT, MIN_WIDTH};
use crate::screens::{down_rows, ProcessReview, ProcessReviewView};
use crate::shell::{Code, ShellKey};
use crate::text::{chars_eq, chars_of};

verus! {

/// `char::is_ascii_alphabetic`.
pub open spec fn ascii_alpha(c: char) -> bool {
    ('a' <= c && c <= 'z') || ('A' <= c && c <= 'Z')
}

fn is_ascii_alpha(c: char) -> (res: bool)
    ensures
        res == ascii_alpha(c),
{
    ('a' <= c && c <= 'z') || ('A' <= c && c <= 'Z')
}

/// The typed text without its last character.
pub open spec fn backspaced(t: Seq<char>) -> Seq<char> {
    if t.len() > 0 {
        t.drop_last()
    } else {
        t
    }
}

// ---------------------------------------------------------------------------
// Clearing the history
// ---------------------------------------------------------------------------

/// The word that confirms clearing the history.
pub open spec fn clear_word() -> Seq<char> {
    "CLEAR"@
}

/// What the program must do after a key while clearing the history.
#[derive(PartialEq, Eq, Structural, Clone, Copy, Debug)]
pub enum ClearStep {
    /// Keep asking for the word.
    Typing,
    /// Stop asking; nothing is cleared.
    Cancelled,
    /// The word was typed: clear the recorded sessions and stop asking.
    Clear,
}

/// A key while the history waits for its word: a read-only session stops
/// asking; Esc cancels; Backspace deletes; a letter is typed while fewer
/// than five are; Enter clears once the word is `CLEAR`. Cancelling and
/// clearing empty what was typed.
pub open spec fn clear_step(typed: Seq<char>, code: Code, analysis_only: bool) -> (
    Seq<char>,
    ClearStep,
) {
    if analysis_only {
        (typed, ClearStep::Cancelled)
    } else {
        match code {
            Code::Esc => (Seq::empty(), ClearStep::Cancelled),
            Code::Backspace => (backspaced(typed), ClearStep::Typing),
            Code::Char(c) => if ascii_alpha(c) && typed.len() < 5 {
                (typed.push(c), ClearStep::Typing)
            } else {
                (typed, ClearStep::Typing)
            },
            Code::Enter => if typed == clear_word() {
                (Seq::empty(), ClearStep::Clear)
            } else {
                (typed, ClearStep::Typing)
            },
            _ => (typed, ClearStep::Typing),
        }
    }
}

/// A key while the history waits for its word; `typed` is what has been
/// typed so far.
pub fn clear_history_key(typed: &mut Vec<char>, code: Code, analysis_only: bool) -> (res: ClearStep)
    ensures
        (final(typed)@, res) == clear_step(old(typed)@, code, analysis_only),
{
    if analysis_only {
        return ClearStep::Cancelled;
    }
    match code {
        Code::Esc => {
            typed.clear();
            ClearStep::Cancelled
        },
        Code::Backspace => {
            typed.pop();
            ClearStep::Typing
        },
        Code::Char(c) => {
            if is_ascii_alpha(c) && typed.len() < 5 {
                typed.push(c);
            }
            ClearStep::Typing
        },
        Code::Enter => {
            let word = chars_of("CLEAR");
            if chars_eq(typed, &word) {
                typed.clear();
                ClearStep::Clear
            } else {
                ClearStep::Typing
            }
        },
        _ => ClearStep::Typing,
    }
}

/// No key clears the history in a read-only session, and only the typed
/// word `CLEAR` clears it.
pub proof fn lemma_clearing_needs_the_word(typed: Seq<char>, code: Code, analysis_only: bool)
    ensures
        clear_step(typed, code, analysis_only).1 == ClearStep::Clear ==> !analysis_only && typed
            == clear_word() && code == Code::Enter,
{
}

// ---------------------------------------------------------------------------
// Reviewing a plan
// ---------------------------------------------------------------------------

/// The review of a plan before it runs.
pub struct PlanReview {
    /// What has been typed to confirm.
    pub typed: Vec<char>,
    pub signals_ack: bool,
    pub moves_ack: bool,
    /// The plan deletes something that needed a review.
    pub has_review_clean: bool,
    /// The plan holds a process signal.
    pub has_signal: bool,
    /// The plan holds a move.
    pub has_move: bool,
    pub scroll: u16,
}

/// The content of a plan review.
pub struct PlanReviewView {
    pub typed: Seq<char>,
    pub signals_ack: bool,
    pub moves_ack: bool,
    pub has_review_clean: bool,
    pub has_signal: bool,
    pub has_move: bool,
    pub scroll: u16,
}

impl View for PlanReview {
    type V = PlanReviewView;

    open spec fn view(&self) -> PlanReviewView {
        PlanReviewView {
            typed: self.typed@,
            signals_ack: self.signals_ack,
            moves_ack: self.moves_ack,
            has_review_clean: self.has_review_clean,
            has_signal: self.has_signal,
            has_move: self.has_move,
            scroll: self.scroll,
        }
    }
}

/// What the program must do after a key on the plan review.
#[derive(PartialEq, Eq, Structural, Clone, Copy, Debug)]
pub enum ReviewStep {
    Stay,
    /// Leave the review; the plan stays.
    Leave,
    /// Run the plan: it was confirmed as `plan_check` asks.
    Execute,
    /// The plan may not run yet: show this note.
    Refused(ConfirmNote),
    /// Empty the plan and leave the review.
    ClearPlan,
    /// The signal acknowledgement changed: show its note.
    SignalsNote,
    /// The move acknowledgement changed: show its note.
    MovesNote,
}

/// The word a plan needs typed before it runs: `DELETE` when it deletes
/// something that needed a review, else `APPLY` when it signals a process
/// or moves a folder, else `CLEAN`.
pub open spec fn needed_word(has_review_clean: bool, has_signal: bool, has_move: bool) -> Seq<
    char,
> {
    if has_review_clean {
        "DELETE"@
    } else if has_signal || has_move {
        "APPLY"@
    } else {
        "CLEAN"@
    }
}

/// Why a reviewed plan may not run yet.
#[derive(PartialEq, Eq, Structural, Clone, Copy, Debug)]
pub enum ConfirmNote {
    TypeDelete,
    TypeApply,
    TypeClean,
    /// The plan signals a process and `s` was not pressed.
    AcknowledgeSignals,
    /// The plan moves a folder and `m` was not pressed.
    AcknowledgeMoves,
}

/// The note shown for a plan that may not run yet.
pub open spec fn confirm_note_text(n: ConfirmNote) -> Seq<char> {
    match n {
        ConfirmNote::TypeDelete => "Type DELETE to confirm these exact actions."@,
        ConfirmNote::TypeApply => "Type APPLY to confirm these exact actions."@,
        ConfirmNote::TypeClean => "Type CLEAN to confirm these exact actions."@,
        ConfirmNote::AcknowledgeSignals => "Press s in review to acknowledge the process-signal consequences."@,
        ConfirmNote::AcknowledgeMoves => "Press m in review to acknowledge the relocation and symlink consequences."@,
    }
}

impl ConfirmNote {
    /// The note's text.
    pub fn text(self) -> (res: &'static str)
        ensures
            res@ == confirm_note_text(self),
    {
        match self {
            ConfirmNote::TypeDelete => "Type DELETE to confirm these exact actions.",
            ConfirmNote::TypeApply => "Type APPLY to confirm these exact actions.",
            ConfirmNote::TypeClean => "Type CLEAN to confirm these exact actions.",
            ConfirmNote::AcknowledgeSignals => "Press s in review to acknowledge the process-signal consequences.",
            ConfirmNote::AcknowledgeMoves => "Press m in review to acknowledge the relocation and symlink consequences.",
        }
    }
}

/// What Enter on the review may do with the plan.
#[derive(PartialEq, Eq, Structural, Clone, Copy, Debug)]
pub enum PlanCheck {
    /// Nothing runs and nothing is said: the session is read-only or the
    /// plan is empty.
    Idle,
    /// Nothing runs; the note says what is missing.
    Refused(ConfirmNote),
    /// The plan runs.
    Run,
}

/// The checks before a reviewed plan runs: a read-only session or an empty
/// plan runs nothing; then the typed word must be the plan's `needed_word`;
/// then a plan that signals a process needs the signal acknowledgement, and
/// one that moves a folder the move acknowledgement.
pub open spec fn plan_check(r: PlanReviewView, analysis_only: bool, plan_empty: bool) -> PlanCheck {
    if analysis_only || plan_empty {
        PlanCheck::Idle
    } else if r.typed != needed_word(r.has_review_clean, r.has_signal, r.has_move) {
        PlanCheck::Refused(
            if r.has_review_clean {
                ConfirmNote::TypeDelete
            } else if r.has_signal || r.has_move {
                ConfirmNote::TypeApply
            } else {
                ConfirmNote::TypeClean
            },
        )
    } else if r.has_signal && !r.signals_ack {
        PlanCheck::Refused(ConfirmNote::AcknowledgeSignals)
    } else if r.has_move && !r.moves_ack {
        PlanCheck::Refused(ConfirmNote::AcknowledgeMoves)
    } else {
        PlanCheck::Run
    }
}

/// The review after Enter, by the outcome of the checks.
pub open spec fn enter_step(outcome: PlanCheck) -> ReviewStep {
    match outcome {
        PlanCheck::Idle => ReviewStep::Stay,
        PlanCheck::Refused(n) => ReviewStep::Refused(n),
        PlanCheck::Run => ReviewStep::Execute,
    }
}

/// The note shown when the signal acknowledgement is now `on`.
pub open spec fn signals_note(on: bool) -> Seq<char> {
    if on {
        "Process-signal consequences acknowledged for this exact plan."@
    } else {
        "Process-signal acknowledgment removed."@
    }
}

/// The note shown when the move acknowledgement is now `on`.
pub open spec fn moves_note(on: bool) -> Seq<char> {
    if on {
        "Relocation consequences acknowledged for this exact plan."@
    } else {
        "Relocation acknowledgment removed."@
    }
}

/// A key on the plan review: Esc leaves it, forgetting what was typed;
/// `s` and `m` toggle the acknowledgement of a plan's signals and moves,
/// when it holds any; Enter runs the plan when `plan_check` lets it;
/// Backspace deletes; other letters are typed while fewer than eight are;
/// Delete empties the plan and drops what was typed and the
/// acknowledgements; the arrows and page keys scroll by a row.
pub open spec fn plan_review_step(
    r: PlanReviewView,
    code: Code,
    analysis_only: bool,
    plan_empty: bool,
) -> (PlanReviewView, ReviewStep) {
    match code {
        Code::Esc => (PlanReviewView { typed: Seq::empty(), ..r }, ReviewStep::Leave),
        Code::Enter => (r, enter_step(plan_check(r, analysis_only, plan_empty))),
        Code::Backspace => (PlanReviewView { typed: backspaced(r.typed), ..r }, ReviewStep::Stay),
        Code::Delete => (plan_cleared(r), ReviewStep::ClearPlan),
        Code::Char(c) => if c == 's' && r.has_signal {
            (PlanReviewView { signals_ack: !r.signals_ack, ..r }, ReviewStep::SignalsNote)
        } else if c == 'm' && r.has_move {
            (PlanReviewView { moves_ack: !r.moves_ack, ..r }, ReviewStep::MovesNote)
        } else if ascii_alpha(c) && r.typed.len() < 8 {
            (PlanReviewView { typed: r.typed.push(c), ..r }, ReviewStep::Stay)
        } else {
            (r, ReviewStep::Stay)
        },
        Code::Down | Code::PageDown => (
            PlanReviewView {
                scroll: if r.scroll == u16::MAX {
                    u16::MAX
                } else {
                    (r.scroll + 1) as u16
                },
                ..r
            },
            ReviewStep::Stay,
        ),
        Code::Up | Code::PageUp => (
            PlanReviewView {
                scroll: if r.scroll == 0 {
                    0
                } else {
                    (r.scroll - 1) as u16
                },
                ..r
            },
            ReviewStep::Stay,
        ),
        _ => (r, ReviewStep::Stay),
    }
}

/// The plan review after Delete: nothing typed, nothing acknowledged.
pub open spec fn plan_cleared(r: PlanReviewView) -> PlanReviewView {
    PlanReviewView { typed: Seq::empty(), signals_ack: false, moves_ack: false, ..r }
}

impl PlanReview {
    /// Whether the reviewed plan may run now.
    pub fn check(&self, analysis_only: bool, plan_empty: bool) -> (res: PlanCheck)
        ensures
            res == plan_check(self@, analysis_only, plan_empty),
    {
        if analysis_only || plan_empty {
            return PlanCheck::Idle;
        }
        let (word, note) = if self.has_review_clean {
            ("DELETE", ConfirmNote::TypeDelete)
        } else if self.has_signal || self.has_move {
            ("APPLY", ConfirmNote::TypeApply)
        } else {
            ("CLEAN", ConfirmNote::TypeClean)
        };
        let needed = chars_of(word);
        if !chars_eq(&self.typed, &needed) {
            PlanCheck::Refused(note)
        } else if self.has_signal && !self.signals_ack {
            PlanCheck::Refused(ConfirmNote::AcknowledgeSignals)
        } else if self.has_move && !self.moves_ack {
            PlanCheck::Refused(ConfirmNote::AcknowledgeMoves)
        } else {
            PlanCheck::Run
        }
    }

    /// A key on the plan review of a plan that is empty or not, in a
    /// session that is read-only or not.
    pub fn handle_key(&mut self, code: Code, analysis_only: bool, plan_empty: bool) -> (res: ReviewStep)
        ensures
            (final(self)@, res) == plan_review_step(old(self)@, code, analysis_only, plan_empty),
    {
        match code {
            Code::Esc => {
                self.typed.clear();
                ReviewStep::Leave
            },
            Code::Enter => match self.check(analysis_only, plan_empty) {
                PlanCheck::Idle => ReviewStep::Stay,
                PlanCheck::Refused(n) => ReviewStep::Refused(n),
                PlanCheck::Run => ReviewStep::Execute,
            },
            Code::Backspace => {
                self.typed.pop();
                ReviewStep::Stay
            },
            Code::Delete => {
                self.clear_plan();
                ReviewStep::ClearPlan
            },
            Code::Char(c) => {
                if c == 's' && self.has_signal {
                    self.signals_ack = !self.signals_ack;
                    ReviewStep::SignalsNote
                } else if c == 'm' && self.has_move {
                    self.moves_ack = !self.moves_ack;
                    ReviewStep::MovesNote
                } else {
                    if is_ascii_alpha(c) && self.typed.len() < 8 {
                        self.typed.push(c);
                    }
                    ReviewStep::Stay
                }
            },
            Code::Down | Code::PageDown => {
                self.scroll = self.scroll.saturating_add(1);
                ReviewStep::Stay
            },
            Code::Up | Code::PageUp => {
                self.scroll = self.scroll.saturating_sub(1);
                ReviewStep::Stay
            },
            _ => ReviewStep::Stay,
        }
    }

    /// The plan is emptied (by the caller): nothing typed or acknowledged
    /// remains.
    pub fn clear_plan(&mut self)
        ensures
            final(self)@ == plan_cleared(old(self)@),
    {
        self.typed.clear();
        self.signals_ack = false;
        self.moves_ack = false;
    }
}

/// A plan runs only from Enter on its review, in a session that may change
/// things, with the plan's word typed exactly and each consequence it has
/// acknowledged.
pub proof fn lemma_plan_runs_only_when_confirmed(
    r: PlanReviewView,
    code: Code,
    analysis_only: bool,
    plan_empty: bool,
)
    ensures
        plan_review_step(r, code, analysis_only, plan_empty).1 == ReviewStep::Execute ==> {
            &&& code == Code::Enter
            &&& !analysis_only
            &&& !plan_empty
            &&& r.typed == needed_word(r.has_review_clean, r.has_signal, r.has_move)
            &&& r.has_signal ==> r.signals_ack
            &&& r.has_move ==> r.moves_ack
        },
{
}

/// Opening the review forgets what was typed and both acknowledgements.
pub open spec fn review_opened(r: PlanReviewView) -> PlanReviewView {
    PlanReviewView { typed: Seq::empty(), signals_ack: false, moves_ack: false, scroll: 0, ..r }
}

impl PlanReview {
    /// The review opens: nothing typed, nothing acknowledged, at its top.
    pub fn open(&mut self)
        ensures
            final(self)@ == review_opened(old(self)@),
    {
        self.typed.clear();
        self.signals_ack = false;
        self.moves_ack = false;
        self.scroll = 0;
    }
}

// ---------------------------------------------------------------------------
// The navigation bar
// ---------------------------------------------------------------------------

/// The screens of the bar.
#[derive(PartialEq, Eq, Structural, Clone, Copy, Debug)]
pub enum Tab {
    Overview,
    Explore,
    History,
}

/// What the program must do after a key on the bar.
#[derive(PartialEq, Eq, Structural, Clone, Copy, Debug)]
pub enum BarStep {
    Stay,
    /// Go to this screen: details, coverage and help close and the scroll
    /// resets.
    GoTo(Tab),
    /// The list takes the focus.
    FocusList,
    Quit,
}

/// The screen at position `i` of the bar, the last one at most.
pub open spec fn tab_at(i: int) -> Tab {
    if i <= 0 {
        Tab::Overview
    } else if i == 1 {
        Tab::Explore
    } else {
        Tab::History
    }
}

/// The position of a screen in the bar.
pub open spec fn tab_index(t: Tab) -> int {
    match t {
        Tab::Overview => 0,
        Tab::Explore => 1,
        Tab::History => 2,
    }
}

/// A key while the bar on screen `at` has the focus: left and up go one
/// screen back, right and down one on (within the bar); Tab, BackTab,
/// Enter and Esc give the focus to the list; `q` quits.
pub open spec fn bar_step(at: Tab, code: Code) -> BarStep {
    if code == Code::Left || code == Code::Up {
        BarStep::GoTo(tab_at(tab_index(at) - 1))
    } else if code == Code::Right || code == Code::Down {
        BarStep::GoTo(tab_at(tab_index(at) + 1))
    } else if code == Code::Tab || code == Code::BackTab || code == Code::Enter || code
        == Code::Esc {
        BarStep::FocusList
    } else if code == Code::Char('q') {
        BarStep::Quit
    } else {
        BarStep::Stay
    }
}

/// A key while the bar has the focus.
pub fn bar_key(at: Tab, code: Code) -> (res: BarStep)
    ensures
        res == bar_step(at, code),
{
    let i: usize = match at {
        Tab::Overview => 0,
        Tab::Explore => 1,
        Tab::History => 2,
    };
    if code == Code::Left || code == Code::Up {
        BarStep::GoTo(
            if i <= 1 {
                Tab::Overview
            } else {
                Tab::Explore
            },
        )
    } else if code == Code::Right || code == Code::Down {
        BarStep::GoTo(
            if i == 0 {
                Tab::Explore
            } else {
                Tab::History
            },
        )
    } else if code == Code::Tab || code == Code::BackTab || code == Code::Enter || code
        == Code::Esc {
        BarStep::FocusList
    } else if code == Code::Char('q') {
        BarStep::Quit
    } else {
        BarStep::Stay
    }
}

// ---------------------------------------------------------------------------
// Before the layers
// ---------------------------------------------------------------------------

/// What happens to a key before the layers see it.
#[derive(PartialEq, Eq, Structural, Clone, Copy, Debug)]
pub enum Intake {
    /// The key is dropped.
    Ignore,
    Quit,
    /// Ask the running plan to stop after its current action.
    CancelWork,
    /// The layers get the key; `moved` says the user acted on the list
    /// selection, `clear_note` that the message shown goes away.
    Pass { moved: bool, clear_note: bool },
}

/// A key that moves or acts on the selection.
pub open spec fn moves_selection(code: Code) -> bool {
    match code {
        Code::Down | Code::Up | Code::Enter => true,
        Code::Char(c) => c == 'j' || c == 'k' || c == ' ' || c == 'i' || c == 'x' || c == 'e'
            || c == 'K' || c == 'd',
        _ => false,
    }
}

/// The intake: a terminal below the supported size lets only Esc, `q` and
/// Control-C through; a key-up event is dropped; Control-C stops a running plan
/// or quits; other keys pass, and the message shown lasts until the next
/// key unless a plan is running or the key is `?`.
pub open spec fn intake_step(width: u16, height: u16, k: ShellKey, working: bool) -> Intake {
    let interrupt = k.code == Code::Char('c') && k.control;
    if (width < MIN_WIDTH || height < MIN_HEIGHT) && !(k.code == Code::Esc || k.code == Code::Char(
        'q',
    ) || interrupt) {
        Intake::Ignore
    } else if !k.press {
        Intake::Ignore
    } else if interrupt {
        if working {
            Intake::CancelWork
        } else {
            Intake::Quit
        }
    } else {
        Intake::Pass {
            moved: moves_selection(k.code),
            clear_note: !working && k.code != Code::Char('?'),
        }
    }
}

/// The note shown when Control-C stops a running plan.
pub open spec fn stopping_note() -> Seq<char> {
    "Stopping after the current action finishes."@
}

/// What happens to a key before the workspace's layers see it.
pub fn intake_key(width: u16, height: u16, k: ShellKey, working: bool) -> (res: Intake)
    ensures
        res == intake_step(width, height, k, working),
{
    let interrupt = k.code == Code::Char('c') && k.control;
    if (width < MIN_WIDTH || height < MIN_HEIGHT) && !(k.code == Code::Esc || k.code == Code::Char(
        'q',
    ) || interrupt) {
        return Intake::Ignore;
    }
    if !k.press {
        return Intake::Ignore;
    }
    if interrupt {
        return if working {
            Intake::CancelWork
        } else {
            Intake::Quit
        };
    }
    let moved = match k.code {
        Code::Down | Code::Up | Code::Enter => true,
        Code::Char(c) => c == 'j' || c == 'k' || c == ' ' || c == 'i' || c == 'x' || c == 'e'
            || c == 'K' || c == 'd',
        _ => false,
    };
    Intake::Pass { moved, clear_note: !working && k.code != Code::Char('?') }
}

// ---------------------------------------------------------------------------
// The retained process list
// ---------------------------------------------------------------------------

/// What the program must do after a key on the retained process list.
#[derive(PartialEq, Eq, Structural, Clone, Copy, Debug)]
pub enum LegacyStep {
    Stay,
    /// The retained interface keeps the key.
    Unclaimed,
    /// Leave the list for the review.
    Leave,
    /// Add a signal for the process at this position to the plan (a kill
    /// when `kill`), leave the list and review the plan.
    AddSignal { index: usize, kill: bool },
    Quit,
}

/// A key while the retained process list owns the keys: function keys,
/// Tab, `?` and Alt keys are dropped; away from the process list the
/// retained interface keeps the key; on it Esc leaves, the arrows and `j`,
/// `k` move, Space or `d` (a graceful stop) and `x` (a kill) add a signal
/// for a process that may be signalled in a session that may change things,
/// and `q` quits.
pub open spec fn legacy_step(
    p: ProcessReviewView,
    k: ShellKey,
    processes_shown: bool,
    analysis_only: bool,
) -> (ProcessReviewView, LegacyStep) {
    let code = k.code;
    if (code matches Code::F(_)) || code == Code::Tab || code == Code::BackTab || code
        == Code::Char('?') || k.alt {
        (p, LegacyStep::Stay)
    } else if !processes_shown {
        (p, LegacyStep::Unclaimed)
    } else if code == Code::Esc {
        (p, LegacyStep::Leave)
    } else if code == Code::Down || code == Code::Char('j') {
        (ProcessReviewView { cursor: down_rows(p.cursor, 1, p.may_signal.len() as int), ..p }, LegacyStep::Stay)
    } else if code == Code::Up || code == Code::Char('k') {
        (
            ProcessReviewView {
                cursor: if p.cursor == 0 {
                    0
                } else {
                    (p.cursor - 1) as usize
                },
                ..p
            },
            LegacyStep::Stay,
        )
    } else if (code == Code::Char(' ') || code == Code::Char('d') || code == Code::Char('x'))
        && !analysis_only {
        if p.cursor < p.may_signal.len() && p.may_signal[p.cursor as int] {
            (p, LegacyStep::AddSignal { index: p.cursor, kill: code == Code::Char('x') })
        } else {
            (p, LegacyStep::Stay)
        }
    } else if code == Code::Char('q') {
        (p, LegacyStep::Quit)
    } else {
        (p, LegacyStep::Stay)
    }
}

/// A key while the retained process list owns the keys.
pub fn legacy_process_key(
    p: &mut ProcessReview,
    k: ShellKey,
    processes_shown: bool,
    analysis_only: bool,
) -> (res: LegacyStep)
    ensures
        (final(p)@, res) == legacy_step(old(p)@, k, processes_shown, analysis_only),
{
    let code = k.code;
    let function_key = match code {
        Code::F(_) => true,
        _ => false,
    };
    if function_key || code == Code::Tab || code == Code::BackTab || code == Code::Char('?')
        || k.alt {
        return LegacyStep::Stay;
    }
    if !processes_shown {
        return LegacyStep::Unclaimed;
    }
    if code == Code::Esc {
        LegacyStep::Leave
    } else if code == Code::Down || code == Code::Char('j') {
        let n = p.may_signal.len();
        let last = if n == 0 {
            0
        } else {
            n - 1
        };
        p.cursor = if p.cursor < last {
            p.cursor + 1
        } else {
            last
        };
        LegacyStep::Stay
    } else if code == Code::Up || code == Code::Char('k') {
        p.cursor = if p.cursor == 0 {
            0
        } else {
            p.cursor - 1
        };
        LegacyStep::Stay
    } else if (code == Code::Char(' ') || code == Code::Char('d') || code == Code::Char('x'))
        && !analysis_only {
        let i = p.cursor;
        if i < p.may_signal.len() && p.may_signal[i] {
            LegacyStep::AddSignal { index: i, kill: code == Code::Char('x') }
        } else {
            LegacyStep::Stay
        }
    } else if code == Code::Char('q') {
        LegacyStep::Quit
    } else {
        LegacyStep::Stay
    }
}

/// No signal is added in a read-only session, nor for a process that may
/// not be signalled.
pub proof fn lemma_legacy_signal_needs_permission(
    p: ProcessReviewView,
    k: ShellKey,
    processes_shown: bool,
    analysis_only: bool,
)
    ensures
        legacy_step(p, k, processes_shown, analysis_only).1 matches LegacyStep::AddSignal {
            index,
            ..
        } ==> !analysis_only && index == p.cursor && p.cursor < p.may_signal.len()
            && p.may_signal[p.cursor as int],
{
}

// ---------------------------------------------------------------------------
// Help, approval and answers
// ---------------------------------------------------------------------------

/// A key on the help: Esc, `?` and Backspace close it (true) and reset the
/// scroll; the arrows and `j`, `k` scroll a row, the page keys five.
pub open spec fn help_step(scroll: u16, code: Code) -> (u16, bool) {
    if code == Code::Esc || code == Code::Char('?') || code == Code::Backspace {
        (0, true)
    } else if code == Code::Down || code == Code::Char('j') {
        (if scroll + 1 > u16::MAX { u16::MAX } else { (scroll + 1) as u16 }, false)
    } else if code == Code::Up || code == Code::Char('k') {
        (if scroll < 1 { 0 } else { (scroll - 1) as u16 }, false)
    } else if code == Code::PageDown {
        (if scroll + 5 > u16::MAX { u16::MAX } else { (scroll + 5) as u16 }, false)
    } else if code == Code::PageUp {
        (if scroll < 5 { 0 } else { (scroll - 5) as u16 }, false)
    } else {
        (scroll, false)
    }
}

/// A key on the help; returns whether it closes.
pub fn help_key(scroll: &mut u16, code: Code) -> (res: bool)
    ensures
        (*final(scroll), res) == help_step(*old(scroll), code),
{
    if code == Code::Esc || code == Code::Char('?') || code == Code::Backspace {
        *scroll = 0;
        true
    } else if code == Code::Down || code == Code::Char('j') {
        *scroll = scroll.saturating_add(1);
        false
    } else if code == Code::Up || code == Code::Char('k') {
        *scroll = scroll.saturating_sub(1);
        false
    } else if code == Code::PageDown {
        *scroll = scroll.saturating_add(5);
        false
    } else if code == Code::PageUp {
        *scroll = scroll.saturating_sub(5);
        false
    } else {
        false
    }
}

/// What the program must do after a key while an investigation waits for
/// approval.
#[derive(PartialEq, Eq, Structural, Clone, Copy, Debug)]
pub enum ApprovalStep {
    Stay,
    /// Open the help at its top.
    OpenHelp,
    /// Approve the request; show `approved_note`.
    Approve,
    /// Decline the request; show `declined_note`.
    Decline,
}

pub open spec fn approved_note() -> Seq<char> {
    "Approved the fixed 8-second read-only trace. macOS authorization may be required."@
}

pub open spec fn declined_note() -> Seq<char> {
    "Administrator-assisted tracing skipped. The case will continue with other evidence."@
}

/// A key while an investigation waits for approval: the arrows and page
/// keys scroll a row, `?` opens the help, `a` approves, Esc declines.
pub open spec fn approval_step(scroll: u16, code: Code) -> (u16, ApprovalStep) {
    if code == Code::Down || code == Code::PageDown {
        (if scroll + 1 > u16::MAX { u16::MAX } else { (scroll + 1) as u16 }, ApprovalStep::Stay)
    } else if code == Code::Up || code == Code::PageUp {
        (if scroll < 1 { 0 } else { (scroll - 1) as u16 }, ApprovalStep::Stay)
    } else if code == Code::Char('?') {
        (0, ApprovalStep::OpenHelp)
    } else if code == Code::Char('a') {
        (scroll, ApprovalStep::Approve)
    } else if code == Code::Esc {
        (scroll, ApprovalStep::Decline)
    } else {
        (scroll, ApprovalStep::Stay)
    }
}

/// A key while an investigation waits for approval.
pub fn approval_key(scroll: &mut u16, code: Code) -> (res: ApprovalStep)
    ensures
        (*final(scroll), res) == approval_step(*old(scroll), code),
{
    if code == Code::Down || code == Code::PageDown {
        *scroll = scroll.saturating_add(1);
        ApprovalStep::Stay
    } else if code == Code::Up || code == Code::PageUp {
        *scroll = scroll.saturating_sub(1);
        ApprovalStep::Stay
    } else if code == Code::Char('?') {
        *scroll = 0;
        ApprovalStep::OpenHelp
    } else if code == Code::Char('a') {
        ApprovalStep::Approve
    } else if code == Code::Esc {
        ApprovalStep::Decline
    } else {
        ApprovalStep::Stay
    }
}

/// What the program must do after a key on an open answer.
#[derive(PartialEq, Eq, Structural, Clone, Copy, Debug)]
pub enum AnswerStep {
    Stay,
    /// Close the answer.
    Close,
    /// Close the answer and open the ask box with the follow-up returned.
    FollowUp,
    /// The screen's own list gets the key.
    Rest,
}

/// A key on an open answer about `question`: `1` to `3` pick an offered
/// follow-up (a digit without one does nothing); Esc, Backspace and Left
/// close it, resetting the scroll; the arrows and `j`, `k` scroll a row;
/// other keys go on to the list.
pub open spec fn answer_step(scroll: u16, code: Code, question: Seq<char>) -> (
    u16,
    AnswerStep,
    Option<Seq<char>>,
) {
    match code {
        Code::Char(c) => if '1' <= c && c <= '3' {
            match follow_up_pick(question, c) {
                Some(q) => (scroll, AnswerStep::FollowUp, Some(q)),
                None => (scroll, AnswerStep::Stay, None),
            }
        } else if c == 'j' {
            (if scroll + 1 > u16::MAX { u16::MAX } else { (scroll + 1) as u16 }, AnswerStep::Stay, None)
        } else if c == 'k' {
            (if scroll < 1 { 0 } else { (scroll - 1) as u16 }, AnswerStep::Stay, None)
        } else {
            (scroll, AnswerStep::Rest, None)
        },
        Code::Esc | Code::Backspace | Code::Left => (0, AnswerStep::Close, None),
        Code::Down => (
            if scroll + 1 > u16::MAX { u16::MAX } else { (scroll + 1) as u16 },
            AnswerStep::Stay,
            None,
        ),
        Code::Up => (if scroll < 1 { 0 } else { (scroll - 1) as u16 }, AnswerStep::Stay, None),
        _ => (scroll, AnswerStep::Rest, None),
    }
}

/// A key on an open answer about `question`; the follow-up picked, if any.
pub fn answer_key(scroll: &mut u16, code: Code, question: &str) -> (res: (AnswerStep, Option<&'static str>))
    ensures
        ({
            let (s2, step, q) = answer_step(*old(scroll), code, question@);
            &&& *final(scroll) == s2
            &&& res.0 == step
            &&& match res.1 {
                Some(r) => q == Some(r@),
                None => q is None,
            }
        }),
{
    match code {
        Code::Char(c) => {
            if '1' <= c && c <= '3' {
                match follow_up_for_digit(question, c) {
                    Some(q) => (AnswerStep::FollowUp, Some(q)),
                    None => (AnswerStep::Stay, None),
                }
            } else if c == 'j' {
                *scroll = scroll.saturating_add(1);
                (AnswerStep::Stay, None)
            } else if c == 'k' {
                *scroll = scroll.saturating_sub(1);
                (AnswerStep::Stay, None)
            } else {
                (AnswerStep::Rest, None)
            }
        },
        Code::Esc | Code::Backspace | Code::Left => {
            *scroll = 0;
            (AnswerStep::Close, None)
        },
        Code::Down => {
            *scroll = scroll.saturating_add(1);
            (AnswerStep::Stay, None)
        },
        Code::Up => {
            *scroll = scroll.saturating_sub(1);
            (AnswerStep::Stay, None)
        },
        _ => (AnswerStep::Rest, None),
    }
}

// ---------------------------------------------------------------------------
// Notes
// ---------------------------------------------------------------------------

/// The note a step of the plan review shows, given the review after it.
pub open spec fn review_note(step: ReviewStep, r: PlanReviewView) -> Option<Seq<char>> {
    match step {
        ReviewStep::SignalsNote => Some(signals_note(r.signals_ack)),
        ReviewStep::MovesNote => Some(moves_note(r.moves_ack)),
        ReviewStep::Refused(n) => Some(confirm_note_text(n)),
        _ => None,
    }
}

/// The note a step of the plan review shows, given the review after it.
pub fn review_step_note(step: ReviewStep, r: &PlanReview) -> (res: Option<&'static str>)
    ensures
        match res {
            Some(t) => review_note(step, r@) == Some(t@),
            None => review_note(step, r@) is None,
        },
{
    match step {
        ReviewStep::SignalsNote => Some(
            if r.signals_ack {
                "Process-signal consequences acknowledged for this exact plan."
            } else {
                "Process-signal acknowledgment removed."
            },
        ),
        ReviewStep::MovesNote => Some(
            if r.moves_ack {
                "Relocation consequences acknowledged for this exact plan."
            } else {
                "Relocation acknowledgment removed."
            },
        ),
        ReviewStep::Refused(n) => Some(n.text()),
        _ => None,
    }
}

/// The note an approval step shows.
pub open spec fn approval_note(step: ApprovalStep) -> Option<Seq<char>> {
    match step {
        ApprovalStep::Approve => Some(approved_note()),
        ApprovalStep::Decline => Some(declined_note()),
        _ => None,
    }
}

/// The note an approval step shows.
pub fn approval_step_note(step: ApprovalStep) -> (res: Option<&'static str>)
    ensures
        match res {
            Some(t) => approval_note(step) == Some(t@),
            None => approval_note(step) is None,
        },
{
    match step {
        ApprovalStep::Approve => Some(
            "Approved the fixed 8-second read-only trace. macOS authorization may be required.",
        ),
        ApprovalStep::Decline => Some(
            "Administrator-assisted tracing skipped. The case will continue with other evidence.",
        ),
        _ => None,
    }
}

/// The note the intake shows: stopping a running plan.
pub fn intake_note(i: Intake) -> (res: Option<&'static str>)
    ensures
        match res {
            Some(t) => i == Intake::CancelWork && t@ == stopping_note(),
            None => i != Intake::CancelWork,
        },
{
    match i {
        Intake::CancelWork => Some("Stopping after the current action finishes."),
        _ => None,
    }
}

} // verus!
