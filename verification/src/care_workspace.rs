//! The order in which the care workspace's key layers are tried, and the
//! table of keys that reach the workspace itself: screens, the palette,
//! the plan review, details, coverage and the lists.
use vstd::prelude::*;
use crate::assistant::PaletteKey;
use crate::care_keys::{review_opened, tab_at, tab_index, PlanReview, Tab};
use crate::screens::{down_rows, up_rows};
use crate::shell::Code;

verus! {

/// Below this width the workspace has no side pane.
pub const SPLIT_WIDTH: u16 = 110;

/// The workspace's modes and positions that its keys change.
#[derive(PartialEq, Eq, Structural, Clone, Copy, Debug)]
pub struct WorkspaceState {
    pub screen: Tab,
    /// The navigation bar has the focus (not the list).
    pub bar_focus: bool,
    pub detail: bool,
    /// The view of what the scan could not see.
    pub coverage: bool,
    pub help: bool,
    /// The history waits for the word that clears it.
    pub clearing_history: bool,
    pub reviewing: bool,
    /// The retained process and relocation screens own the keys.
    pub legacy: bool,
    pub detail_scroll: u16,
    /// Every item is listed, not only the ones worth acting on.
    pub show_all: bool,
    pub motion: bool,
    /// The positions in the Overview, Explore and History lists.
    pub cursor: usize,
    pub explorer_cursor: usize,
    pub history_cursor: usize,
}

/// What the workspace's keys read and do not change.
#[derive(PartialEq, Eq, Structural, Clone, Copy, Debug)]
pub struct WorkspaceFacts {
    pub analysis_only: bool,
    /// A plan is running.
    pub working: bool,
    pub palette_open: bool,
    pub asking_open: bool,
    /// An investigation waits for approval of a trace.
    pub awaiting_approval: bool,
    pub answer_open: bool,
    pub plan_empty: bool,
    /// The lengths of the Overview, Explore and History lists.
    pub visible_len: usize,
    pub explorer_len: usize,
    pub history_len: usize,
    /// An Overview or History item is selected.
    pub has_selection: bool,
    /// The selected Explore item exists and is not a folder.
    pub explore_item_is_file: bool,
    /// An investigation runs.
    pub investigating: bool,
    /// It was started by the workspace, not by the user.
    pub automatic_investigation: bool,
    /// Questions can be asked on this machine.
    pub model_ready: bool,
    pub width: u16,
}

/// The layer a key goes to.
#[derive(PartialEq, Eq, Structural, Clone, Copy, Debug)]
pub enum Layer {
    /// `legacy_process_key`.
    Legacy,
    /// `working_key`.
    Working,
    /// `help_key`.
    Help,
    /// `palette_key`; a key it sends goes through the workspace again.
    Palette,
    /// `ask_key`.
    Asking,
    /// `clear_history_key`.
    ClearingHistory,
    /// `PlanReview::handle_key`.
    Reviewing,
    /// `bar_key`.
    Bar,
    /// Delete on the History: ask for the word that clears it
    /// (`WorkspaceState::start_clearing_history`).
    StartClearingHistory,
    /// The key does nothing.
    Dropped,
    /// `approval_key`.
    Approval,
    /// `answer_key`.
    Answer,
    /// `workspace_key`.
    Main,
}

/// The keys an open answer handles itself: `1` to `3`, `j`, `k`, the
/// vertical arrows, and Esc, Backspace and Left.
pub open spec fn answer_claims(code: Code) -> bool {
    match code {
        Code::Char(c) => ('1' <= c && c <= '3') || c == 'j' || c == 'k',
        Code::Esc | Code::Backspace | Code::Left | Code::Down | Code::Up => true,
        _ => false,
    }
}

/// An open answer handles exactly the keys it claims.
pub proof fn lemma_answer_claims(scroll: u16, code: Code, question: Seq<char>)
    ensures
        answer_claims(code) <==> crate::care_keys::answer_step(scroll, code, question).1
            != crate::care_keys::AnswerStep::Rest,
{
    match code {
        Code::Char(c) => {
            if '1' <= c && c <= '3' {
                match crate::assistant::follow_up_pick(question, c) {
                    Some(q) => {},
                    None => {},
                }
            }
        },
        _ => {},
    }
}

/// The order of the layers, after the intake: the retained screens, a
/// running plan, the help, the palette, the ask box, clearing the history,
/// the plan review, the navigation bar; then on the History, Delete starts
/// clearing it (in a session that may change things) and `i` does nothing;
/// then an approval request, the keys an open answer claims, and last the
/// workspace itself.
pub open spec fn layer_of(s: WorkspaceState, f: WorkspaceFacts, code: Code) -> Layer {
    if s.legacy {
        Layer::Legacy
    } else if f.working {
        Layer::Working
    } else if s.help {
        Layer::Help
    } else if f.palette_open {
        Layer::Palette
    } else if f.asking_open {
        Layer::Asking
    } else if s.clearing_history {
        Layer::ClearingHistory
    } else if s.reviewing {
        Layer::Reviewing
    } else if s.bar_focus {
        Layer::Bar
    } else if s.screen == Tab::History && code == Code::Delete && !f.analysis_only {
        Layer::StartClearingHistory
    } else if s.screen == Tab::History && code == Code::Char('i') {
        Layer::Dropped
    } else if f.awaiting_approval {
        Layer::Approval
    } else if f.answer_open && answer_claims(code) {
        Layer::Answer
    } else {
        Layer::Main
    }
}

/// The layer a key goes to.
pub fn layer_for(s: &WorkspaceState, f: &WorkspaceFacts, code: Code) -> (res: Layer)
    ensures
        res == layer_of(*s, *f, code),
{
    if s.legacy {
        Layer::Legacy
    } else if f.working {
        Layer::Working
    } else if s.help {
        Layer::Help
    } else if f.palette_open {
        Layer::Palette
    } else if f.asking_open {
        Layer::Asking
    } else if s.clearing_history {
        Layer::ClearingHistory
    } else if s.reviewing {
        Layer::Reviewing
    } else if s.bar_focus {
        Layer::Bar
    } else if s.screen == Tab::History && code == Code::Delete && !f.analysis_only {
        Layer::StartClearingHistory
    } else if s.screen == Tab::History && code == Code::Char('i') {
        Layer::Dropped
    } else if f.awaiting_approval {
        Layer::Approval
    } else if f.answer_open && match code {
        Code::Char(c) => ('1' <= c && c <= '3') || c == 'j' || c == 'k',
        Code::Esc | Code::Backspace | Code::Left | Code::Down | Code::Up => true,
        _ => false,
    } {
        Layer::Answer
    } else {
        Layer::Main
    }
}

/// The note shown when Esc asks a running plan to stop.
pub open spec fn stop_requested_note() -> Seq<char> {
    "Stop requested. Waiting for the current action to finish safely."@
}

impl WorkspaceState {
    /// Delete on the History: the workspace asks for the word, with
    /// nothing typed yet.
    pub fn start_clearing_history(&mut self, typed: &mut Vec<char>)
        ensures
            *final(self) == (WorkspaceState { clearing_history: true, ..*old(self) }),
            final(typed)@ == Seq::<char>::empty(),
    {
        self.clearing_history = true;
        typed.clear();
    }
}

/// What the program must do after a key that reached the workspace.
#[derive(PartialEq, Eq, Structural, Clone, Copy, Debug)]
pub enum Action {
    Stay,
    Quit,
    /// The workspace went to this screen; Explore opens at the home folder
    /// when the whole startup volume was scanned and no folder is open.
    GoTo(Tab),
    /// Open the command palette with nothing typed.
    OpenPalette,
    /// Add every ready quick win to the plan.
    AddQuickWins,
    /// A read-only session adds no quick wins: show `read_only_note`.
    ReadOnly,
    /// A read-only session adds nothing to the plan: show `locked_note`.
    Locked,
    /// The plan review opened (the review was reset as `review_opened`
    /// says); an investigation the workspace started is stopped first.
    Review { stop_investigation: bool },
    ToggleResearch,
    OpenSettings,
    Recheck,
    /// Show that a pending plan must be reviewed or cleared first.
    PlanPending,
    /// Show the running processes.
    OpenProcesses,
    /// Investigate the selected item.
    Investigate,
    /// Open the ask box with nothing typed.
    OpenAsk,
    /// Show that asking needs the on-device model.
    AskUnavailable,
    /// The list's filter changed: forget the pinned item.
    Unpin,
    /// Hide the selected item until the next scan, then keep the cursor in
    /// the shorter list.
    Keep,
    /// Explain the selected Overview item.
    Inspect,
    /// Open the selected Explore item.
    OpenItem,
    /// Add the selected item to the plan; `force` stops a process hard.
    AddSelected { force: bool },
    /// Show the folders that can be moved to another disk.
    OpenRelocation,
    /// Reveal the selected item in the file manager.
    Reveal,
    /// Explore goes back to the parent folder.
    ExplorerBack,
    /// Stop the investigation; what it collected is kept.
    StopInvestigation,
    /// Show the cleanup rule for the selected Explore folder, if one covers it.
    RuleForItem,
    /// Measure the selected Explore item.
    Measure,
}

/// The workspace on screen `t`: details, coverage and help closed, the
/// scroll reset and the list focused.
pub open spec fn went_to(s: WorkspaceState, t: Tab) -> WorkspaceState {
    WorkspaceState {
        screen: t,
        detail_scroll: 0,
        detail: false,
        coverage: false,
        help: false,
        bar_focus: false,
        ..s
    }
}

/// The cursor of the screen moved down one row of its list, and the
/// scroll reset.
pub open spec fn moved_down(s: WorkspaceState, f: WorkspaceFacts) -> WorkspaceState {
    match s.screen {
        Tab::Overview => WorkspaceState {
            cursor: down_rows(s.cursor, 1, f.visible_len as int),
            detail_scroll: 0,
            ..s
        },
        Tab::Explore => WorkspaceState {
            explorer_cursor: down_rows(s.explorer_cursor, 1, f.explorer_len as int),
            detail_scroll: 0,
            ..s
        },
        Tab::History => WorkspaceState {
            history_cursor: down_rows(s.history_cursor, 1, f.history_len as int),
            detail_scroll: 0,
            ..s
        },
    }
}

/// The cursor of the screen moved up one row, and the scroll reset.
pub open spec fn moved_up(s: WorkspaceState) -> WorkspaceState {
    match s.screen {
        Tab::Overview => WorkspaceState { cursor: up_rows(s.cursor, 1), detail_scroll: 0, ..s },
        Tab::Explore => WorkspaceState {
            explorer_cursor: up_rows(s.explorer_cursor, 1),
            detail_scroll: 0,
            ..s
        },
        Tab::History => WorkspaceState {
            history_cursor: up_rows(s.history_cursor, 1),
            detail_scroll: 0,
            ..s
        },
    }
}

pub open spec fn scrolled(s: WorkspaceState, by: int) -> WorkspaceState {
    WorkspaceState {
        detail_scroll: if s.detail_scroll + by < 0 {
            0
        } else if s.detail_scroll + by > u16::MAX {
            u16::MAX
        } else {
            (s.detail_scroll + by) as u16
        },
        ..s
    }
}

pub open spec fn is_row_key(code: Code) -> bool {
    code == Code::Down || code == Code::Up || code == Code::Char('j') || code == Code::Char('k')
}

pub open spec fn is_back_key(code: Code) -> bool {
    code == Code::Esc || code == Code::Backspace || code == Code::Left
}

/// Keys that pass the open coverage view.
pub open spec fn passes_coverage(code: Code) -> bool {
    code == Code::Char('v') || code == Code::Char('?') || code == Code::Char('A') || code
        == Code::PageDown || code == Code::PageUp || code == Code::Tab || code == Code::BackTab
}

/// The character keys of `table_step`, from `q` to `P`.
pub open spec fn char_step(s: WorkspaceState, f: WorkspaceFacts, c: char) -> (
    WorkspaceState,
    Action,
) {
    if c == 'q' {
        (s, Action::Quit)
    } else if '1' <= c && c <= '3' {
        let t = tab_at(c as int - '1' as int);
        (went_to(s, t), Action::GoTo(t))
    } else if c == ':' {
        (s, Action::OpenPalette)
    } else if c == 'a' && s.screen == Tab::Overview {
        (s, if f.analysis_only { Action::ReadOnly } else { Action::AddQuickWins })
    } else if c == 'p' {
        (
            WorkspaceState { reviewing: true, ..s },
            Action::Review { stop_investigation: f.automatic_investigation },
        )
    } else if c == 'M' {
        (WorkspaceState { motion: !s.motion, ..s }, Action::Stay)
    } else if c == 'R' {
        (s, Action::ToggleResearch)
    } else if c == 'A' {
        (s, Action::OpenSettings)
    } else if c == 'd' {
        (WorkspaceState { detail: !s.detail, detail_scroll: 0, ..s }, Action::Stay)
    } else if c == 'r' {
        (s, if f.plan_empty { Action::Recheck } else { Action::PlanPending })
    } else if c == '?' {
        (WorkspaceState { help: true, detail_scroll: 0, ..s }, Action::Stay)
    } else if c == 'P' {
        (WorkspaceState { legacy: true, ..s }, Action::OpenProcesses)
    } else {
        char_step_more(s, f, c)
    }
}

/// The character keys of `table_step`, from `i` on.
pub open spec fn char_step_more(s: WorkspaceState, f: WorkspaceFacts, c: char) -> (
    WorkspaceState,
    Action,
) {
    if c == 'i' {
        if !f.has_selection {
            (s, Action::Stay)
        } else if f.width < SPLIT_WIDTH {
            (WorkspaceState { detail: true, detail_scroll: 0, ..s }, Action::Investigate)
        } else {
            (s, Action::Investigate)
        }
    } else if c == '/' {
        if f.model_ready {
            (WorkspaceState { help: false, ..s }, Action::OpenAsk)
        } else {
            (s, Action::AskUnavailable)
        }
    } else if c == 'f' {
        (WorkspaceState { show_all: !s.show_all, cursor: 0, ..s }, Action::Unpin)
    } else if c == 'K' {
        (s, if f.has_selection { Action::Keep } else { Action::Stay })
    } else if c == 'e' && s.screen == Tab::Overview {
        (s, Action::Inspect)
    } else if c == 'e' && s.screen == Tab::Explore {
        (WorkspaceState { detail: false, detail_scroll: 0, ..s }, Action::OpenItem)
    } else if (c == ' ' || c == 'x') && s.screen == Tab::Overview {
        (
            s,
            if f.analysis_only {
                Action::Locked
            } else {
                Action::AddSelected { force: c == 'x' }
            },
        )
    } else if c == 'm' {
        if f.analysis_only {
            (s, Action::Stay)
        } else {
            (WorkspaceState { legacy: true, ..s }, Action::OpenRelocation)
        }
    } else if c == 'o' {
        (s, Action::Reveal)
    } else if c == 'j' {
        (moved_down(s, f), Action::Stay)
    } else if c == 'k' {
        (moved_up(s), Action::Stay)
    } else {
        (s, Action::Stay)
    }
}

/// The workspace's table of keys, for a key no layer before it took: `q`
/// quits; `1` to `3`, Tab and BackTab go to a screen; `:` opens the
/// palette; `p` opens the plan review; `?` the help; `d` shows or hides
/// details; `f` lists everything or less; `M` reduces motion; the rows
/// keys move the screen's cursor and reset the scroll; the page keys
/// scroll five rows; Enter shows details (on Explore it opens a folder);
/// Esc, Backspace and Left go back.
pub open spec fn table_step(s: WorkspaceState, f: WorkspaceFacts, code: Code) -> (
    WorkspaceState,
    Action,
) {
    match code {
        Code::Char(c) => char_step(s, f, c),
        Code::Tab => {
            let t = tab_at((tab_index(s.screen) + 1) % 3);
            (went_to(s, t), Action::GoTo(t))
        },
        Code::BackTab => {
            let t = tab_at((tab_index(s.screen) + 2) % 3);
            (went_to(s, t), Action::GoTo(t))
        },
        Code::Down => (moved_down(s, f), Action::Stay),
        Code::Up => (moved_up(s), Action::Stay),
        Code::Enter => if s.screen == Tab::Explore && !s.detail {
            if f.explore_item_is_file {
                (WorkspaceState { detail: true, detail_scroll: 0, ..s }, Action::Stay)
            } else {
                (WorkspaceState { detail_scroll: 0, ..s }, Action::OpenItem)
            }
        } else {
            (WorkspaceState { detail: true, detail_scroll: 0, ..s }, Action::Stay)
        },
        Code::Esc | Code::Backspace | Code::Left => if s.screen == Tab::Explore {
            (s, Action::ExplorerBack)
        } else if code == Code::Esc && f.investigating {
            (s, Action::StopInvestigation)
        } else {
            (WorkspaceState { detail: false, ..s }, Action::Stay)
        },
        Code::PageDown => (scrolled(s, 5), Action::Stay),
        Code::PageUp => (scrolled(s, -5), Action::Stay),
        _ => (s, Action::Stay),
    }
}

/// A key that reached the workspace: open details or coverage close with
/// Esc, Backspace or Left and scroll with the row keys; open coverage
/// lets only `v`, `?`, `A`, the page keys, Tab and BackTab through; `v`
/// shows or hides coverage; on Explore `f` looks for the folder's cleanup
/// rule and `i` measures the item; other keys go to `table_step`.
pub open spec fn main_step(s: WorkspaceState, f: WorkspaceFacts, code: Code) -> (
    WorkspaceState,
    Action,
) {
    if (s.detail || s.coverage) && is_back_key(code) {
        (
            if s.coverage {
                WorkspaceState { coverage: false, detail_scroll: 0, ..s }
            } else {
                WorkspaceState { detail: false, detail_scroll: 0, ..s }
            },
            Action::Stay,
        )
    } else if (s.detail || s.coverage) && is_row_key(code) {
        (
            scrolled(s, if code == Code::Down || code == Code::Char('j') { 1 } else { -1 }),
            Action::Stay,
        )
    } else if s.coverage && !passes_coverage(code) {
        (s, Action::Stay)
    } else if code == Code::Char('v') {
        (WorkspaceState { coverage: !s.coverage, detail_scroll: 0, ..s }, Action::Stay)
    } else if code == Code::Char('f') && s.screen == Tab::Explore {
        (s, Action::RuleForItem)
    } else if code == Code::Char('i') && s.screen == Tab::Explore {
        (s, Action::Measure)
    } else {
        table_step(s, f, code)
    }
}

fn saturating_scroll(v: u16, up: bool, by: u16) -> (res: u16)
    ensures
        res == (if up {
            if v + by > u16::MAX {
                u16::MAX
            } else {
                (v + by) as u16
            }
        } else {
            if v < by {
                0
            } else {
                (v - by) as u16
            }
        }),
{
    if up {
        v.saturating_add(by)
    } else {
        v.saturating_sub(by)
    }
}

fn row_down(cursor: usize, len: usize) -> (res: usize)
    ensures
        res == down_rows(cursor, 1, len as int),
{
    let last = if len == 0 {
        0
    } else {
        len - 1
    };
    if cursor < last {
        cursor + 1
    } else {
        last
    }
}

fn row_up(cursor: usize) -> (res: usize)
    ensures
        res == up_rows(cursor, 1),
{
    if cursor == 0 {
        0
    } else {
        cursor - 1
    }
}

fn move_down(s: WorkspaceState, f: &WorkspaceFacts) -> (res: WorkspaceState)
    ensures
        res == moved_down(s, *f),
{
    let mut t = s;
    match s.screen {
        Tab::Overview => t.cursor = row_down(s.cursor, f.visible_len),
        Tab::Explore => t.explorer_cursor = row_down(s.explorer_cursor, f.explorer_len),
        Tab::History => t.history_cursor = row_down(s.history_cursor, f.history_len),
    }
    t.detail_scroll = 0;
    t
}

fn move_up(s: WorkspaceState) -> (res: WorkspaceState)
    ensures
        res == (moved_up(s)),
{
    let mut t = s;
    match s.screen {
        Tab::Overview => t.cursor = row_up(s.cursor),
        Tab::Explore => t.explorer_cursor = row_up(s.explorer_cursor),
        Tab::History => t.history_cursor = row_up(s.history_cursor),
    }
    t.detail_scroll = 0;
    t
}

fn go_to(s: WorkspaceState, t: Tab) -> (res: (WorkspaceState, Action))
    ensures
        res == (went_to(s, t), Action::GoTo(t)),
{
    let mut n = s;
    n.screen = t;
    n.detail_scroll = 0;
    n.detail = false;
    n.coverage = false;
    n.help = false;
    n.bar_focus = false;
    (n, Action::GoTo(t))
}

fn char_key(s: WorkspaceState, f: &WorkspaceFacts, c: char) -> (res: (WorkspaceState, Action))
    ensures
        res == char_step(s, *f, c),
{
    let mut n = s;
    if c == 'q' {
        (s, Action::Quit)
    } else if '1' <= c && c <= '3' {
        let t = if c == '1' {
            Tab::Overview
        } else if c == '2' {
            Tab::Explore
        } else {
            Tab::History
        };
        go_to(s, t)
    } else if c == ':' {
        (s, Action::OpenPalette)
    } else if c == 'a' && s.screen == Tab::Overview {
        (
            s,
            if f.analysis_only {
                Action::ReadOnly
            } else {
                Action::AddQuickWins
            },
        )
    } else if c == 'p' {
        n.reviewing = true;
        (n, Action::Review { stop_investigation: f.automatic_investigation })
    } else if c == 'M' {
        n.motion = !s.motion;
        (n, Action::Stay)
    } else if c == 'R' {
        (s, Action::ToggleResearch)
    } else if c == 'A' {
        (s, Action::OpenSettings)
    } else if c == 'd' {
        n.detail = !s.detail;
        n.detail_scroll = 0;
        (n, Action::Stay)
    } else if c == 'r' {
        (
            s,
            if f.plan_empty {
                Action::Recheck
            } else {
                Action::PlanPending
            },
        )
    } else if c == '?' {
        n.help = true;
        n.detail_scroll = 0;
        (n, Action::Stay)
    } else if c == 'P' {
        n.legacy = true;
        (n, Action::OpenProcesses)
    } else {
        char_key_more(s, f, c)
    }
}

fn char_key_more(s: WorkspaceState, f: &WorkspaceFacts, c: char) -> (res: (WorkspaceState, Action))
    ensures
        res == char_step_more(s, *f, c),
{
    let mut n = s;
    if c == 'i' {
        if !f.has_selection {
            (s, Action::Stay)
        } else if f.width < SPLIT_WIDTH {
            n.detail = true;
            n.detail_scroll = 0;
            (n, Action::Investigate)
        } else {
            (s, Action::Investigate)
        }
    } else if c == '/' {
        if f.model_ready {
            n.help = false;
            (n, Action::OpenAsk)
        } else {
            (s, Action::AskUnavailable)
        }
    } else if c == 'f' {
        n.show_all = !s.show_all;
        n.cursor = 0;
        (n, Action::Unpin)
    } else if c == 'K' {
        (
            s,
            if f.has_selection {
                Action::Keep
            } else {
                Action::Stay
            },
        )
    } else if c == 'e' && s.screen == Tab::Overview {
        (s, Action::Inspect)
    } else if c == 'e' && s.screen == Tab::Explore {
        n.detail = false;
        n.detail_scroll = 0;
        (n, Action::OpenItem)
    } else if (c == ' ' || c == 'x') && s.screen == Tab::Overview {
        (
            s,
            if f.analysis_only {
                Action::Locked
            } else {
                Action::AddSelected { force: c == 'x' }
            },
        )
    } else if c == 'm' {
        if f.analysis_only {
            (s, Action::Stay)
        } else {
            n.legacy = true;
            (n, Action::OpenRelocation)
        }
    } else if c == 'o' {
        (s, Action::Reveal)
    } else if c == 'j' {
        (move_down(s, f), Action::Stay)
    } else if c == 'k' {
        (move_up(s), Action::Stay)
    } else {
        (s, Action::Stay)
    }
}

fn table_key(s: WorkspaceState, f: &WorkspaceFacts, code: Code) -> (res: (WorkspaceState, Action))
    ensures
        res == table_step(s, *f, code),
{
    let mut n = s;
    match code {
        Code::Char(c) => char_key(s, f, c),
        Code::Tab => {
            let t = match s.screen {
                Tab::Overview => Tab::Explore,
                Tab::Explore => Tab::History,
                Tab::History => Tab::Overview,
            };
            go_to(s, t)
        },
        Code::BackTab => {
            let t = match s.screen {
                Tab::Overview => Tab::History,
                Tab::Explore => Tab::Overview,
                Tab::History => Tab::Explore,
            };
            go_to(s, t)
        },
        Code::Down => (move_down(s, f), Action::Stay),
        Code::Up => (move_up(s), Action::Stay),
        Code::Enter => {
            n.detail_scroll = 0;
            if s.screen == Tab::Explore && !s.detail {
                if f.explore_item_is_file {
                    n.detail = true;
                    (n, Action::Stay)
                } else {
                    (n, Action::OpenItem)
                }
            } else {
                n.detail = true;
                (n, Action::Stay)
            }
        },
        Code::Esc | Code::Backspace | Code::Left => {
            if s.screen == Tab::Explore {
                (s, Action::ExplorerBack)
            } else if code == Code::Esc && f.investigating {
                (s, Action::StopInvestigation)
            } else {
                n.detail = false;
                (n, Action::Stay)
            }
        },
        Code::PageDown => {
            n.detail_scroll = saturating_scroll(s.detail_scroll, true, 5);
            (n, Action::Stay)
        },
        Code::PageUp => {
            n.detail_scroll = saturating_scroll(s.detail_scroll, false, 5);
            (n, Action::Stay)
        },
        _ => (s, Action::Stay),
    }
}

/// A key that reached the workspace. When it opens the plan review, the
/// review forgets what was typed and both acknowledgements.
pub fn workspace_key(
    s: &mut WorkspaceState,
    review: &mut PlanReview,
    f: &WorkspaceFacts,
    code: Code,
) -> (res: Action)
    ensures
        (*final(s), res) == main_step(*old(s), *f, code),
        final(review)@ == (if res is Review {
            review_opened(old(review)@)
        } else {
            old(review)@
        }),
{
    let old_s = *s;
    let back = code == Code::Esc || code == Code::Backspace || code == Code::Left;
    let row = code == Code::Down || code == Code::Up || code == Code::Char('j') || code
        == Code::Char('k');
    if (old_s.detail || old_s.coverage) && back {
        if old_s.coverage {
            s.coverage = false;
        } else {
            s.detail = false;
        }
        s.detail_scroll = 0;
        return Action::Stay;
    }
    if (old_s.detail || old_s.coverage) && row {
        let down = code == Code::Down || code == Code::Char('j');
        s.detail_scroll = saturating_scroll(old_s.detail_scroll, down, 1);
        return Action::Stay;
    }
    let passes = code == Code::Char('v') || code == Code::Char('?') || code == Code::Char('A')
        || code == Code::PageDown || code == Code::PageUp || code == Code::Tab || code
        == Code::BackTab;
    if old_s.coverage && !passes {
        return Action::Stay;
    }
    if code == Code::Char('v') {
        s.coverage = !old_s.coverage;
        s.detail_scroll = 0;
        return Action::Stay;
    }
    if code == Code::Char('f') && old_s.screen == Tab::Explore {
        return Action::RuleForItem;
    }
    if code == Code::Char('i') && old_s.screen == Tab::Explore {
        return Action::Measure;
    }
    let (n, action) = table_key(old_s, f, code);
    *s = n;
    if let Action::Review { .. } = action {
        review.open();
    }
    action
}

/// The note for adding to the plan in a read-only session.
pub open spec fn locked_note() -> Seq<char> {
    "This session is locked read-only."@
}

/// The note for quick wins in a read-only session.
pub open spec fn read_only_note() -> Seq<char> {
    "This session is read-only; restart without --analyze to make changes."@
}

/// The note for `r` while a plan waits.
pub open spec fn plan_pending_note() -> Seq<char> {
    "Review or clear the pending plan before rechecking."@
}

/// The note an action shows, when the workspace words it itself.
pub open spec fn action_note(a: Action) -> Option<Seq<char>> {
    match a {
        Action::Locked => Some(locked_note()),
        Action::ReadOnly => Some(read_only_note()),
        Action::PlanPending => Some(plan_pending_note()),
        _ => None,
    }
}

/// The note an action shows, when the workspace words it itself.
pub fn note_for(a: Action) -> (res: Option<&'static str>)
    ensures
        match res {
            Some(t) => action_note(a) == Some(t@),
            None => action_note(a) is None,
        },
{
    match a {
        Action::Locked => Some("This session is locked read-only."),
        Action::ReadOnly => Some("This session is read-only; restart without --analyze to make changes."),
        Action::PlanPending => Some("Review or clear the pending plan before rechecking."),
        _ => None,
    }
}

/// A key while a plan runs: Esc asks it to stop and returns the note to
/// show; other keys do nothing.
pub fn working_key(code: Code) -> (res: Option<&'static str>)
    ensures
        match res {
            Some(t) => code == Code::Esc && t@ == stop_requested_note(),
            None => code != Code::Esc,
        },
{
    if code == Code::Esc {
        Some("Stop requested. Waiting for the current action to finish safely.")
    } else {
        None
    }
}

/// The key code a palette command sends.
pub open spec fn palette_code_of(k: PaletteKey) -> Code {
    match k {
        PaletteKey::Char(c) => Code::Char(c),
        PaletteKey::Enter => Code::Enter,
    }
}

/// The key code a palette command sends; it goes through the workspace
/// again like a key pressed.
pub fn palette_code(k: PaletteKey) -> (res: Code)
    ensures
        res == palette_code_of(k),
{
    match k {
        PaletteKey::Char(c) => Code::Char(c),
        PaletteKey::Enter => Code::Enter,
    }
}

/// No layer before the workspace's own keys is open.
pub open spec fn nothing_open(s: WorkspaceState, f: WorkspaceFacts) -> bool {
    &&& !s.legacy
    &&& !f.working
    &&& !s.help
    &&& !f.palette_open
    &&& !f.asking_open
    &&& !s.clearing_history
    &&& !s.reviewing
    &&& !s.bar_focus
    &&& !f.awaiting_approval
    &&& !f.answer_open
}

/// `1`, `2` and `3` go to the Overview, Explore and History screens unless
/// the coverage view holds the keys.
pub proof fn lemma_digits_go_to_screens(s: WorkspaceState, f: WorkspaceFacts, c: char)
    requires
        '1' <= c <= '3',
        !s.coverage,
    ensures
        main_step(s, f, Code::Char(c)) == (
            went_to(s, tab_at(c as int - '1' as int)),
            Action::GoTo(tab_at(c as int - '1' as int)),
        ),
{
}

/// The first three palette commands, sent once the palette has closed,
/// take the workspace to the Overview, Explore and History screens.
pub proof fn lemma_palette_goes_to_screens(s: WorkspaceState, f: WorkspaceFacts, i: int)
    requires
        0 <= i < 3,
        nothing_open(s, f),
        !s.coverage,
    ensures
        layer_of(s, f, palette_code_of(crate::assistant::palette()[i].2)) == Layer::Main,
        main_step(s, f, palette_code_of(crate::assistant::palette()[i].2)).0.screen == tab_at(i),
{
    let c = if i == 0 {
        '1'
    } else if i == 1 {
        '2'
    } else {
        '3'
    };
    assert(crate::assistant::palette()[i].2 == PaletteKey::Char(c));
    lemma_digits_go_to_screens(s, f, c);
}

/// A read-only session adds nothing to the plan, opens no relocation and
/// does not start clearing the history.
pub proof fn lemma_read_only_adds_nothing(s: WorkspaceState, f: WorkspaceFacts, code: Code)
    requires
        f.analysis_only,
    ensures
        !(main_step(s, f, code).1 is AddSelected),
        main_step(s, f, code).1 != Action::AddQuickWins,
        main_step(s, f, code).1 != Action::OpenRelocation,
        layer_of(s, f, code) != Layer::StartClearingHistory,
{
}

/// `p` opens the plan review unless the coverage view holds the key.
pub proof fn lemma_p_opens_the_review(s: WorkspaceState, f: WorkspaceFacts)
    requires
        !s.coverage,
    ensures
        main_step(s, f, Code::Char('p')) == (
            WorkspaceState { reviewing: true, ..s },
            Action::Review { stop_investigation: f.automatic_investigation },
        ),
{
}

} // verus!
