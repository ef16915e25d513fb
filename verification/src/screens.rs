//! The list screens beside the storage view: the process review, the choice
//! of a folder to move, and the destination typed for it. Each takes the
//! keys that the routing hands to its screen and says what the program must
//! run next.
use vstd::prelude::*;
use crate::display::{expand_user_path, expanded_path};
use crate::path::{path_starts_with, starts_with_path};
use crate::session::{utf8_len, utf8_shorter_than};
use crate::shell::{Code, ShellKey};
use crate::text::{string_of, trim, trim_chars};

verus! {

// ---------------------------------------------------------------------------
// Moving through a list
// ---------------------------------------------------------------------------

/// The last row of a list of `len` rows (the first when it is empty).
pub open spec fn last_row(len: int) -> int {
    if len == 0 {
        0
    } else {
        len - 1
    }
}

/// A cursor moved down `step` rows, at most to the last row.
pub open spec fn down_rows(cursor: usize, step: int, len: int) -> usize {
    if cursor + step < last_row(len) {
        (cursor + step) as usize
    } else {
        last_row(len) as usize
    }
}

/// A cursor moved up `step` rows, at most to the first row.
pub open spec fn up_rows(cursor: usize, step: int) -> usize {
    if cursor < step {
        0
    } else {
        (cursor - step) as usize
    }
}

/// Where the list keys put the cursor: a row or ten rows up or down, the
/// first or the last row; `None` for the other keys.
pub open spec fn list_moved(cursor: usize, len: int, code: Code) -> Option<usize> {
    match code {
        Code::Up => Some(up_rows(cursor, 1)),
        Code::Down => Some(down_rows(cursor, 1, len)),
        Code::Char(c) => if c == 'k' {
            Some(up_rows(cursor, 1))
        } else if c == 'j' {
            Some(down_rows(cursor, 1, len))
        } else {
            None
        },
        Code::PageUp => Some(up_rows(cursor, 10)),
        Code::PageDown => Some(down_rows(cursor, 10, len)),
        Code::Home => Some(0),
        Code::End => Some(last_row(len) as usize),
        _ => None,
    }
}

/// A cursor moved down `step` rows.
fn move_down(cursor: usize, step: usize, len: usize) -> (res: usize)
    ensures
        res == down_rows(cursor, step as int, len as int),
{
    let last = if len == 0 {
        0
    } else {
        len - 1
    };
    if cursor < last && last - cursor > step {
        cursor + step
    } else {
        last
    }
}

/// A cursor moved up `step` rows.
fn move_up(cursor: usize, step: usize) -> (res: usize)
    ensures
        res == up_rows(cursor, step as int),
{
    if cursor < step {
        0
    } else {
        cursor - step
    }
}

/// The cursor after a list key, if `code` is one.
pub fn list_key(cursor: usize, len: usize, code: Code) -> (res: Option<usize>)
    ensures
        res == list_moved(cursor, len as int, code),
{
    match code {
        Code::Up => Some(move_up(cursor, 1)),
        Code::Down => Some(move_down(cursor, 1, len)),
        Code::Char(c) => if c == 'k' {
            Some(move_up(cursor, 1))
        } else if c == 'j' {
            Some(move_down(cursor, 1, len))
        } else {
            None
        },
        Code::PageUp => Some(move_up(cursor, 10)),
        Code::PageDown => Some(move_down(cursor, 10, len)),
        Code::Home => Some(0),
        Code::End => Some(
            if len == 0 {
                0
            } else {
                len - 1
            },
        ),
        _ => None,
    }
}

// ---------------------------------------------------------------------------
// The process review
// ---------------------------------------------------------------------------

/// The processes listed for review: the cursor, whether each may be sent a
/// signal now (it allows one and has not exited), and the process a signal
/// is being confirmed for.
pub struct ProcessReview {
    pub cursor: usize,
    pub may_signal: Vec<bool>,
    pub target: Option<usize>,
}

/// The content of a process review.
pub struct ProcessReviewView {
    pub cursor: usize,
    pub may_signal: Seq<bool>,
    pub target: Option<usize>,
}

impl View for ProcessReview {
    type V = ProcessReviewView;

    open spec fn view(&self) -> ProcessReviewView {
        ProcessReviewView { cursor: self.cursor, may_signal: self.may_signal@, target: self.target }
    }
}

/// What the program must do after a key on the process review.
#[derive(PartialEq, Eq, Structural, Clone, Copy, Debug)]
pub enum ProcessCommand {
    Nothing,
    /// List the processes again.
    Refresh,
    /// Switch to cleaning mode and ask to confirm the signal for the target.
    Confirm,
    /// Go to the first section.
    GoHome,
    Quit,
}

/// A key on the process review: the list keys move the cursor; `r` lists
/// the processes again; `d` asks to confirm a signal for the process under
/// the cursor when it may be signalled and the session may change things;
/// Esc goes to the first section; `q` quits.
pub open spec fn process_step(s: ProcessReviewView, code: Code, analysis_only: bool) -> (
    ProcessReviewView,
    ProcessCommand,
) {
    match list_moved(s.cursor, s.may_signal.len() as int, code) {
        Some(c) => (ProcessReviewView { cursor: c, ..s }, ProcessCommand::Nothing),
        None => if code == Code::Char('r') {
            (s, ProcessCommand::Refresh)
        } else if (code == Code::Char('d') || code == Code::Char('D')) && !analysis_only {
            if s.cursor < s.may_signal.len() && s.may_signal[s.cursor as int] {
                (ProcessReviewView { target: Some(s.cursor), ..s }, ProcessCommand::Confirm)
            } else {
                (s, ProcessCommand::Nothing)
            }
        } else if code == Code::Esc {
            (s, ProcessCommand::GoHome)
        } else if code == Code::Char('q') {
            (s, ProcessCommand::Quit)
        } else {
            (s, ProcessCommand::Nothing)
        },
    }
}

impl ProcessReview {
    /// A key on the process review.
    pub fn handle_key(&mut self, code: Code, analysis_only: bool) -> (res: ProcessCommand)
        ensures
            (final(self)@, res) == process_step(old(self)@, code, analysis_only),
    {
        if let Some(c) = list_key(self.cursor, self.may_signal.len(), code) {
            self.cursor = c;
            return ProcessCommand::Nothing;
        }
        if code == Code::Char('r') {
            ProcessCommand::Refresh
        } else if (code == Code::Char('d') || code == Code::Char('D')) && !analysis_only {
            if self.cursor < self.may_signal.len() && self.may_signal[self.cursor] {
                self.target = Some(self.cursor);
                ProcessCommand::Confirm
            } else {
                ProcessCommand::Nothing
            }
        } else if code == Code::Esc {
            ProcessCommand::GoHome
        } else if code == Code::Char('q') {
            ProcessCommand::Quit
        } else {
            ProcessCommand::Nothing
        }
    }

    /// The processes were listed again: the cursor stays on the list and no
    /// signal is pending.
    pub fn refreshed(&mut self, may_signal: Vec<bool>)
        ensures
            final(self)@ == (ProcessReviewView {
                cursor: if old(self).cursor < last_row(may_signal@.len() as int) {
                    old(self).cursor
                } else {
                    last_row(may_signal@.len() as int) as usize
                },
                may_signal: may_signal@,
                target: None,
            }),
    {
        let last = if may_signal.len() == 0 {
            0
        } else {
            may_signal.len() - 1
        };
        if self.cursor >= last {
            self.cursor = last;
        }
        self.may_signal = may_signal;
        self.target = None;
    }

    /// The process the signal was confirmed for, which is no longer
    /// pending afterwards.
    pub fn take_target(&mut self) -> (res: Option<usize>)
        ensures
            res == old(self).target,
            final(self)@ == (ProcessReviewView { target: None, ..old(self)@ }),
    {
        let t = self.target;
        self.target = None;
        t
    }
}

/// A confirmation is only pending for a process that may be signalled, and
/// only in a session that may change things.
pub proof fn lemma_signal_needs_permission(s: ProcessReviewView, code: Code, analysis_only: bool)
    ensures
        process_step(s, code, analysis_only).1 == ProcessCommand::Confirm ==> {
            &&& !analysis_only
            &&& s.cursor < s.may_signal.len()
            &&& s.may_signal[s.cursor as int]
            &&& process_step(s, code, analysis_only).0.target == Some(s.cursor)
        },
{
}

// ---------------------------------------------------------------------------
// The folder to move
// ---------------------------------------------------------------------------

/// What the program must do after a key on the list of folders to move.
#[derive(PartialEq, Eq, Structural, Clone, Copy, Debug)]
pub enum SourceCommand {
    Nothing,
    /// Move the folder at this position.
    Choose(usize),
    /// Back to the storage view.
    Back,
    Quit,
}

/// A key on the list of `count` folders to move: the list keys move the
/// cursor; Enter chooses the folder under it, if there is one; Esc goes
/// back; `q` quits.
pub open spec fn source_step(cursor: usize, count: usize, code: Code) -> (usize, SourceCommand) {
    match list_moved(cursor, count as int, code) {
        Some(c) => (c, SourceCommand::Nothing),
        None => if code == Code::Enter {
            (
                cursor,
                if cursor < count {
                    SourceCommand::Choose(cursor)
                } else {
                    SourceCommand::Nothing
                },
            )
        } else if code == Code::Esc {
            (cursor, SourceCommand::Back)
        } else if code == Code::Char('q') {
            (cursor, SourceCommand::Quit)
        } else {
            (cursor, SourceCommand::Nothing)
        },
    }
}

/// A key on the list of folders to move; returns the new cursor and what
/// to do.
pub fn handle_source_key(cursor: usize, count: usize, code: Code) -> (res: (usize, SourceCommand))
    ensures
        res == source_step(cursor, count, code),
{
    if let Some(c) = list_key(cursor, count, code) {
        return (c, SourceCommand::Nothing);
    }
    if code == Code::Enter {
        if cursor < count {
            (cursor, SourceCommand::Choose(cursor))
        } else {
            (cursor, SourceCommand::Nothing)
        }
    } else if code == Code::Esc {
        (cursor, SourceCommand::Back)
    } else if code == Code::Char('q') {
        (cursor, SourceCommand::Quit)
    } else {
        (cursor, SourceCommand::Nothing)
    }
}

/// A volume offered as a destination: its mount path, and whether it is a
/// USB or a network volume.
pub struct Volume {
    pub path: String,
    pub usb: bool,
    pub network: bool,
}

/// A volume under `/Volumes` that passes `usb_only`.
pub open spec fn suits(v: Volume, usb_only: bool) -> bool {
    path_starts_with(v.path@, "/Volumes"@) && if usb_only {
        v.usb
    } else {
        !v.network
    }
}

/// The position of the first volume that suits.
pub open spec fn first_suiting(vols: Seq<Volume>, usb_only: bool) -> Option<int>
    decreases vols.len(),
{
    if vols.len() == 0 {
        None
    } else if suits(vols[0], usb_only) {
        Some(0)
    } else {
        match first_suiting(vols.drop_first(), usb_only) {
            Some(i) => Some(i + 1),
            None => None,
        }
    }
}

/// The destination offered first: the first USB volume under `/Volumes`,
/// else the first one there that is not a network volume.
pub open spec fn default_destination_of(vols: Seq<Volume>) -> Option<Seq<char>> {
    match first_suiting(vols, true) {
        Some(i) => Some(vols[i].path@),
        None => match first_suiting(vols, false) {
            Some(i) => Some(vols[i].path@),
            None => None,
        },
    }
}

proof fn lemma_first_suiting_skip(vols: Seq<Volume>, usb_only: bool, i: int)
    requires
        0 <= i < vols.len(),
        !suits(vols[i], usb_only),
    ensures
        first_suiting(vols.skip(i), usb_only) == match first_suiting(vols.skip(i + 1), usb_only) {
            Some(j) => Some(j + 1),
            None => None::<int>,
        },
{
    assert(vols.skip(i).drop_first() =~= vols.skip(i + 1));
}

/// The position of the first volume that suits.
fn find_suiting(vols: &Vec<Volume>, usb_only: bool) -> (res: Option<usize>)
    ensures
        match res {
            Some(i) => first_suiting(vols@, usb_only) == Some(i as int) && i < vols@.len(),
            None => first_suiting(vols@, usb_only) is None,
        },
{
    let mut i: usize = 0;
    assert(vols@.skip(0) =~= vols@);
    while i < vols.len()
        invariant
            i <= vols@.len(),
            first_suiting(vols@, usb_only) == match first_suiting(vols@.skip(i as int), usb_only) {
                Some(j) => Some(j + i),
                None => None::<int>,
            },
        decreases vols@.len() - i,
    {
        let v = &vols[i];
        let ok = starts_with_path(v.path.as_str(), "/Volumes") && if usb_only {
            v.usb
        } else {
            !v.network
        };
        if ok {
            assert(vols@.skip(i as int)[0] == vols@[i as int]);
            return Some(i);
        }
        proof {
            lemma_first_suiting_skip(vols@, usb_only, i as int);
        }
        i = i + 1;
    }
    assert(vols@.skip(i as int).len() == 0);
    None
}

/// The destination offered first for a move.
pub fn default_destination(vols: &Vec<Volume>) -> (res: Option<String>)
    ensures
        match res {
            Some(p) => default_destination_of(vols@) == Some(p@),
            None => default_destination_of(vols@) is None,
        },
{
    match find_suiting(vols, true) {
        Some(i) => Some(vols[i].path.clone()),
        None => match find_suiting(vols, false) {
            Some(i) => Some(vols[i].path.clone()),
            None => None,
        },
    }
}

// ---------------------------------------------------------------------------
// The destination
// ---------------------------------------------------------------------------

/// The longest destination that can be typed, in UTF-8 bytes.
pub const DESTINATION_LIMIT: u64 = 4096;

/// The destination being typed, and the error shown under it.
pub struct DestinationInput {
    pub text: Vec<char>,
    pub error: Option<String>,
}

/// The content of a destination input.
pub struct DestinationView {
    pub text: Seq<char>,
    pub error: Option<Seq<char>>,
}

impl View for DestinationInput {
    type V = DestinationView;

    open spec fn view(&self) -> DestinationView {
        DestinationView { text: self.text@, error: crate::session::opt_view(self.error) }
    }
}

/// What the program must do after a key on the destination.
#[derive(PartialEq, Eq, Structural, Clone, Copy, Debug)]
pub enum DestinationCommand {
    Nothing,
    /// Plan the move to the typed destination.
    StartPlan,
    /// Back to the list of folders.
    Back,
    Quit,
}

/// A key on the destination: Backspace deletes the last character; Enter
/// plans the move; Esc goes back; `q` quits while nothing is typed; any
/// other character without Control or Alt is typed while the text is
/// shorter than the limit. Editing clears the error.
pub open spec fn destination_step(s: DestinationView, k: ShellKey) -> (
    DestinationView,
    DestinationCommand,
) {
    match k.code {
        Code::Backspace => (
            DestinationView {
                text: if s.text.len() > 0 {
                    s.text.drop_last()
                } else {
                    s.text
                },
                error: None,
            },
            DestinationCommand::Nothing,
        ),
        Code::Enter => (s, DestinationCommand::StartPlan),
        Code::Esc => (DestinationView { error: None, ..s }, DestinationCommand::Back),
        Code::Char(c) => if c == 'q' && s.text.len() == 0 {
            (s, DestinationCommand::Quit)
        } else if !k.control && !k.alt && utf8_len(s.text) < DESTINATION_LIMIT {
            (DestinationView { text: s.text.push(c), error: None }, DestinationCommand::Nothing)
        } else {
            (s, DestinationCommand::Nothing)
        },
        _ => (s, DestinationCommand::Nothing),
    }
}

/// How planning a move starts.
pub enum PlanStart {
    /// No folder was chosen: back to the list of folders.
    ChooseSource,
    /// Nothing was typed; the error says so.
    Missing,
    /// Plan the move to this destination.
    Plan(String),
}

/// The error shown when no destination was typed.
pub open spec fn missing_destination_note() -> Seq<char> {
    "Enter an existing directory on the external volume."@
}

impl DestinationInput {
    /// A key on the destination.
    pub fn handle_key(&mut self, k: ShellKey) -> (res: DestinationCommand)
        ensures
            (final(self)@, res) == destination_step(old(self)@, k),
    {
        match k.code {
            Code::Backspace => {
                self.text.pop();
                self.error = None;
                DestinationCommand::Nothing
            },
            Code::Enter => DestinationCommand::StartPlan,
            Code::Esc => {
                self.error = None;
                DestinationCommand::Back
            },
            Code::Char(c) => {
                if c == 'q' && self.text.len() == 0 {
                    DestinationCommand::Quit
                } else if !k.control && !k.alt && utf8_shorter_than(&self.text, DESTINATION_LIMIT) {
                    self.text.push(c);
                    self.error = None;
                    DestinationCommand::Nothing
                } else {
                    DestinationCommand::Nothing
                }
            },
            _ => DestinationCommand::Nothing,
        }
    }

    /// Starts planning the move: without a chosen folder it goes back to
    /// the list; with nothing typed (blanks aside) it shows an error; else
    /// it plans the move to the typed path, `~` standing for the account's
    /// home, and clears the error.
    pub fn start_plan(&mut self, has_source: bool, account_home: &str) -> (res: PlanStart)
        ensures
            !has_source ==> res is ChooseSource && final(self)@ == old(self)@,
            has_source && trim(old(self).text@).len() == 0 ==> res is Missing && final(self)@
                == (DestinationView { error: Some(missing_destination_note()), ..old(self)@ }),
            has_source && trim(old(self).text@).len() > 0 ==> final(self)@ == (DestinationView {
                error: None,
                ..old(self)@
            }) && match res {
                PlanStart::Plan(d) => d@ == expanded_path(trim(old(self).text@), account_home@),
                _ => false,
            },
    {
        if !has_source {
            return PlanStart::ChooseSource;
        }
        let trimmed = trim_chars(&self.text);
        if trimmed.len() == 0 {
            self.error = Some(
                crate::text::owned("Enter an existing directory on the external volume."),
            );
            return PlanStart::Missing;
        }
        let typed = string_of(&trimmed);
        let destination = expand_user_path(typed.as_str(), account_home);
        self.error = None;
        PlanStart::Plan(destination)
    }
}

} // verus!
