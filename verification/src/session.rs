//! The cache-cleanup review: the states of the interactive session, and
//! what each key press does to them. The session decides; the program runs
//! what it asks for (scanning, revealing in Finder, measuring free space,
//! deleting) and reports back.
use vstd::prelude::*;
use vstd::relations::{sorted_by, transitive, strongly_connected};
use crate::sort::{merge_sort, sort_vec, views, SortKey};

verus! {

// ---------------------------------------------------------------------------
// The session's values
// ---------------------------------------------------------------------------

/// What the scan found at a cache location.
#[derive(PartialEq, Eq, Structural, Clone, Copy, Debug)]
pub enum EntryStatus {
    /// Safe to clean.
    Ready,
    /// Cleanable after an explicit opt-in.
    Optional,
    /// App data that only an advanced, typed confirmation deletes.
    Review,
    /// An owning process is running.
    InUse,
    /// The user's whitelist protects it.
    Whitelisted,
    /// Nothing is there.
    Missing,
    /// The location could not be measured completely.
    ScanError,
    /// The location is a symbolic link.
    Symlink,
    /// The location failed a safety check.
    Invalid,
}

/// One measured cache location.
#[derive(PartialEq, Eq, Structural, Clone, Copy, Debug)]
pub struct EntryState {
    pub status: EntryStatus,
    pub size_kb: u64,
    /// A cleanup outcome has been recorded for it.
    pub cleaned: bool,
}

/// Whether deletions may be chosen.
#[derive(PartialEq, Eq, Structural, Clone, Copy, Debug)]
pub enum Mode {
    Analyze,
    Clean,
}

/// The screen the session is on.
#[derive(PartialEq, Eq, Structural, Clone, Copy, Debug)]
pub enum Phase {
    Location,
    Scanning,
    Review,
    Details,
    Confirm,
    ReviewConfirm,
    Cleaning,
    Summary,
}

/// What a cleanup deletes.
#[derive(PartialEq, Eq, Structural, Clone, Copy, Debug)]
pub enum CleanupKind {
    /// The selected caches.
    Cache,
    /// One app-data location, after the typed confirmation.
    ReviewData,
}

/// A key of the keyboard, as far as the session tells them apart.
#[derive(PartialEq, Eq, Structural, Clone, Copy, Debug)]
pub enum Key {
    Char(char),
    Enter,
    Esc,
    Up,
    Down,
    Home,
    End,
    Backspace,
    Other,
}

/// A key event: the key, whether it is a press (not a release or repeat),
/// and the Control and Alt modifiers.
#[derive(PartialEq, Eq, Structural, Clone, Copy, Debug)]
pub struct KeyInput {
    pub key: Key,
    pub press: bool,
    pub control: bool,
    pub alt: bool,
}

/// What the program must do after a key press.
#[derive(PartialEq, Eq, Structural, Clone, Copy, Debug)]
pub enum Effect {
    /// Nothing beyond the new state.
    Nothing,
    /// Stop the running scan task and forget its progress.
    CancelScan,
    /// Start the scan again from the first location.
    RestartScan,
    /// Scan the location at this position of the location list.
    ChooseLocation(usize),
    /// Reveal the entry at this position in Finder.
    Reveal(usize),
    /// Measure the free space and start cleaning the queue.
    BeginCleanup,
    /// Measure the free space and show the summary.
    FinishCleanup,
}

/// The state of a cleanup review.
pub struct CleanupSession {
    pub mode: Mode,
    /// Started with `--analyze`: nothing may be deleted.
    pub analysis_only: bool,
    pub include_reinstallable: bool,
    pub phase: Phase,
    pub location_count: usize,
    pub location_cursor: usize,
    pub entries: Vec<EntryState>,
    pub cursor: usize,
    /// The chosen entries: position `i` is chosen when `selected[i]` holds.
    pub selected: Vec<bool>,
    pub cleanup_queue: Vec<usize>,
    pub cleanup_index: usize,
    pub cleanup_kind: CleanupKind,
    pub review_target: Option<usize>,
    /// What has been typed to confirm an advanced deletion.
    pub confirmation: Vec<char>,
    pub confirmation_error: bool,
    pub stopped_early: bool,
    pub status_message: Option<String>,
    pub quit: bool,
}

/// The content of a session.
pub struct SessionView {
    pub mode: Mode,
    pub analysis_only: bool,
    pub include_reinstallable: bool,
    pub phase: Phase,
    pub location_count: usize,
    pub location_cursor: usize,
    pub entries: Seq<EntryState>,
    pub cursor: usize,
    pub selected: Seq<bool>,
    pub cleanup_queue: Seq<usize>,
    pub cleanup_index: usize,
    pub cleanup_kind: CleanupKind,
    pub review_target: Option<usize>,
    pub confirmation: Seq<char>,
    pub confirmation_error: bool,
    pub stopped_early: bool,
    pub status_message: Option<Seq<char>>,
    pub quit: bool,
}

/// The view of an optional string.
pub open spec fn opt_view(s: Option<String>) -> Option<Seq<char>> {
    match s {
        Some(t) => Some(t@),
        None => None,
    }
}

impl View for CleanupSession {
    type V = SessionView;

    open spec fn view(&self) -> SessionView {
        SessionView {
            mode: self.mode,
            analysis_only: self.analysis_only,
            include_reinstallable: self.include_reinstallable,
            phase: self.phase,
            location_count: self.location_count,
            location_cursor: self.location_cursor,
            entries: self.entries@,
            cursor: self.cursor,
            selected: self.selected@,
            cleanup_queue: self.cleanup_queue@,
            cleanup_index: self.cleanup_index,
            cleanup_kind: self.cleanup_kind,
            review_target: self.review_target,
            confirmation: self.confirmation@,
            confirmation_error: self.confirmation_error,
            stopped_early: self.stopped_early,
            status_message: opt_view(self.status_message),
            quit: self.quit,
        }
    }
}

// ---------------------------------------------------------------------------
// The selection
// ---------------------------------------------------------------------------

/// Position `i` is chosen.
pub open spec fn is_marked(bits: Seq<bool>, i: int) -> bool {
    0 <= i < bits.len() && bits[i]
}

/// Chooses position `i`.
pub open spec fn mark(bits: Seq<bool>, i: int) -> Seq<bool> {
    if i < bits.len() {
        bits.update(i, true)
    } else {
        bits + Seq::new((i - bits.len()) as nat, |j: int| false) + seq![true]
    }
}

/// Leaves position `i` out.
pub open spec fn unmark(bits: Seq<bool>, i: int) -> Seq<bool> {
    if 0 <= i < bits.len() {
        bits.update(i, false)
    } else {
        bits
    }
}

/// Nothing is chosen.
pub open spec fn none_marked(bits: Seq<bool>) -> bool {
    forall|i: int| 0 <= i < bits.len() ==> !#[trigger] bits[i]
}

/// The chosen positions in increasing order.
pub open spec fn marked(bits: Seq<bool>) -> Seq<usize>
    decreases bits.len(),
{
    if bits.len() == 0 {
        Seq::empty()
    } else if bits.last() {
        marked(bits.drop_last()).push((bits.len() - 1) as usize)
    } else {
        marked(bits.drop_last())
    }
}


// ---------------------------------------------------------------------------
// What a key press does
// ---------------------------------------------------------------------------

/// `n - 1`, or zero.
pub open spec fn dec(n: int) -> usize {
    if n <= 0 {
        0
    } else {
        (n - 1) as usize
    }
}

/// The entry at `i` is a non-empty, not yet cleaned location with status
/// `status`.
pub open spec fn entry_is(entries: Seq<EntryState>, i: int, status: EntryStatus) -> bool {
    0 <= i < entries.len() && entries[i].status == status && entries[i].size_kb > 0
        && !entries[i].cleaned
}

/// The entry at `i` may be chosen for a cleanup of safe caches.
pub open spec fn selectable(entries: Seq<EntryState>, i: int) -> bool {
    entry_is(entries, i, EntryStatus::Ready)
}

/// The selection with every selectable entry below `n` chosen as well, in
/// increasing order.
pub open spec fn mark_selectable(entries: Seq<EntryState>, bits: Seq<bool>, n: int) -> Seq<bool>
    decreases n,
{
    if n <= 0 {
        bits
    } else {
        let before = mark_selectable(entries, bits, n - 1);
        if selectable(entries, n - 1) {
            mark(before, n - 1)
        } else {
            before
        }
    }
}

/// At least one entry is selectable and every selectable entry is chosen.
pub open spec fn all_selectable_marked(entries: Seq<EntryState>, bits: Seq<bool>) -> bool {
    (exists|i: int| selectable(entries, i)) && forall|i: int|
        selectable(entries, i) ==> is_marked(bits, i)
}

/// The number of bytes of `c` in UTF-8.
pub open spec fn utf8_width(c: char) -> nat {
    if (c as u32) < 0x80 {
        1
    } else if (c as u32) < 0x800 {
        2
    } else if (c as u32) < 0x10000 {
        3
    } else {
        4
    }
}

/// The number of bytes of a text in UTF-8.
pub open spec fn utf8_len(s: Seq<char>) -> nat
    decreases s.len(),
{
    if s.len() == 0 {
        0
    } else {
        utf8_len(s.drop_last()) + utf8_width(s.last())
    }
}

/// The word that confirms an advanced deletion.
pub open spec fn delete_word() -> Seq<char> {
    seq!['D', 'E', 'L', 'E', 'T', 'E']
}

/// Entries and selection forgotten, back to the first row.
pub open spec fn cleared(s: SessionView, phase: Phase) -> SessionView {
    SessionView { entries: Seq::empty(), selected: Seq::empty(), cursor: 0, phase, ..s }
}

/// The scan starts again.
pub open spec fn restarted(s: SessionView) -> (SessionView, Effect) {
    (SessionView { status_message: None, ..cleared(s, Phase::Scanning) }, Effect::RestartScan)
}

/// Cleaning stops early: the queue is cut at what was done.
pub open spec fn stopped(s: SessionView) -> (SessionView, Effect) {
    (
        SessionView {
            stopped_early: true,
            cleanup_queue: s.cleanup_queue.take(
                if s.cleanup_index < s.cleanup_queue.len() {
                    s.cleanup_index as int
                } else {
                    s.cleanup_queue.len() as int
                },
            ),
            phase: Phase::Summary,
            ..s
        },
        Effect::FinishCleanup,
    )
}

/// The advanced-deletion prompt opens for the current entry when it is app
/// data; otherwise nothing changes.
pub open spec fn review_prompt(s: SessionView) -> SessionView {
    if entry_is(s.entries, s.cursor as int, EntryStatus::Review) {
        SessionView {
            review_target: Some(s.cursor),
            confirmation: Seq::empty(),
            confirmation_error: false,
            phase: Phase::ReviewConfirm,
            ..s
        }
    } else {
        s
    }
}

/// Every selectable entry is chosen, and the confirmation opens when there
/// is one.
pub open spec fn safe_cleanup(s: SessionView) -> SessionView {
    let bits = mark_selectable(s.entries, Seq::empty(), s.entries.len() as int);
    SessionView {
        mode: Mode::Clean,
        selected: bits,
        phase: if none_marked(bits) {
            Phase::Review
        } else {
            Phase::Confirm
        },
        ..s
    }
}

/// The entry under the cursor is revealed, when there is one.
pub open spec fn revealed(s: SessionView) -> (SessionView, Effect) {
    if s.cursor < s.entries.len() {
        (s, Effect::Reveal(s.cursor))
    } else {
        (s, Effect::Nothing)
    }
}

/// A key on the location list.
pub open spec fn location_step(s: SessionView, key: Key) -> (SessionView, Effect) {
    match key {
        Key::Up | Key::Char('k') => (
            SessionView { location_cursor: dec(s.location_cursor as int), ..s },
            Effect::Nothing,
        ),
        Key::Down | Key::Char('j') => (
            SessionView {
                location_cursor: if s.location_cursor + 1 < dec(s.location_count as int) {
                    (s.location_cursor + 1) as usize
                } else {
                    dec(s.location_count as int)
                },
                ..s
            },
            Effect::Nothing,
        ),
        Key::Home => (SessionView { location_cursor: 0, ..s }, Effect::Nothing),
        Key::End => (
            SessionView { location_cursor: dec(s.location_count as int), ..s },
            Effect::Nothing,
        ),
        Key::Enter => if s.location_cursor < s.location_count {
            (restarted(s).0, Effect::ChooseLocation(s.location_cursor))
        } else {
            (s, Effect::Nothing)
        },
        Key::Char('q') | Key::Esc => if s.entries.len() == 0 {
            (SessionView { quit: true, ..s }, Effect::Nothing)
        } else {
            (SessionView { phase: Phase::Review, ..s }, Effect::Nothing)
        },
        _ => (s, Effect::Nothing),
    }
}

/// A key on the list of measured entries.
pub open spec fn review_step(s: SessionView, key: Key) -> (SessionView, Effect) {
    let last = dec(s.entries.len() as int);
    if key == Key::Up || key == Key::Char('k') {
        (SessionView { cursor: dec(s.cursor as int), status_message: None, ..s }, Effect::Nothing)
    } else if key == Key::Down || key == Key::Char('j') {
        (
            SessionView {
                cursor: if s.cursor + 1 < last {
                    (s.cursor + 1) as usize
                } else {
                    last
                },
                status_message: None,
                ..s
            },
            Effect::Nothing,
        )
    } else if key == Key::Home {
        (SessionView { cursor: 0, status_message: None, ..s }, Effect::Nothing)
    } else if key == Key::End {
        (SessionView { cursor: last, status_message: None, ..s }, Effect::Nothing)
    } else if key == Key::Char(' ') && s.mode == Mode::Clean {
        if !selectable(s.entries, s.cursor as int) {
            (s, Effect::Nothing)
        } else if is_marked(s.selected, s.cursor as int) {
            (SessionView { selected: unmark(s.selected, s.cursor as int), ..s }, Effect::Nothing)
        } else {
            (SessionView { selected: mark(s.selected, s.cursor as int), ..s }, Effect::Nothing)
        }
    } else if key == Key::Char('a') && s.mode == Mode::Clean {
        if all_selectable_marked(s.entries, s.selected) {
            (SessionView { selected: Seq::empty(), ..s }, Effect::Nothing)
        } else {
            (
                SessionView {
                    selected: mark_selectable(s.entries, s.selected, s.entries.len() as int),
                    ..s
                },
                Effect::Nothing,
            )
        }
    } else if (key == Key::Char('d') || key == Key::Char('D')) && !s.analysis_only && entry_is(
        s.entries,
        s.cursor as int,
        EntryStatus::Review,
    ) {
        (review_prompt(SessionView { mode: Mode::Clean, ..s }), Effect::Nothing)
    } else if (key == Key::Char('c') || key == Key::Char('C')) && !s.analysis_only {
        (safe_cleanup(s), Effect::Nothing)
    } else if key == Key::Char('i') {
        restarted(SessionView { include_reinstallable: !s.include_reinstallable, ..s })
    } else if key == Key::Char('o') || key == Key::Char('O') {
        revealed(s)
    } else if key == Key::Char('r') {
        restarted(s)
    } else if key == Key::Char('v') {
        (SessionView { phase: Phase::Location, ..s }, Effect::Nothing)
    } else if key == Key::Enter && s.mode == Mode::Clean && !none_marked(s.selected) {
        (SessionView { phase: Phase::Confirm, ..s }, Effect::Nothing)
    } else if key == Key::Enter && s.cursor < s.entries.len() {
        (SessionView { phase: Phase::Details, ..s }, Effect::Nothing)
    } else if key == Key::Char('q') || key == Key::Esc {
        (SessionView { quit: true, ..s }, Effect::Nothing)
    } else {
        (s, Effect::Nothing)
    }
}

/// The details of one entry are open.
pub open spec fn details_step(s: SessionView, key: Key) -> (SessionView, Effect) {
    if (key == Key::Char('d') || key == Key::Char('D')) && !s.analysis_only && entry_is(
        s.entries,
        s.cursor as int,
        EntryStatus::Review,
    ) {
        (review_prompt(SessionView { mode: Mode::Clean, ..s }), Effect::Nothing)
    } else if (key == Key::Char('c') || key == Key::Char('C')) && !s.analysis_only {
        (safe_cleanup(s), Effect::Nothing)
    } else if key == Key::Char('o') || key == Key::Char('O') {
        revealed(s)
    } else if key == Key::Enter || key == Key::Esc {
        (SessionView { phase: Phase::Review, ..s }, Effect::Nothing)
    } else if key == Key::Char('q') {
        (SessionView { quit: true, ..s }, Effect::Nothing)
    } else {
        (s, Effect::Nothing)
    }
}

/// The cleanup of the chosen entries starts, in increasing order.
pub open spec fn cleanup_started(s: SessionView) -> (SessionView, Effect) {
    (
        SessionView {
            cleanup_queue: marked(s.selected),
            cleanup_index: 0,
            cleanup_kind: CleanupKind::Cache,
            phase: Phase::Cleaning,
            ..s
        },
        Effect::BeginCleanup,
    )
}

/// The typed confirmation was accepted: the target is deleted if it is
/// still app data, else the list comes back.
pub open spec fn review_cleanup_started(s: SessionView) -> (SessionView, Effect) {
    match s.review_target {
        None => (SessionView { phase: Phase::Review, ..s }, Effect::Nothing),
        Some(t) => if !entry_is(s.entries, t as int, EntryStatus::Review) {
            (SessionView { review_target: None, phase: Phase::Review, ..s }, Effect::Nothing)
        } else {
            (
                SessionView {
                    review_target: None,
                    cleanup_queue: seq![t],
                    cleanup_index: 0,
                    cleanup_kind: CleanupKind::ReviewData,
                    confirmation: Seq::empty(),
                    confirmation_error: false,
                    phase: Phase::Cleaning,
                    ..s
                },
                Effect::BeginCleanup,
            )
        },
    }
}

/// A key while `DELETE` is being typed.
pub open spec fn confirmation_step(s: SessionView, k: KeyInput) -> (SessionView, Effect) {
    match k.key {
        Key::Esc => (
            SessionView {
                review_target: None,
                confirmation: Seq::empty(),
                confirmation_error: false,
                phase: Phase::Review,
                ..s
            },
            Effect::Nothing,
        ),
        Key::Backspace => (
            SessionView {
                confirmation: if s.confirmation.len() > 0 {
                    s.confirmation.drop_last()
                } else {
                    s.confirmation
                },
                confirmation_error: false,
                ..s
            },
            Effect::Nothing,
        ),
        Key::Enter => if s.confirmation == delete_word() {
            review_cleanup_started(s)
        } else {
            (SessionView { confirmation_error: true, ..s }, Effect::Nothing)
        },
        Key::Char(c) => if !k.control && !k.alt && utf8_len(s.confirmation) < 6 {
            (
                SessionView {
                    confirmation: s.confirmation.push(crate::text::ascii_upper(c)),
                    confirmation_error: false,
                    ..s
                },
                Effect::Nothing,
            )
        } else {
            (s, Effect::Nothing)
        },
        _ => (s, Effect::Nothing),
    }
}

/// What a key event does to the session, and what the program must do.
pub open spec fn key_step(s: SessionView, k: KeyInput) -> (SessionView, Effect) {
    if !k.press {
        (s, Effect::Nothing)
    } else if k.control && k.key == Key::Char('c') {
        if s.phase == Phase::Cleaning {
            stopped(s)
        } else {
            (SessionView { quit: true, ..s }, Effect::Nothing)
        }
    } else {
        match s.phase {
            Phase::Location => location_step(s, k.key),
            Phase::Scanning => if k.key == Key::Esc {
                (cleared(s, Phase::Location), Effect::CancelScan)
            } else if k.key == Key::Char('q') {
                (SessionView { quit: true, ..s }, Effect::Nothing)
            } else {
                (s, Effect::Nothing)
            },
            Phase::Review => review_step(s, k.key),
            Phase::Details => details_step(s, k.key),
            Phase::Confirm => if k.key == Key::Char('y') || k.key == Key::Char('Y') {
                cleanup_started(s)
            } else if k.key == Key::Char('n') || k.key == Key::Char('N') || k.key == Key::Esc {
                (SessionView { phase: Phase::Review, ..s }, Effect::Nothing)
            } else {
                (s, Effect::Nothing)
            },
            Phase::ReviewConfirm => confirmation_step(s, k),
            Phase::Cleaning => if k.key == Key::Char('q') || k.key == Key::Esc {
                stopped(s)
            } else {
                (s, Effect::Nothing)
            },
            Phase::Summary => if k.key == Key::Char('q') || k.key == Key::Enter || k.key
                == Key::Esc {
                (SessionView { quit: true, ..s }, Effect::Nothing)
            } else {
                (s, Effect::Nothing)
            },
        }
    }
}

// ---------------------------------------------------------------------------
// Facts about the selection and the confirmation text
// ---------------------------------------------------------------------------

proof fn lemma_marked_step(bits: Seq<bool>, i: int)
    requires
        0 <= i < bits.len(),
    ensures
        marked(bits.take(i + 1)) == if bits[i] {
            marked(bits.take(i)).push(i as usize)
        } else {
            marked(bits.take(i))
        },
{
    assert(bits.take(i + 1).drop_last() =~= bits.take(i));
}

proof fn lemma_utf8_len_prefix(s: Seq<char>, i: int)
    requires
        0 <= i <= s.len(),
    ensures
        utf8_len(s.take(i)) <= utf8_len(s),
    decreases s.len() - i,
{
    if i < s.len() {
        lemma_utf8_len_prefix(s, i + 1);
        assert(s.take(i + 1).drop_last() =~= s.take(i));
    } else {
        assert(s.take(i) =~= s);
    }
}

/// The number of UTF-8 bytes of a character.
fn utf8_width_of(c: char) -> (res: u64)
    ensures
        res == utf8_width(c),
        1 <= res <= 4,
{
    let v = c as u32;
    if v < 0x80 {
        1
    } else if v < 0x800 {
        2
    } else if v < 0x10000 {
        3
    } else {
        4
    }
}

/// Whether a text takes fewer than `limit` bytes in UTF-8.
pub fn utf8_shorter_than(s: &Vec<char>, limit: u64) -> (res: bool)
    requires
        limit <= u64::MAX - 4,
    ensures
        res == (utf8_len(s@) < limit),
{
    let mut total: u64 = 0;
    let mut i: usize = 0;
    while i < s.len() && total < limit
        invariant
            i <= s@.len(),
            total == utf8_len(s@.take(i as int)),
            total <= limit + 3,
            limit <= u64::MAX - 4,
        decreases s@.len() - i,
    {
        assert(s@.take(i + 1).drop_last() =~= s@.take(i as int));
        total = total + utf8_width_of(s[i]);
        i = i + 1;
    }
    proof {
        lemma_utf8_len_prefix(s@, i as int);
        if i == s.len() {
            assert(s@.take(i as int) =~= s@);
        }
    }
    total < limit
}

/// Whether a text is shorter than six UTF-8 bytes.
fn shorter_than_six_bytes(s: &Vec<char>) -> (res: bool)
    ensures
        res == (utf8_len(s@) < 6),
{
    utf8_shorter_than(s, 6)
}

impl CleanupSession {
    /// A session before any location was scanned: on the location list, or
    /// already scanning when a volume was asked for on the command line.
    pub fn new(
        mode: Mode,
        analysis_only: bool,
        include_reinstallable: bool,
        location_count: usize,
        location_cursor: usize,
        volume_requested: bool,
    ) -> (res: CleanupSession)
        ensures
            res@ == (SessionView {
                mode,
                analysis_only,
                include_reinstallable,
                phase: if volume_requested {
                    Phase::Scanning
                } else {
                    Phase::Location
                },
                location_count,
                location_cursor,
                entries: Seq::empty(),
                cursor: 0,
                selected: Seq::empty(),
                cleanup_queue: Seq::empty(),
                cleanup_index: 0,
                cleanup_kind: CleanupKind::Cache,
                review_target: None,
                confirmation: Seq::empty(),
                confirmation_error: false,
                stopped_early: false,
                status_message: None,
                quit: false,
            }),
    {
        CleanupSession {
            mode,
            analysis_only,
            include_reinstallable,
            phase: if volume_requested {
                Phase::Scanning
            } else {
                Phase::Location
            },
            location_count,
            location_cursor,
            entries: Vec::new(),
            cursor: 0,
            selected: Vec::new(),
            cleanup_queue: Vec::new(),
            cleanup_index: 0,
            cleanup_kind: CleanupKind::Cache,
            review_target: None,
            confirmation: Vec::new(),
            confirmation_error: false,
            stopped_early: false,
            status_message: None,
            quit: false,
        }
    }

    /// Whether the entry at `index` is a non-empty, uncleaned location with
    /// the given status.
    fn entry_has(&self, index: usize, status: EntryStatus) -> (res: bool)
        ensures
            res == entry_is(self.entries@, index as int, status),
    {
        index < self.entries.len() && self.entries[index].status == status
            && self.entries[index].size_kb > 0 && !self.entries[index].cleaned
    }

    /// Whether the entry at `index` may be chosen for the safe cleanup.
    pub fn is_selectable(&self, index: usize) -> (res: bool)
        ensures
            res == selectable(self.entries@, index as int),
    {
        self.entry_has(index, EntryStatus::Ready)
    }

    /// Whether the entry under the cursor is app data for an advanced
    /// deletion.
    pub fn current_is_review_data(&self) -> (res: bool)
        ensures
            res == entry_is(self.entries@, self.cursor as int, EntryStatus::Review),
    {
        self.entry_has(self.cursor, EntryStatus::Review)
    }

    /// Whether the entry at `index` is chosen.
    pub fn is_selected(&self, index: usize) -> (res: bool)
        ensures
            res == is_marked(self.selected@, index as int),
    {
        index < self.selected.len() && self.selected[index]
    }

    /// Chooses the entry at `index`.
    pub fn select(&mut self, index: usize)
        ensures
            final(self)@ == (SessionView {
                selected: mark(old(self)@.selected, index as int),
                ..old(self)@
            }),
    {
        if index < self.selected.len() {
            self.selected.set(index, true);
        } else {
            let ghost start = self.selected@;
            while self.selected.len() < index
                invariant
                    start.len() <= self.selected@.len() <= index,
                    self.selected@ == start + Seq::new(
                        (self.selected@.len() - start.len()) as nat,
                        |j: int| false,
                    ),
                    self.entries == old(self).entries,
                    self.cleanup_queue == old(self).cleanup_queue,
                    self.confirmation == old(self).confirmation,
                    self.status_message == old(self).status_message,
                    self.mode == old(self).mode,
                    self.analysis_only == old(self).analysis_only,
                    self.include_reinstallable == old(self).include_reinstallable,
                    self.phase == old(self).phase,
                    self.location_count == old(self).location_count,
                    self.location_cursor == old(self).location_cursor,
                    self.cursor == old(self).cursor,
                    self.cleanup_index == old(self).cleanup_index,
                    self.cleanup_kind == old(self).cleanup_kind,
                    self.review_target == old(self).review_target,
                    self.confirmation_error == old(self).confirmation_error,
                    self.stopped_early == old(self).stopped_early,
                    self.quit == old(self).quit,
                decreases index - self.selected@.len(),
            {
                self.selected.push(false);
                assert(self.selected@ =~= start + Seq::new(
                    (self.selected@.len() - start.len()) as nat,
                    |j: int| false,
                ));
            }
            self.selected.push(true);
            assert(self.selected@ =~= mark(start, index as int));
        }
    }

    /// Leaves the entry at `index` out of the selection.
    fn deselect(&mut self, index: usize)
        ensures
            final(self)@ == (SessionView {
                selected: unmark(old(self)@.selected, index as int),
                ..old(self)@
            }),
    {
        if index < self.selected.len() {
            self.selected.set(index, false);
        }
    }

    /// Whether nothing is chosen.
    fn nothing_selected(&self) -> (res: bool)
        ensures
            res == none_marked(self.selected@),
    {
        let mut i: usize = 0;
        while i < self.selected.len()
            invariant
                i <= self.selected@.len(),
                forall|j: int| 0 <= j < i ==> !#[trigger] self.selected@[j],
            decreases self.selected@.len() - i,
        {
            if self.selected[i] {
                return false;
            }
            i = i + 1;
        }
        true
    }

    /// The chosen entries, in increasing order.
    pub fn selected_indices(&self) -> (res: Vec<usize>)
        ensures
            res@ == marked(self.selected@),
    {
        let mut out: Vec<usize> = Vec::new();
        let mut i: usize = 0;
        while i < self.selected.len()
            invariant
                i <= self.selected@.len(),
                out@ == marked(self.selected@.take(i as int)),
            decreases self.selected@.len() - i,
        {
            proof {
                lemma_marked_step(self.selected@, i as int);
            }
            if self.selected[i] {
                out.push(i);
            }
            i = i + 1;
        }
        assert(self.selected@.take(self.selected@.len() as int) =~= self.selected@);
        out
    }

    /// Chooses every selectable entry as well.
    fn select_all_selectable(&mut self)
        ensures
            final(self)@ == (SessionView {
                selected: mark_selectable(
                    old(self)@.entries,
                    old(self)@.selected,
                    old(self)@.entries.len() as int,
                ),
                ..old(self)@
            }),
    {
        let ghost orig = self@;
        let n = self.entries.len();
        let mut k: usize = 0;
        while k < n
            invariant
                k <= n,
                n == orig.entries.len(),
                self@ == (SessionView {
                    selected: mark_selectable(orig.entries, orig.selected, k as int),
                    ..orig
                }),
            decreases n - k,
        {
            if self.is_selectable(k) {
                self.select(k);
            }
            k = k + 1;
        }
    }

    /// Whether some entry is selectable and all of them are chosen.
    fn all_selectable_selected(&self) -> (res: bool)
        ensures
            res == all_selectable_marked(self.entries@, self.selected@),
    {
        let mut any = false;
        let mut all = true;
        let ghost mut witness: int = 0;
        let mut i: usize = 0;
        while i < self.entries.len()
            invariant
                i <= self.entries@.len(),
                any ==> 0 <= witness < i && selectable(self.entries@, witness),
                !any ==> forall|j: int| 0 <= j < i ==> !#[trigger] selectable(self.entries@, j),
                all == forall|j: int|
                    0 <= j < i ==> (#[trigger] selectable(self.entries@, j) ==> is_marked(
                        self.selected@,
                        j,
                    )),
            decreases self.entries@.len() - i,
        {
            if self.is_selectable(i) {
                if !any {
                    proof {
                        witness = i as int;
                    }
                }
                any = true;
                if !self.is_selected(i) {
                    all = false;
                }
            }
            i = i + 1;
        }
        proof {
            if any {
                assert(selectable(self.entries@, witness));
            }
            if !any {
                assert forall|j: int| !selectable(self.entries@, j) by {
                    if 0 <= j < self.entries@.len() {
                        assert(!selectable(self.entries@, j));
                    }
                }
            }
        }
        any && all
    }

    /// The scan starts again: entries, selection and message are dropped.
    fn restart_scan(&mut self) -> (res: Effect)
        ensures
            (final(self)@, res) == restarted(old(self)@),
    {
        self.entries = Vec::new();
        self.selected = Vec::new();
        self.cursor = 0;
        self.status_message = None;
        self.phase = Phase::Scanning;
        Effect::RestartScan
    }

    /// Chooses or leaves the entry under the cursor, when it is selectable.
    fn toggle_current(&mut self)
        requires
            old(self).mode == Mode::Clean,
        ensures
            (final(self)@, Effect::Nothing) == review_step(old(self)@, Key::Char(' ')),
    {
        if !self.is_selectable(self.cursor) {
            return;
        }
        if self.is_selected(self.cursor) {
            self.deselect(self.cursor);
        } else {
            self.select(self.cursor);
        }
    }

    /// Chooses every selectable entry, or none when all already are.
    fn toggle_all(&mut self)
        requires
            old(self).mode == Mode::Clean,
        ensures
            (final(self)@, Effect::Nothing) == review_step(old(self)@, Key::Char('a')),
    {
        if self.all_selectable_selected() {
            self.selected = Vec::new();
        } else {
            self.select_all_selectable();
        }
    }

    /// Chooses exactly the selectable entries and asks for confirmation
    /// when there is one.
    fn prepare_safe_cleanup(&mut self)
        ensures
            final(self)@ == safe_cleanup(old(self)@),
    {
        self.mode = Mode::Clean;
        self.selected = Vec::new();
        self.select_all_selectable();
        self.phase = if self.nothing_selected() {
            Phase::Review
        } else {
            Phase::Confirm
        };
    }

    /// Opens the advanced-deletion prompt for the entry under the cursor.
    fn start_review_confirmation(&mut self)
        ensures
            final(self)@ == review_prompt(old(self)@),
    {
        if !self.current_is_review_data() {
            return;
        }
        self.review_target = Some(self.cursor);
        self.confirmation = Vec::new();
        self.confirmation_error = false;
        self.phase = Phase::ReviewConfirm;
    }

    /// Asks for the entry under the cursor to be revealed.
    fn reveal_current(&self) -> (res: Effect)
        ensures
            (self@, res) == revealed(self@),
    {
        if self.cursor < self.entries.len() {
            Effect::Reveal(self.cursor)
        } else {
            Effect::Nothing
        }
    }

    /// Starts the cleanup of the chosen entries.
    fn begin_cleanup(&mut self) -> (res: Effect)
        ensures
            (final(self)@, res) == cleanup_started(old(self)@),
    {
        self.cleanup_queue = self.selected_indices();
        self.cleanup_index = 0;
        self.cleanup_kind = CleanupKind::Cache;
        self.phase = Phase::Cleaning;
        Effect::BeginCleanup
    }

    /// Starts the deletion of the confirmed app-data entry.
    fn begin_review_cleanup(&mut self) -> (res: Effect)
        ensures
            (final(self)@, res) == review_cleanup_started(old(self)@),
    {
        let target = match self.review_target {
            Some(t) => t,
            None => {
                self.phase = Phase::Review;
                return Effect::Nothing;
            },
        };
        self.review_target = None;
        if !self.entry_has(target, EntryStatus::Review) {
            self.phase = Phase::Review;
            return Effect::Nothing;
        }
        self.cleanup_queue = vec![target];
        self.cleanup_index = 0;
        self.cleanup_kind = CleanupKind::ReviewData;
        self.confirmation = Vec::new();
        self.confirmation_error = false;
        self.phase = Phase::Cleaning;
        assert(self.cleanup_queue@ =~= seq![target]);
        assert(self.confirmation@ =~= Seq::<char>::empty());
        Effect::BeginCleanup
    }

    /// Stops cleaning after what was done.
    fn stop_cleanup(&mut self) -> (res: Effect)
        ensures
            (final(self)@, res) == stopped(old(self)@),
    {
        let ghost before = self.cleanup_queue@;
        self.stopped_early = true;
        self.cleanup_queue.truncate(self.cleanup_index);
        self.phase = Phase::Summary;
        assert(self.cleanup_queue@ =~= before.take(
            if self.cleanup_index < before.len() {
                self.cleanup_index as int
            } else {
                before.len() as int
            },
        ));
        Effect::FinishCleanup
    }

    /// A key on the location list.
    fn handle_location_key(&mut self, key: Key) -> (res: Effect)
        ensures
            (final(self)@, res) == location_step(old(self)@, key),
    {
        let last: usize = if self.location_count == 0 {
            0
        } else {
            self.location_count - 1
        };
        match key {
            Key::Up | Key::Char('k') => {
                self.location_cursor = if self.location_cursor == 0 {
                    0
                } else {
                    self.location_cursor - 1
                };
                Effect::Nothing
            },
            Key::Down | Key::Char('j') => {
                self.location_cursor = if self.location_cursor < last && self.location_cursor + 1
                    < last {
                    self.location_cursor + 1
                } else {
                    last
                };
                Effect::Nothing
            },
            Key::Home => {
                self.location_cursor = 0;
                Effect::Nothing
            },
            Key::End => {
                self.location_cursor = last;
                Effect::Nothing
            },
            Key::Enter => {
                if self.location_cursor < self.location_count {
                    let chosen = self.location_cursor;
                    self.restart_scan();
                    Effect::ChooseLocation(chosen)
                } else {
                    Effect::Nothing
                }
            },
            Key::Char('q') | Key::Esc => {
                if self.entries.len() == 0 {
                    self.quit = true;
                } else {
                    self.phase = Phase::Review;
                }
                Effect::Nothing
            },
            _ => Effect::Nothing,
        }
    }

    /// A key on the list of measured entries.
    #[verifier::spinoff_prover]
    #[verifier::rlimit(40)]
    fn handle_review_key(&mut self, key: Key) -> (res: Effect)
        ensures
            (final(self)@, res) == review_step(old(self)@, key),
    {
        let last: usize = if self.entries.len() == 0 {
            0
        } else {
            self.entries.len() - 1
        };
        if key == Key::Up || key == Key::Char('k') {
            self.cursor = if self.cursor == 0 {
                0
            } else {
                self.cursor - 1
            };
            self.status_message = None;
            Effect::Nothing
        } else if key == Key::Down || key == Key::Char('j') {
            self.cursor = if self.cursor < last && self.cursor + 1 < last {
                self.cursor + 1
            } else {
                last
            };
            self.status_message = None;
            Effect::Nothing
        } else if key == Key::Home {
            self.cursor = 0;
            self.status_message = None;
            Effect::Nothing
        } else if key == Key::End {
            self.cursor = last;
            self.status_message = None;
            Effect::Nothing
        } else if key == Key::Char(' ') && self.mode == Mode::Clean {
            self.toggle_current();
            Effect::Nothing
        } else if key == Key::Char('a') && self.mode == Mode::Clean {
            self.toggle_all();
            Effect::Nothing
        } else if (key == Key::Char('d') || key == Key::Char('D')) && !self.analysis_only
            && self.current_is_review_data() {
            self.mode = Mode::Clean;
            self.start_review_confirmation();
            Effect::Nothing
        } else if (key == Key::Char('c') || key == Key::Char('C')) && !self.analysis_only {
            self.prepare_safe_cleanup();
            Effect::Nothing
        } else if key == Key::Char('i') {
            self.include_reinstallable = !self.include_reinstallable;
            self.restart_scan()
        } else if key == Key::Char('o') || key == Key::Char('O') {
            self.reveal_current()
        } else if key == Key::Char('r') {
            self.restart_scan()
        } else if key == Key::Char('v') {
            self.phase = Phase::Location;
            Effect::Nothing
        } else if key == Key::Enter && self.mode == Mode::Clean && !self.nothing_selected() {
            self.phase = Phase::Confirm;
            Effect::Nothing
        } else if key == Key::Enter && self.cursor < self.entries.len() {
            self.phase = Phase::Details;
            Effect::Nothing
        } else if key == Key::Char('q') || key == Key::Esc {
            self.quit = true;
            Effect::Nothing
        } else {
            Effect::Nothing
        }
    }

    /// A key while the details of an entry are open.
    fn handle_details_key(&mut self, key: Key) -> (res: Effect)
        ensures
            (final(self)@, res) == details_step(old(self)@, key),
    {
        if (key == Key::Char('d') || key == Key::Char('D')) && !self.analysis_only
            && self.current_is_review_data() {
            self.mode = Mode::Clean;
            self.start_review_confirmation();
            Effect::Nothing
        } else if (key == Key::Char('c') || key == Key::Char('C')) && !self.analysis_only {
            self.prepare_safe_cleanup();
            Effect::Nothing
        } else if key == Key::Char('o') || key == Key::Char('O') {
            self.reveal_current()
        } else if key == Key::Enter || key == Key::Esc {
            self.phase = Phase::Review;
            Effect::Nothing
        } else if key == Key::Char('q') {
            self.quit = true;
            Effect::Nothing
        } else {
            Effect::Nothing
        }
    }

    /// Whether `DELETE` has been typed.
    fn confirmation_is_delete(&self) -> (res: bool)
        ensures
            res == (self.confirmation@ == delete_word()),
    {
        let c = &self.confirmation;
        let res = c.len() == 6 && c[0] == 'D' && c[1] == 'E' && c[2] == 'L' && c[3] == 'E'
            && c[4] == 'T' && c[5] == 'E';
        if res {
            assert(c@ =~= delete_word());
        }
        res
    }

    /// A key while `DELETE` is being typed.
    fn handle_review_confirmation_key(&mut self, k: KeyInput) -> (res: Effect)
        ensures
            (final(self)@, res) == confirmation_step(old(self)@, k),
    {
        match k.key {
            Key::Esc => {
                self.review_target = None;
                self.confirmation = Vec::new();
                self.confirmation_error = false;
                self.phase = Phase::Review;
                Effect::Nothing
            },
            Key::Backspace => {
                self.confirmation.pop();
                self.confirmation_error = false;
                Effect::Nothing
            },
            Key::Enter => {
                if self.confirmation_is_delete() {
                    self.begin_review_cleanup()
                } else {
                    self.confirmation_error = true;
                    Effect::Nothing
                }
            },
            Key::Char(c) => {
                if !k.control && !k.alt && shorter_than_six_bytes(&self.confirmation) {
                    self.confirmation.push(crate::text::upper_ascii_char(c));
                    self.confirmation_error = false;
                }
                Effect::Nothing
            },
            _ => Effect::Nothing,
        }
    }

    /// Applies a key event and says what the program must do next.
    pub fn handle_key(&mut self, k: KeyInput) -> (res: Effect)
        ensures
            (final(self)@, res) == key_step(old(self)@, k),
    {
        if !k.press {
            return Effect::Nothing;
        }
        if k.control && k.key == Key::Char('c') {
            if self.phase == Phase::Cleaning {
                return self.stop_cleanup();
            } else {
                self.quit = true;
                return Effect::Nothing;
            }
        }
        match self.phase {
            Phase::Location => self.handle_location_key(k.key),
            Phase::Scanning => {
                if k.key == Key::Esc {
                    self.entries = Vec::new();
                    self.selected = Vec::new();
                    self.cursor = 0;
                    self.phase = Phase::Location;
                    Effect::CancelScan
                } else if k.key == Key::Char('q') {
                    self.quit = true;
                    Effect::Nothing
                } else {
                    Effect::Nothing
                }
            },
            Phase::Review => self.handle_review_key(k.key),
            Phase::Details => self.handle_details_key(k.key),
            Phase::Confirm => {
                if k.key == Key::Char('y') || k.key == Key::Char('Y') {
                    self.begin_cleanup()
                } else if k.key == Key::Char('n') || k.key == Key::Char('N') || k.key == Key::Esc {
                    self.phase = Phase::Review;
                    Effect::Nothing
                } else {
                    Effect::Nothing
                }
            },
            Phase::ReviewConfirm => self.handle_review_confirmation_key(k),
            Phase::Cleaning => {
                if k.key == Key::Char('q') || k.key == Key::Esc {
                    self.stop_cleanup()
                } else {
                    Effect::Nothing
                }
            },
            Phase::Summary => {
                if k.key == Key::Char('q') || k.key == Key::Enter || k.key == Key::Esc {
                    self.quit = true;
                }
                Effect::Nothing
            },
        }
    }
}

// ---------------------------------------------------------------------------
// Scanning and totals
// ---------------------------------------------------------------------------

impl View for EntryState {
    type V = EntryState;

    open spec fn view(&self) -> EntryState {
        *self
    }
}

/// Measured entries are listed largest first; equal sizes keep their order.
impl SortKey for EntryState {
    open spec fn key_le(a: EntryState, b: EntryState) -> bool {
        a.size_kb >= b.size_kb
    }

    fn le(&self, other: &Self) -> (r: bool) {
        self.size_kb >= other.size_kb
    }

    proof fn lemma_key_le_preorder() {
    }
}

/// The order of the entry list.
pub open spec fn largest_first() -> spec_fn(EntryState, EntryState) -> bool {
    |a: EntryState, b: EntryState| a.size_kb >= b.size_kb
}

/// A measured location is listed when it holds something or when a safety
/// problem must be shown; empty and missing locations are not.
pub open spec fn listed(entry: EntryState) -> bool {
    entry.size_kb > 0 || entry.status == EntryStatus::ScanError || entry.status
        == EntryStatus::Symlink || entry.status == EntryStatus::Invalid
}

/// The sum of the sizes of the entries that `keep` accepts.
pub open spec fn size_where(entries: Seq<EntryState>, keep: spec_fn(EntryState) -> bool) -> int
    decreases entries.len(),
{
    if entries.len() == 0 {
        0
    } else {
        size_where(entries.drop_last(), keep) + if keep(entries.last()) {
            entries.last().size_kb as int
        } else {
            0
        }
    }
}

/// The sum of the sizes of the chosen entries.
pub open spec fn selected_size(entries: Seq<EntryState>, bits: Seq<bool>) -> int
    decreases bits.len(),
{
    if bits.len() == 0 {
        0
    } else {
        selected_size(entries, bits.drop_last()) + if bits.last() && bits.len() - 1
            < entries.len() {
            entries[bits.len() - 1].size_kb as int
        } else {
            0
        }
    }
}

/// Every entry.
pub open spec fn any_entry() -> spec_fn(EntryState) -> bool {
    |e: EntryState| true
}

/// Entries with a given status.
pub open spec fn with_status(status: EntryStatus) -> spec_fn(EntryState) -> bool {
    |e: EntryState| e.status == status
}

proof fn lemma_size_where_prefix(entries: Seq<EntryState>, keep: spec_fn(EntryState) -> bool, i: int)
    requires
        0 <= i <= entries.len(),
    ensures
        0 <= size_where(entries.take(i), keep) <= size_where(entries, keep),
    decreases entries.len() - i,
{
    if i < entries.len() {
        lemma_size_where_prefix(entries, keep, i + 1);
        assert(entries.take(i + 1).drop_last() =~= entries.take(i));
    } else {
        assert(entries.take(i) =~= entries);
    }
    lemma_size_where_nonneg(entries.take(i), keep);
}

proof fn lemma_size_where_nonneg(entries: Seq<EntryState>, keep: spec_fn(EntryState) -> bool)
    ensures
        size_where(entries, keep) >= 0,
    decreases entries.len(),
{
    if entries.len() > 0 {
        lemma_size_where_nonneg(entries.drop_last(), keep);
    }
}

proof fn lemma_selected_size_prefix(entries: Seq<EntryState>, bits: Seq<bool>, i: int)
    requires
        0 <= i <= bits.len(),
    ensures
        0 <= selected_size(entries, bits.take(i)) <= selected_size(entries, bits),
    decreases bits.len() - i,
{
    if i < bits.len() {
        lemma_selected_size_prefix(entries, bits, i + 1);
        assert(bits.take(i + 1).drop_last() =~= bits.take(i));
    } else {
        assert(bits.take(i) =~= bits);
    }
    lemma_selected_size_nonneg(entries, bits.take(i));
}

proof fn lemma_selected_size_nonneg(entries: Seq<EntryState>, bits: Seq<bool>)
    ensures
        selected_size(entries, bits) >= 0,
    decreases bits.len(),
{
    if bits.len() > 0 {
        lemma_selected_size_nonneg(entries, bits.drop_last());
    }
}

/// How long the summary stays open before it closes by itself.
pub const SUMMARY_AUTO_CLOSE_MS: u128 = 5000;

impl CleanupSession {
    /// Adds a measured location to the list when it is to be listed.
    pub fn record_scan_entry(&mut self, entry: EntryState)
        ensures
            final(self)@ == (SessionView {
                entries: if listed(entry) {
                    old(self)@.entries.push(entry)
                } else {
                    old(self)@.entries
                },
                ..old(self)@
            }),
    {
        if entry.size_kb > 0 || entry.status == EntryStatus::ScanError || entry.status
            == EntryStatus::Symlink || entry.status == EntryStatus::Invalid {
            self.entries.push(entry);
        }
    }

    /// Every location was measured: the list is ordered largest first and
    /// shown, with the cursor kept on the list.
    pub fn finish_scan(&mut self)
        ensures
            final(self)@ == (SessionView {
                entries: merge_sort(old(self)@.entries, largest_first()),
                phase: Phase::Review,
                cursor: if old(self)@.cursor < dec(old(self)@.entries.len() as int) {
                    old(self)@.cursor
                } else {
                    dec(old(self)@.entries.len() as int)
                },
                ..old(self)@
            }),
    {
        let mut entries: Vec<EntryState> = Vec::new();
        std::mem::swap(&mut entries, &mut self.entries);
        let ghost before = entries@;
        let sorted = sort_vec(entries);
        proof {
            assert(views(before) =~= before);
            assert(views(sorted@) =~= sorted@);
            assert(largest_first() =~= (|a: EntryState, b: EntryState| EntryState::key_le(a, b)));
            crate::sort::lemma_merge_sort_len(before, largest_first());
        }
        self.entries = sorted;
        self.phase = Phase::Review;
        let last: usize = if self.entries.len() == 0 {
            0
        } else {
            self.entries.len() - 1
        };
        if self.cursor > last {
            self.cursor = last;
        }
    }

    /// The summary closes by itself once it has been open for
    /// `SUMMARY_AUTO_CLOSE_MS` milliseconds; `open_ms` is how long it has
    /// been open, if it has.
    pub fn summary_has_timed_out(&self, open_ms: Option<u128>) -> (res: bool)
        ensures
            res == (self.phase == Phase::Summary && match open_ms {
                Some(ms) => ms >= SUMMARY_AUTO_CLOSE_MS,
                None => false,
            }),
    {
        self.phase == Phase::Summary && match open_ms {
            Some(ms) => ms >= SUMMARY_AUTO_CLOSE_MS,
            None => false,
        }
    }

    /// The total size of the entries that `status` is `Some` of, or of all
    /// entries.
    fn size_of_entries(&self, status: Option<EntryStatus>) -> (res: u64)
        requires
            size_where(
                self.entries@,
                match status {
                    Some(s) => with_status(s),
                    None => any_entry(),
                },
            ) <= u64::MAX,
        ensures
            res == size_where(
                self.entries@,
                match status {
                    Some(s) => with_status(s),
                    None => any_entry(),
                },
            ),
    {
        let ghost keep = match status {
            Some(s) => with_status(s),
            None => any_entry(),
        };
        let mut total: u64 = 0;
        let mut i: usize = 0;
        while i < self.entries.len()
            invariant
                i <= self.entries@.len(),
                keep == (match status {
                    Some(s) => with_status(s),
                    None => any_entry(),
                }),
                size_where(self.entries@, keep) <= u64::MAX,
                total == size_where(self.entries@.take(i as int), keep),
            decreases self.entries@.len() - i,
        {
            proof {
                assert(self.entries@.take(i + 1).drop_last() =~= self.entries@.take(i as int));
                lemma_size_where_prefix(self.entries@, keep, i + 1);
            }
            let e = self.entries[i];
            let counts = match status {
                Some(s) => e.status == s,
                None => true,
            };
            if counts {
                total = total + e.size_kb;
            }
            i = i + 1;
        }
        assert(self.entries@.take(self.entries@.len() as int) =~= self.entries@);
        total
    }

    /// Everything the scan identified.
    pub fn identified_kb(&self) -> (res: u64)
        requires
            size_where(self@.entries, any_entry()) <= u64::MAX,
        ensures
            res == size_where(self@.entries, any_entry()),
    {
        self.size_of_entries(None)
    }

    /// What is safe to clean.
    pub fn ready_kb(&self) -> (res: u64)
        requires
            size_where(self@.entries, with_status(EntryStatus::Ready)) <= u64::MAX,
        ensures
            res == size_where(self@.entries, with_status(EntryStatus::Ready)),
    {
        self.size_of_entries(Some(EntryStatus::Ready))
    }

    /// What may be cleaned after an opt-in.
    pub fn optional_kb(&self) -> (res: u64)
        requires
            size_where(self@.entries, with_status(EntryStatus::Optional)) <= u64::MAX,
        ensures
            res == size_where(self@.entries, with_status(EntryStatus::Optional)),
    {
        self.size_of_entries(Some(EntryStatus::Optional))
    }

    /// App data that only an advanced deletion removes.
    pub fn review_kb(&self) -> (res: u64)
        requires
            size_where(self@.entries, with_status(EntryStatus::Review)) <= u64::MAX,
        ensures
            res == size_where(self@.entries, with_status(EntryStatus::Review)),
    {
        self.size_of_entries(Some(EntryStatus::Review))
    }

    /// What the chosen entries hold.
    pub fn selected_kb(&self) -> (res: u64)
        requires
            selected_size(self@.entries, self@.selected) <= u64::MAX,
        ensures
            res == selected_size(self@.entries, self@.selected),
    {
        let mut total: u64 = 0;
        let mut i: usize = 0;
        while i < self.selected.len()
            invariant
                i <= self.selected@.len(),
                selected_size(self.entries@, self.selected@) <= u64::MAX,
                total == selected_size(self.entries@, self.selected@.take(i as int)),
            decreases self.selected@.len() - i,
        {
            proof {
                assert(self.selected@.take(i + 1).drop_last() =~= self.selected@.take(i as int));
                lemma_selected_size_prefix(self.entries@, self.selected@, i + 1);
            }
            if self.selected[i] && i < self.entries.len() {
                total = total + self.entries[i].size_kb;
            }
            i = i + 1;
        }
        assert(self.selected@.take(self.selected@.len() as int) =~= self.selected@);
        total
    }
}

/// Some path of the list equals `p`.
pub open spec fn has_path(paths: Seq<Seq<char>>, p: Seq<char>) -> bool {
    exists|i: int| 0 <= i < paths.len() && crate::path::path_eq(#[trigger] paths[i], p)
}

/// The location the picker starts on: the one asked for, else the startup
/// volume `/`, else the first.
pub open spec fn start_location(paths: Seq<Seq<char>>, requested: Option<Seq<char>>) -> int {
    if requested is Some && has_path(paths, requested->0) {
        first_path(paths, requested->0)
    } else if has_path(paths, "/"@) {
        first_path(paths, "/"@)
    } else {
        0
    }
}

/// The first position of a path equal to `p`.
pub open spec fn first_path(paths: Seq<Seq<char>>, p: Seq<char>) -> int
    decreases paths.len(),
{
    if paths.len() == 0 {
        0
    } else if crate::path::path_eq(paths[0], p) {
        0
    } else {
        1 + first_path(paths.drop_first(), p)
    }
}

// ---------------------------------------------------------------------------
// Laws of the session
// ---------------------------------------------------------------------------

proof fn lemma_mark(bits: Seq<bool>, i: int, j: int)
    requires
        0 <= i,
    ensures
        is_marked(mark(bits, i), j) == (is_marked(bits, j) || j == i),
        is_marked(unmark(bits, i), j) == (is_marked(bits, j) && j != i),
{
    if i >= bits.len() {
        let m = mark(bits, i);
        if 0 <= j < bits.len() {
            assert(m[j] == bits[j]);
        } else if bits.len() <= j < i {
            assert(m[j] == false);
        }
    }
}

proof fn lemma_mark_selectable(entries: Seq<EntryState>, bits: Seq<bool>, n: int, j: int)
    ensures
        is_marked(mark_selectable(entries, bits, n), j) == (is_marked(bits, j) || (0 <= j < n
            && selectable(entries, j))),
    decreases n,
{
    if n > 0 {
        lemma_mark_selectable(entries, bits, n - 1, j);
        if selectable(entries, n - 1) {
            lemma_mark(mark_selectable(entries, bits, n - 1), n - 1, j);
        }
    }
}

/// Only entries that are safe to clean are ever chosen.
pub open spec fn selection_is_safe(s: SessionView) -> bool {
    forall|i: int| #[trigger] is_marked(s.selected, i) ==> selectable(s.entries, i)
}

/// No key press can choose an entry that is not a non-empty, uncleaned,
/// ready cache: the safe cleanup only ever lists such entries.
pub proof fn lemma_selection_stays_safe(s: SessionView, k: KeyInput)
    requires
        selection_is_safe(s),
    ensures
        selection_is_safe(key_step(s, k).0),
{
    let t = key_step(s, k).0;
    assert forall|i: int| #[trigger] is_marked(t.selected, i) implies selectable(t.entries, i) by {
        if s.cursor as int >= 0 {
            lemma_mark(s.selected, s.cursor as int, i);
        }
        lemma_mark_selectable(s.entries, s.selected, s.entries.len() as int, i);
        lemma_mark_selectable(s.entries, Seq::empty(), s.entries.len() as int, i);
    }
}

/// A session started with `--analyze`: still in analysis mode, and never
/// past the details of an entry.
pub open spec fn read_only(s: SessionView) -> bool {
    s.analysis_only ==> s.mode == Mode::Analyze && (s.phase == Phase::Location || s.phase
        == Phase::Scanning || s.phase == Phase::Review || s.phase == Phase::Details)
}

/// With `--analyze`, no key press switches to cleaning, opens a deletion
/// prompt, or asks for a cleanup.
pub proof fn lemma_analysis_stays_read_only(s: SessionView, k: KeyInput)
    requires
        read_only(s),
    ensures
        read_only(key_step(s, k).0),
        s.analysis_only ==> key_step(s, k).1 != Effect::BeginCleanup && key_step(s, k).1
            != Effect::FinishCleanup,
{
}

/// App data is only deleted after `DELETE` was typed on its prompt and
/// confirmed with Enter, and then only the entry the prompt was opened for.
pub proof fn lemma_review_deletion_needs_delete(s: SessionView, k: KeyInput)
    ensures
        ({
            let (t, e) = key_step(s, k);
            e == Effect::BeginCleanup && t.cleanup_kind == CleanupKind::ReviewData ==> s.phase
                == Phase::ReviewConfirm && k.key == Key::Enter && s.confirmation == delete_word()
                && s.review_target == Some(t.cleanup_queue[0]) && t.cleanup_queue.len() == 1
                && entry_is(s.entries, t.cleanup_queue[0] as int, EntryStatus::Review)
        }),
{
}

/// The selection before a cleanup is exactly the cleanup queue, in
/// increasing order and without repeats.
pub proof fn lemma_queue_is_selection(bits: Seq<bool>)
    requires
        bits.len() <= usize::MAX,
    ensures
        forall|i: int, j: int|
            0 <= i < j < marked(bits).len() ==> marked(bits)[i] < marked(bits)[j],
        forall|i: int|
            0 <= i < marked(bits).len() ==> is_marked(bits, #[trigger] marked(bits)[i] as int),
        forall|j: int| #[trigger] is_marked(bits, j) ==> marked(bits).contains(j as usize),
    decreases bits.len(),
{
    if bits.len() > 0 {
        let rest = bits.drop_last();
        let n = bits.len() - 1;
        lemma_queue_is_selection(rest);
        let mr = marked(rest);
        let mb = marked(bits);
        assert forall|x: int| #[trigger] is_marked(rest, x) implies is_marked(bits, x) && x < n by {
            assert(bits[x] == rest[x]);
        }
        assert forall|i: int| 0 <= i < mr.len() implies #[trigger] mr[i] < n by {
            assert(is_marked(rest, mr[i] as int));
        }
        if bits.last() {
            assert(mb == mr.push(n as usize));
            assert(mb[mb.len() - 1] as int == n);
            assert forall|i: int, j: int| 0 <= i < j < mb.len() implies mb[i] < mb[j] by {
                if j < mr.len() {
                    assert(mb[i] == mr[i]);
                    assert(mb[j] == mr[j]);
                } else {
                    assert(mb[i] == mr[i]);
                    assert(mr[i] < n);
                }
            }
            assert forall|i: int| 0 <= i < mb.len() implies is_marked(bits, #[trigger] mb[i] as int) by {
                if i < mr.len() {
                    assert(mb[i] == mr[i]);
                    assert(is_marked(rest, mr[i] as int));
                } else {
                    assert(bits[n] == bits.last());
                }
            }
            assert forall|j: int| #[trigger] is_marked(bits, j) implies mb.contains(j as usize) by {
                if j < n {
                    assert(rest[j] == bits[j]);
                    assert(is_marked(rest, j));
                    assert(mr.contains(j as usize));
                    let w = choose|w: int| 0 <= w < mr.len() && mr[w] == j as usize;
                    assert(mb[w] == j as usize);
                } else {
                    assert(mb[mb.len() - 1] == j as usize);
                }
            }
        } else {
            assert(mb == mr);
            assert forall|i: int| 0 <= i < mb.len() implies is_marked(bits, #[trigger] mb[i] as int) by {
                assert(is_marked(rest, mr[i] as int));
            }
            assert forall|j: int| #[trigger] is_marked(bits, j) implies mb.contains(j as usize) by {
                assert(j < n);
                assert(rest[j] == bits[j]);
                assert(is_marked(rest, j));
            }
        }
    }
}

proof fn lemma_first_path(paths: Seq<Seq<char>>, p: Seq<char>, i: int)
    requires
        0 <= i < paths.len(),
        crate::path::path_eq(paths[i], p),
        forall|j: int| 0 <= j < i ==> !crate::path::path_eq(#[trigger] paths[j], p),
    ensures
        first_path(paths, p) == i,
    decreases i,
{
    if i > 0 {
        assert(!crate::path::path_eq(paths[0], p));
        assert forall|j: int| 0 <= j < i - 1 implies !crate::path::path_eq(
            #[trigger] paths.drop_first()[j],
            p,
        ) by {
            assert(paths.drop_first()[j] == paths[j + 1]);
        }
        lemma_first_path(paths.drop_first(), p, i - 1);
    }
}

/// The first position of a path equal to `p`, if any.
fn position_of(paths: &Vec<String>, p: &str) -> (res: Option<usize>)
    ensures
        match res {
            Some(i) => has_path(crate::storage::string_views(paths@), p@) && first_path(
                crate::storage::string_views(paths@),
                p@,
            ) == i,
            None => !has_path(crate::storage::string_views(paths@), p@),
        },
{
    let ghost pv = crate::storage::string_views(paths@);
    let mut i: usize = 0;
    while i < paths.len()
        invariant
            i <= paths@.len(),
            pv == crate::storage::string_views(paths@),
            pv.len() == paths@.len(),
            forall|j: int| 0 <= j < i ==> !crate::path::path_eq(#[trigger] pv[j], p@),
        decreases paths@.len() - i,
    {
        if crate::path::paths_equal(paths[i].as_str(), p) {
            proof {
                assert(pv[i as int] == paths@[i as int]@);
                lemma_first_path(pv, p@, i as int);
                assert(crate::path::path_eq(pv[i as int], p@));
            }
            return Some(i);
        }
        i = i + 1;
    }
    None
}

/// The location the picker starts on.
pub fn start_location_index(paths: &Vec<String>, requested: Option<&str>) -> (res: usize)
    ensures
        res == start_location(
            crate::storage::string_views(paths@),
            match requested {
                Some(r) => Some(r@),
                None => None,
            },
        ),
{
    if let Some(r) = requested {
        if let Some(i) = position_of(paths, r) {
            return i;
        }
    }
    match position_of(paths, "/") {
        Some(i) => i,
        None => 0,
    }
}

// ---------------------------------------------------------------------------
// The command bar
// ---------------------------------------------------------------------------

/// The views of a list of key and label pairs.
pub open spec fn command_views(c: Seq<(&str, &str)>) -> Seq<(Seq<char>, Seq<char>)> {
    c.map_values(|p: (&str, &str)| (p.0@, p.1@))
}

/// The commands that the footer lists while the found entries are reviewed:
/// read-only browsing in an analysis, the advanced deletion on app data, the
/// opt-in on an optional entry, and the selection keys otherwise.
pub open spec fn review_commands(s: SessionView) -> Seq<(Seq<char>, Seq<char>)> {
    if s.analysis_only {
        seq![("↑↓"@, "move"@), ("↵"@, "details"@), ("o"@, "finder"@), ("r"@, "rescan"@), ("q"@, "quit"@)]
    } else if entry_is(s.entries, s.cursor as int, EntryStatus::Review) {
        seq![("d"@, "advanced delete"@), ("c"@, "clean all safe"@), ("o"@, "reveal in Finder"@), ("?"@, "commands"@)]
    } else if entry_is(s.entries, s.cursor as int, EntryStatus::Optional) {
        seq![("d"@, "opt in"@), ("c"@, "clean safe"@), ("↵"@, "details"@), ("o"@, "finder"@), ("q"@, "quit"@)]
    } else if s.mode == Mode::Clean {
        seq![("↑↓"@, "move"@), ("space"@, "select"@), ("a"@, "all safe"@), ("↵"@, "continue"@), ("q"@, "quit"@)]
    } else if selectable(s.entries, s.cursor as int) {
        seq![("space"@, "select"@), ("d"@, "delete one"@), ("c"@, "clean safe"@), ("↵"@, "details"@), ("o"@, "finder"@), ("q"@, "quit"@)]
    } else {
        seq![("m"@, "relocate"@), ("c"@, "clean safe"@), ("↵"@, "details"@), ("r"@, "rescan"@), ("q"@, "quit"@)]
    }
}

/// The commands of the footer's command bar: those of the review, those of
/// the details page, and none on the pages whose footer shows progress or
/// a prompt instead.
pub open spec fn footer_commands_of(s: SessionView) -> Seq<(Seq<char>, Seq<char>)> {
    match s.phase {
        Phase::Review => review_commands(s),
        Phase::Details => seq![("esc"@, "back"@), ("d"@, "advanced delete"@), ("c"@, "clean all safe"@), ("o"@, "reveal in Finder"@)],
        _ => Seq::empty(),
    }
}

/// The title of the footer while the cleanup runs.
pub open spec fn cleaning_title_of(s: SessionView) -> Seq<char> {
    if s.stopped_early {
        " STOP REQUESTED • finishing the current item "@
    } else {
        match s.cleanup_kind {
            CleanupKind::Cache => " CLEANING • Esc/q stops after the current item "@,
            CleanupKind::ReviewData => " DELETING REVIEW DATA • Esc/q stops after the current item "@,
        }
    }
}

impl CleanupSession {
    /// Whether the entry under the cursor is an optional entry that is not
    /// cleaned yet.
    pub fn current_is_optional(&self) -> (res: bool)
        ensures
            res == entry_is(self.entries@, self.cursor as int, EntryStatus::Optional),
    {
        self.entry_has(self.cursor, EntryStatus::Optional)
    }

    /// The keys and labels of the footer's command bar on the current page.
    pub fn footer_commands(&self) -> (res: Vec<(&'static str, &'static str)>)
        ensures
            command_views(res@) == footer_commands_of(self@),
    {
        let res: Vec<(&'static str, &'static str)> = match self.phase {
            Phase::Review => if self.analysis_only {
                vec![("↑↓", "move"), ("↵", "details"), ("o", "finder"), ("r", "rescan"), ("q", "quit")]
            } else if self.current_is_review_data() {
                vec![("d", "advanced delete"), ("c", "clean all safe"), ("o", "reveal in Finder"), ("?", "commands")]
            } else if self.current_is_optional() {
                vec![("d", "opt in"), ("c", "clean safe"), ("↵", "details"), ("o", "finder"), ("q", "quit")]
            } else if self.mode == Mode::Clean {
                vec![("↑↓", "move"), ("space", "select"), ("a", "all safe"), ("↵", "continue"), ("q", "quit")]
            } else if self.is_selectable(self.cursor) {
                vec![("space", "select"), ("d", "delete one"), ("c", "clean safe"), ("↵", "details"), ("o", "finder"), ("q", "quit")]
            } else {
                vec![("m", "relocate"), ("c", "clean safe"), ("↵", "details"), ("r", "rescan"), ("q", "quit")]
            },
            Phase::Details => vec![("esc", "back"), ("d", "advanced delete"), ("c", "clean all safe"), ("o", "reveal in Finder")],
            _ => Vec::new(),
        };
        assert(command_views(res@) =~= footer_commands_of(self@));
        res
    }

    /// The title of the footer while the cleanup runs.
    pub fn cleaning_title(&self) -> (res: &'static str)
        ensures
            res@ == cleaning_title_of(self@),
    {
        if self.stopped_early {
            " STOP REQUESTED • finishing the current item "
        } else {
            match self.cleanup_kind {
                CleanupKind::Cache => " CLEANING • Esc/q stops after the current item ",
                CleanupKind::ReviewData => " DELETING REVIEW DATA • Esc/q stops after the current item ",
            }
        }
    }
}

// ---------------------------------------------------------------------------
// Cleaning the queue
// ---------------------------------------------------------------------------

/// What cleaning one entry came to, with the space its deletion freed.
#[derive(PartialEq, Eq, Structural, Clone, Copy, Debug)]
pub enum Outcome {
    Cleared(u64),
    /// A safety check stopped the deletion.
    SafetySkipped,
    /// The deletion failed part way, after freeing this much.
    Failed(u64),
}

/// The counts a cleanup reports in its summary.
#[derive(PartialEq, Eq, Structural, Clone, Copy, Debug)]
pub struct CleanupStats {
    pub cleared: u64,
    pub safety_skipped: u64,
    pub failed: u64,
    pub measured_removed_kb: u64,
    pub filesystem_change_kb: u64,
}

/// The counts after one more outcome.
pub open spec fn outcome_counted(st: CleanupStats, o: Outcome) -> CleanupStats {
    match o {
        Outcome::Cleared(kb) => CleanupStats {
            cleared: (st.cleared + 1) as u64,
            measured_removed_kb: (st.measured_removed_kb + kb) as u64,
            ..st
        },
        Outcome::SafetySkipped => CleanupStats {
            safety_skipped: (st.safety_skipped + 1) as u64,
            ..st
        },
        Outcome::Failed(kb) => CleanupStats {
            failed: (st.failed + 1) as u64,
            measured_removed_kb: (st.measured_removed_kb + kb) as u64,
            ..st
        },
    }
}

/// The counts have room for one more outcome.
pub open spec fn can_count(st: CleanupStats, o: Outcome) -> bool {
    match o {
        Outcome::Cleared(kb) => st.cleared < u64::MAX && st.measured_removed_kb + kb <= u64::MAX,
        Outcome::SafetySkipped => st.safety_skipped < u64::MAX,
        Outcome::Failed(kb) => st.failed < u64::MAX && st.measured_removed_kb + kb <= u64::MAX,
    }
}

impl CleanupStats {
    /// Nothing counted yet.
    pub fn new() -> (res: CleanupStats)
        ensures
            res == (CleanupStats {
                cleared: 0,
                safety_skipped: 0,
                failed: 0,
                measured_removed_kb: 0,
                filesystem_change_kb: 0,
            }),
    {
        CleanupStats {
            cleared: 0,
            safety_skipped: 0,
            failed: 0,
            measured_removed_kb: 0,
            filesystem_change_kb: 0,
        }
    }

    /// Counts one outcome.
    pub fn count(&mut self, o: Outcome)
        requires
            can_count(*old(self), o),
        ensures
            *final(self) == outcome_counted(*old(self), o),
    {
        match o {
            Outcome::Cleared(kb) => {
                self.cleared = self.cleared + 1;
                self.measured_removed_kb = self.measured_removed_kb + kb;
            },
            Outcome::SafetySkipped => {
                self.safety_skipped = self.safety_skipped + 1;
            },
            Outcome::Failed(kb) => {
                self.failed = self.failed + 1;
                self.measured_removed_kb = self.measured_removed_kb + kb;
            },
        }
    }
}

/// The entries with the one at `i` marked as handled.
pub open spec fn handled(entries: Seq<EntryState>, i: int) -> Seq<EntryState> {
    if 0 <= i < entries.len() {
        entries.update(i, EntryState { cleaned: true, ..entries[i] })
    } else {
        entries
    }
}

impl CleanupSession {
    /// The entry to clean next: the queued one at the cleanup position, or
    /// none when the queue is done and the summary is due.
    pub fn next_to_clean(&self) -> (res: Option<usize>)
        ensures
            res == (if self.cleanup_index < self.cleanup_queue@.len() {
                Some(self.cleanup_queue@[self.cleanup_index as int])
            } else {
                None
            }),
    {
        if self.cleanup_index < self.cleanup_queue.len() {
            Some(self.cleanup_queue[self.cleanup_index])
        } else {
            None
        }
    }

    /// The queued entry at the cleanup position was cleaned: its outcome is
    /// counted, it is marked as handled, and the position moves on.
    pub fn entry_cleaned(&mut self, stats: &mut CleanupStats, outcome: Outcome)
        requires
            old(self).cleanup_index < old(self).cleanup_queue@.len(),
            can_count(*old(stats), outcome),
        ensures
            final(self)@ == (SessionView {
                entries: handled(
                    old(self)@.entries,
                    old(self)@.cleanup_queue[old(self)@.cleanup_index as int] as int,
                ),
                cleanup_index: (old(self)@.cleanup_index + 1) as usize,
                ..old(self)@
            }),
            *final(stats) == outcome_counted(*old(stats), outcome),
    {
        let queued = self.cleanup_queue.len();
        assert(self.cleanup_index < queued);
        let i = self.cleanup_queue[self.cleanup_index];
        let next = self.cleanup_index + 1;
        if i < self.entries.len() {
            let mut e = self.entries[i];
            e.cleaned = true;
            self.entries.set(i, e);
        }
        stats.count(outcome);
        self.cleanup_index = next;
    }

    /// The cleanup ended: the change in free space, never below zero, is
    /// recorded and the summary shows.
    pub fn cleanup_finished(&mut self, stats: &mut CleanupStats, free_before_kb: u64, free_now_kb: u64)
        ensures
            final(self)@ == (SessionView { phase: Phase::Summary, ..old(self)@ }),
            *final(stats) == (CleanupStats {
                filesystem_change_kb: if free_now_kb > free_before_kb {
                    (free_now_kb - free_before_kb) as u64
                } else {
                    0
                },
                ..*old(stats)
            }),
    {
        stats.filesystem_change_kb = free_now_kb.saturating_sub(free_before_kb);
        self.phase = Phase::Summary;
    }
}

// ---------------------------------------------------------------------------
// Scanning the locations
// ---------------------------------------------------------------------------

/// A location whose rules gave it `status` is measured on disk; a missing,
/// unreadable, linked or invalid one is recorded as it is.
pub open spec fn needs_measure(status: EntryStatus) -> bool {
    !(status == EntryStatus::Missing || status == EntryStatus::ScanError || status
        == EntryStatus::Symlink || status == EntryStatus::Invalid)
}

impl CleanupSession {
    /// Takes up the next location, whose rules gave it `status`: returns
    /// whether to measure it; when not, it is recorded with no size.
    pub fn scan_location(&mut self, status: EntryStatus) -> (res: bool)
        ensures
            res == needs_measure(status),
            res ==> final(self)@ == old(self)@,
            !res ==> final(self)@ == (SessionView {
                entries: if listed(EntryState { status, size_kb: 0, cleaned: false }) {
                    old(self)@.entries.push(EntryState { status, size_kb: 0, cleaned: false })
                } else {
                    old(self)@.entries
                },
                ..old(self)@
            }),
    {
        if status == EntryStatus::Missing || status == EntryStatus::ScanError || status
            == EntryStatus::Symlink || status == EntryStatus::Invalid {
            self.record_scan_entry(EntryState { status, size_kb: 0, cleaned: false });
            false
        } else {
            true
        }
    }
}

// ---------------------------------------------------------------------------
// Deleting the entry under the cursor
// ---------------------------------------------------------------------------

/// The entry at `i` may be cleaned on its own: it is safe or optional,
/// not empty, and not handled yet.
pub open spec fn direct_candidate(entries: Seq<EntryState>, i: int) -> bool {
    entry_is(entries, i, EntryStatus::Ready) || entry_is(entries, i, EntryStatus::Optional)
}

/// Exactly position `i` of `n` chosen.
pub open spec fn only(n: int, i: int) -> Seq<bool> {
    Seq::new(n as nat, |j: int| j == i)
}

/// Asking to delete the entry under the cursor: app data opens the typed
/// confirmation; a safe or optional entry becomes the only one chosen and
/// the confirmation opens; anything else changes nothing.
pub open spec fn current_cleanup_prepared(s: SessionView) -> SessionView {
    if entry_is(s.entries, s.cursor as int, EntryStatus::Review) {
        review_prompt(SessionView { mode: Mode::Clean, ..s })
    } else if direct_candidate(s.entries, s.cursor as int) {
        SessionView {
            mode: Mode::Clean,
            selected: only(s.entries.len() as int, s.cursor as int),
            phase: Phase::Confirm,
            ..s
        }
    } else {
        s
    }
}

impl CleanupSession {
    /// Whether the entry at `index` may be cleaned on its own.
    pub fn is_direct_cleanup_candidate(&self, index: usize) -> (res: bool)
        ensures
            res == direct_candidate(self.entries@, index as int),
    {
        self.entry_has(index, EntryStatus::Ready) || self.entry_has(index, EntryStatus::Optional)
    }

    /// Prepares deleting the entry under the cursor.
    pub fn prepare_current_cleanup(&mut self)
        ensures
            final(self)@ == current_cleanup_prepared(old(self)@),
    {
        if self.current_is_review_data() {
            self.mode = Mode::Clean;
            self.start_review_confirmation();
        } else if self.is_direct_cleanup_candidate(self.cursor) {
            self.mode = Mode::Clean;
            let n = self.entries.len();
            let mut bits: Vec<bool> = Vec::new();
            let mut j: usize = 0;
            while j < n
                invariant
                    j <= n,
                    bits@ =~= Seq::new(j as nat, |k: int| k == self.cursor as int),
                decreases n - j,
            {
                bits.push(j == self.cursor);
                j = j + 1;
            }
            assert(bits@ =~= only(n as int, self.cursor as int));
            self.selected = bits;
            self.phase = Phase::Confirm;
        }
    }
}

/// Preparing the entry under the cursor never chooses anything but that
/// entry, and only when it may be deleted.
pub proof fn lemma_current_cleanup_targets_the_cursor(s: SessionView)
    ensures
        forall|i: int|
            is_marked(current_cleanup_prepared(s).selected, i) ==> is_marked(s.selected, i) || (i
                == s.cursor && direct_candidate(s.entries, i)),
{
}

impl CleanupSession {
    /// A stop was asked for while cleaning in the background: the summary
    /// will say the cleanup stopped early; a running worker is told to stop
    /// after its current entry (the result says so), and with none running
    /// nothing more is queued.
    pub fn request_stop(&mut self, worker_running: bool) -> (res: bool)
        ensures
            res == worker_running,
            final(self)@ == (SessionView {
                stopped_early: true,
                cleanup_queue: if worker_running {
                    old(self)@.cleanup_queue
                } else {
                    Seq::empty()
                },
                ..old(self)@
            }),
    {
        self.stopped_early = true;
        if !worker_running {
            self.cleanup_queue.clear();
        }
        worker_running
    }
}

} // verus!
