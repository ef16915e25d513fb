//! The key routing of the storage interface: which layer a key press goes
//! to (a scrolled dialog, the open menu, the help, the global shortcuts, the
//! sidebar, or the current screen), and what it asks the program to run.
use vstd::prelude::*;
use crate::explorer::StorageTab;
use crate::layout::{
    contains, menu_popup_rect, navigation_at, popup_rect, rect_contains, rect_of, sat_add16,
    sat_sub16, top_item_at, MenuId, Rect, MIN_HEIGHT, MIN_WIDTH,
};
use crate::menu::{
    activate_menu_item, activated, closed, cursor_moved, function_key_step, handle_function_key,
    handle_menu_key, menu_entries, menu_for_hotkey, menu_for_key, menu_is_available, menu_items,
    menu_key_step, menus_allowed, move_menu_cursor, open_menu, opened, MenuCommand, MenuContext,
    MenuKey, MenuState, Screen,
};

verus! {

/// A key code, as far as the interface tells them apart.
#[derive(PartialEq, Eq, Structural, Clone, Copy, Debug)]
pub enum Code {
    Char(char),
    Enter,
    Esc,
    Up,
    Down,
    Left,
    Right,
    PageUp,
    PageDown,
    Home,
    End,
    Tab,
    BackTab,
    Backspace,
    Delete,
    F(u8),
    Other,
}

/// A key event with its kind and modifiers.
#[derive(PartialEq, Eq, Structural, Clone, Copy, Debug)]
pub struct ShellKey {
    pub code: Code,
    /// A press, not a release or a repeat.
    pub press: bool,
    pub control: bool,
    pub alt: bool,
}

/// Which process signal to send.
#[derive(PartialEq, Eq, Structural, Clone, Copy, Debug)]
pub enum Signal {
    Terminate,
    Kill,
}

/// What the program must run after a key press.
#[derive(PartialEq, Eq, Structural, Clone, Copy, Debug)]
pub enum Action {
    Nothing,
    /// The current screen's own handler gets the key.
    ScreenKey(Code),
    CancelScan,
    StopCleanup,
    RestartScan,
    RefreshProcesses,
    OpenRelocationSources,
    PrepareCurrentCleanup,
    PrepareSafeCleanup,
    RevealCurrent,
    BeginRelocation,
    DropRelocationPlan,
    CloseRelocationResult,
    BeginCleanup,
    SendSignal(Signal),
    ClearProcessTarget,
    /// Move the current view's cursor by this many rows.
    ScrollView(i8),
    /// A clickable region of the current screen was clicked.
    Hit(HitTarget),
}

/// What a clickable region of the last drawn screen stands for.
#[derive(PartialEq, Eq, Structural, Clone, Copy, Debug)]
pub enum HitTarget {
    Finding(usize),
    Consumer(usize),
    StorageTab(StorageTab),
    Location(usize),
    Process(usize),
    Source(usize),
}

/// What the mouse did.
#[derive(PartialEq, Eq, Structural, Clone, Copy, Debug)]
pub enum MouseKind {
    ScrollUp,
    ScrollDown,
    LeftDown,
    Other,
}

/// A mouse event at a cell of the terminal.
#[derive(PartialEq, Eq, Structural, Clone, Copy, Debug)]
pub struct MouseInput {
    pub kind: MouseKind,
    pub column: u16,
    pub row: u16,
}

/// The routing state of the interface.
pub struct ShellState {
    pub screen: Screen,
    pub analysis_only: bool,
    pub terminal_width: u16,
    pub terminal_height: u16,
    pub show_help: bool,
    pub dialog_scroll: u16,
    pub dialog_max_scroll: u16,
    pub menu: MenuState,
    pub sidebar_focus: bool,
    pub sidebar_cursor: usize,
    /// A storage inventory has been measured.
    pub has_inventory: bool,
    /// Cache entries have been measured.
    pub has_entries: bool,
    /// What the menus read besides the screen.
    pub has_ready_space: bool,
    pub has_current_item: bool,
    pub process_signalable: bool,
    pub status_message: Option<String>,
    pub quit: bool,
}

/// The content of the routing state.
pub struct ShellView {
    pub screen: Screen,
    pub analysis_only: bool,
    pub terminal_width: u16,
    pub terminal_height: u16,
    pub show_help: bool,
    pub dialog_scroll: u16,
    pub dialog_max_scroll: u16,
    pub menu: MenuState,
    pub sidebar_focus: bool,
    pub sidebar_cursor: usize,
    pub has_inventory: bool,
    pub has_entries: bool,
    pub has_ready_space: bool,
    pub has_current_item: bool,
    pub process_signalable: bool,
    pub status_message: Option<Seq<char>>,
    pub quit: bool,
}

impl View for ShellState {
    type V = ShellView;

    open spec fn view(&self) -> ShellView {
        ShellView {
            screen: self.screen,
            analysis_only: self.analysis_only,
            terminal_width: self.terminal_width,
            terminal_height: self.terminal_height,
            show_help: self.show_help,
            dialog_scroll: self.dialog_scroll,
            dialog_max_scroll: self.dialog_max_scroll,
            menu: self.menu,
            sidebar_focus: self.sidebar_focus,
            sidebar_cursor: self.sidebar_cursor,
            has_inventory: self.has_inventory,
            has_entries: self.has_entries,
            has_ready_space: self.has_ready_space,
            has_current_item: self.has_current_item,
            process_signalable: self.process_signalable,
            status_message: crate::session::opt_view(self.status_message),
            quit: self.quit,
        }
    }
}

/// What the menus read of a state.
pub open spec fn context_of(s: ShellView) -> MenuContext {
    MenuContext {
        screen: s.screen,
        analysis_only: s.analysis_only,
        has_ready_space: s.has_ready_space,
        has_current_item: s.has_current_item,
        process_signalable: s.process_signalable,
    }
}

/// The section of the sidebar a screen belongs to.
pub open spec fn section_of(screen: Screen) -> usize {
    if screen == Screen::Processes || screen == Screen::ProcessConfirm {
        1
    } else if screen == Screen::RelocationSources || screen == Screen::RelocationDestination
        || screen == Screen::RelocationPlanning || screen == Screen::RelocationConfirm || screen
        == Screen::Relocating || screen == Screen::RelocationResult {
        2
    } else {
        0
    }
}

/// A dialog that scrolls is on screen.
pub open spec fn scrollable(s: ShellView) -> bool {
    s.show_help || s.screen == Screen::Confirm || s.screen == Screen::ReviewConfirm || s.screen
        == Screen::ProcessConfirm || s.screen == Screen::RelocationConfirm || s.screen
        == Screen::Details
}

/// The screen owns typed text or a running task, so `?` does not open the
/// help.
pub open spec fn help_blocked(screen: Screen) -> bool {
    screen == Screen::Scanning || screen == Screen::Cleaning || screen
        == Screen::RelocationDestination || screen == Screen::RelocationPlanning || screen
        == Screen::RelocationConfirm || screen == Screen::Relocating || screen
        == Screen::ReviewConfirm || screen == Screen::ProcessConfirm
}

/// The note shown when moving data is asked for in a read-only session.
pub open spec fn move_unavailable_note() -> Seq<char> {
    "Move data is unavailable in this read-only session."@
}

/// The note shown when Control-C is pressed while data is moving.
pub open spec fn relocation_busy_note() -> Seq<char> {
    "Relocation is in progress; wait for validation or copy verification to finish."@
}

/// Going to a section of the sidebar: the overview (the report or the
/// location list), the processes, or moving data.
pub open spec fn navigated(s: ShellView, section: usize) -> (ShellView, Action) {
    if !menus_allowed(s.screen) {
        (s, Action::Nothing)
    } else if section == 2 && s.analysis_only {
        (ShellView { status_message: Some(move_unavailable_note()), ..s }, Action::Nothing)
    } else {
        let t = ShellView {
            status_message: None,
            sidebar_focus: false,
            sidebar_cursor: section,
            ..s
        };
        if section == 0 {
            (
                ShellView {
                    screen: if s.has_inventory || s.has_entries {
                        Screen::Review
                    } else {
                        Screen::Location
                    },
                    ..t
                },
                Action::Nothing,
            )
        } else if section == 1 {
            (ShellView { screen: Screen::Processes, ..t }, Action::RefreshProcesses)
        } else if section == 2 {
            if s.has_inventory {
                (t, Action::OpenRelocationSources)
            } else {
                (ShellView { screen: Screen::Location, ..t }, Action::Nothing)
            }
        } else {
            (t, Action::Nothing)
        }
    }
}

/// Runs a menu command: the ones about the routing state are applied here,
/// the others are passed on.
pub open spec fn with_command(s: ShellView, cmd: MenuCommand) -> (ShellView, Action) {
    match cmd {
        MenuCommand::Nothing => (s, Action::Nothing),
        MenuCommand::ChooseLocation => (ShellView { screen: Screen::Location, ..s }, Action::Nothing),
        MenuCommand::RefreshProcesses => (s, Action::RefreshProcesses),
        MenuCommand::RestartScan => (s, Action::RestartScan),
        MenuCommand::Quit => (ShellView { quit: true, ..s }, Action::Nothing),
        MenuCommand::NavigateTo(i) => navigated(s, i),
        MenuCommand::CleanSafeItems => (s, Action::PrepareSafeCleanup),
        MenuCommand::RevealCurrent => (s, Action::RevealCurrent),
        MenuCommand::SignalProcess => (s, Action::ScreenKey(Code::Char('d'))),
        MenuCommand::ShowHelp => (ShellView { show_help: true, ..s }, Action::Nothing),
    }
}

/// The menu key for a key code.
pub open spec fn as_menu_key(code: Code) -> MenuKey {
    match code {
        Code::Esc => MenuKey::Esc,
        Code::Left => MenuKey::Left,
        Code::Right => MenuKey::Right,
        Code::Up => MenuKey::Up,
        Code::Down => MenuKey::Down,
        Code::PageUp => MenuKey::PageUp,
        Code::PageDown => MenuKey::PageDown,
        Code::Home => MenuKey::Home,
        Code::End => MenuKey::End,
        Code::Enter => MenuKey::Enter,
        Code::F(n) => MenuKey::F(n),
        Code::Char(c) => MenuKey::Char(c),
        _ => MenuKey::Other,
    }
}

/// A key while a menu is open: F1 swaps the menu for the help; Enter on an
/// enabled item also leaves the sidebar.
pub open spec fn menu_routed(s: ShellView, code: Code) -> (ShellView, Action) {
    if code == Code::F(1) {
        (
            ShellView {
                menu: MenuState { open: None, ..s.menu },
                dialog_scroll: 0,
                show_help: true,
                ..s
            },
            Action::Nothing,
        )
    } else {
        let (m, cmd) = menu_key_step(context_of(s), s.menu, as_menu_key(code));
        let t = ShellView {
            menu: m,
            sidebar_focus: if code == Code::Enter && cmd != MenuCommand::Nothing {
                false
            } else {
                s.sidebar_focus
            },
            ..s
        };
        with_command(t, cmd)
    }
}

/// A key while the sidebar has the focus.
pub open spec fn sidebar_routed(s: ShellView, code: Code) -> (ShellView, Action) {
    let last: usize = if s.analysis_only {
        1
    } else {
        2
    };
    if code == Code::Up || code == Code::Char('k') {
        (
            ShellView {
                sidebar_cursor: if s.sidebar_cursor == 0 {
                    0
                } else {
                    (s.sidebar_cursor - 1) as usize
                },
                ..s
            },
            Action::Nothing,
        )
    } else if code == Code::Down || code == Code::Char('j') {
        (
            ShellView {
                sidebar_cursor: if s.sidebar_cursor + 1 < last {
                    (s.sidebar_cursor + 1) as usize
                } else {
                    last
                },
                ..s
            },
            Action::Nothing,
        )
    } else if code == Code::Home {
        (ShellView { sidebar_cursor: 0, ..s }, Action::Nothing)
    } else if code == Code::End {
        (ShellView { sidebar_cursor: last, ..s }, Action::Nothing)
    } else if code == Code::Enter || code == Code::Right {
        navigated(s, s.sidebar_cursor)
    } else if code == Code::Esc {
        (
            ShellView { sidebar_focus: false, sidebar_cursor: section_of(s.screen), ..s },
            Action::Nothing,
        )
    } else if code == Code::Char('q') {
        (ShellView { quit: true, ..s }, Action::Nothing)
    } else {
        (s, Action::Nothing)
    }
}

/// A key for the current screen.
pub open spec fn screen_routed(s: ShellView, k: ShellKey) -> (ShellView, Action) {
    let code = k.code;
    match s.screen {
        Screen::Location | Screen::Review | Screen::RelocationSources
        | Screen::RelocationDestination | Screen::ReviewConfirm | Screen::Processes => (
            s,
            Action::ScreenKey(code),
        ),
        Screen::Scanning => if code == Code::Esc {
            (s, Action::CancelScan)
        } else if code == Code::Char('q') {
            (ShellView { quit: true, ..s }, Action::CancelScan)
        } else {
            (s, Action::Nothing)
        },
        Screen::RelocationPlanning | Screen::Relocating => (s, Action::Nothing),
        Screen::RelocationConfirm => if code == Code::Char('y') || code == Code::Char('Y') {
            (s, Action::BeginRelocation)
        } else if code == Code::Char('n') || code == Code::Char('N') || code == Code::Esc {
            (ShellView { screen: Screen::RelocationDestination, ..s }, Action::DropRelocationPlan)
        } else {
            (s, Action::Nothing)
        },
        Screen::RelocationResult => if code == Code::Enter || code == Code::Esc {
            (s, Action::CloseRelocationResult)
        } else if code == Code::Char('q') {
            (ShellView { quit: true, ..s }, Action::Nothing)
        } else {
            (s, Action::Nothing)
        },
        Screen::Details => if (code == Code::Char('d') || code == Code::Char('D'))
            && !s.analysis_only {
            (s, Action::PrepareCurrentCleanup)
        } else if (code == Code::Char('c') || code == Code::Char('C')) && !s.analysis_only {
            (s, Action::PrepareSafeCleanup)
        } else if (code == Code::Char('m') || code == Code::Char('M')) && !s.analysis_only {
            (s, Action::OpenRelocationSources)
        } else if code == Code::Char('o') || code == Code::Char('O') {
            (s, Action::RevealCurrent)
        } else if code == Code::Enter || code == Code::Esc {
            (ShellView { screen: Screen::Review, ..s }, Action::Nothing)
        } else if code == Code::Char('q') {
            (ShellView { quit: true, ..s }, Action::Nothing)
        } else {
            (s, Action::Nothing)
        },
        Screen::Confirm => if code == Code::Char('y') || code == Code::Char('Y') {
            (s, Action::BeginCleanup)
        } else if code == Code::Char('n') || code == Code::Char('N') || code == Code::Esc {
            (ShellView { screen: Screen::Review, ..s }, Action::Nothing)
        } else {
            (s, Action::Nothing)
        },
        Screen::ProcessConfirm => if code == Code::Char('t') || code == Code::Char('T') {
            (s, Action::SendSignal(Signal::Terminate))
        } else if code == Code::Char('k') || code == Code::Char('K') {
            (s, Action::SendSignal(Signal::Kill))
        } else if code == Code::Esc || code == Code::Char('n') || code == Code::Char('N') {
            (ShellView { screen: Screen::Processes, ..s }, Action::ClearProcessTarget)
        } else {
            (s, Action::Nothing)
        },
        Screen::Cleaning => if code == Code::Char('q') || code == Code::Esc {
            (s, Action::StopCleanup)
        } else {
            (s, Action::Nothing)
        },
        Screen::Summary => if code == Code::Char('q') || code == Code::Enter || code
            == Code::Esc {
            (ShellView { quit: true, ..s }, Action::Nothing)
        } else {
            (s, Action::Nothing)
        },
    }
}

/// The terminal is below the supported size.
pub open spec fn too_small(s: ShellView) -> bool {
    s.terminal_width < MIN_WIDTH || s.terminal_height < MIN_HEIGHT
}

/// Control-C.
pub open spec fn is_interrupt(k: ShellKey) -> bool {
    k.control && k.code == Code::Char('c')
}

/// A digit key from 1 to 3 without Alt or Control: the section it selects.
pub open spec fn section_key(k: ShellKey) -> Option<usize> {
    match k.code {
        Code::Char(c) => if !k.alt && !k.control && '1' <= c && c <= '3' {
            Some(((c as u32) - ('1' as u32)) as usize)
        } else {
            None
        },
        _ => None,
    }
}

/// The keys for everything but a scrolled dialog: the open menu takes
/// every key; the help closes on Esc, Enter, `?` or `q`; Control-C stops a
/// cleanup, waits out a move, or quits; then the global shortcuts.
pub open spec fn layered_step(s: ShellView, k: ShellKey) -> (ShellView, Action) {
    let code = k.code;
    if s.menu.open is Some {
        menu_routed(s, code)
    } else if s.show_help {
        if code == Code::Esc || code == Code::Enter || code == Code::Char('?') || code
            == Code::Char('q') {
            (ShellView { show_help: false, ..s }, Action::Nothing)
        } else {
            (s, Action::Nothing)
        }
    } else if is_interrupt(k) {
        if s.screen == Screen::Cleaning {
            (s, Action::StopCleanup)
        } else if s.screen == Screen::RelocationPlanning || s.screen == Screen::Relocating {
            (ShellView { status_message: Some(relocation_busy_note()), ..s }, Action::Nothing)
        } else {
            (ShellView { quit: true, ..s }, Action::Nothing)
        }
    } else {
        global_step(s, k)
    }
}

/// The menu that Alt with the key opens, if any.
pub open spec fn alt_menu(k: ShellKey) -> Option<MenuId> {
    match k.code {
        Code::Char(c) => if k.alt {
            menu_for_key(c)
        } else {
            None
        },
        _ => None,
    }
}

/// What a function key does here, if it is one that is handled.
pub open spec fn function_step(s: ShellView, k: ShellKey) -> Option<(ShellView, Action)> {
    match k.code {
        Code::F(n) => match function_key_step(context_of(s), s.menu, n) {
            Some((m, cmd)) => Some(
                if n == 1 {
                    (ShellView { menu: m, dialog_scroll: 0, show_help: true, ..s }, Action::Nothing)
                } else {
                    with_command(ShellView { menu: m, ..s }, cmd)
                },
            ),
            None => None,
        },
        _ => None,
    }
}

/// The global shortcuts, in order: Alt with a menu letter opens that menu;
/// `1` to `3` go to a section; function keys; `?` opens the help; Tab moves
/// between the sidebar and the screen; the sidebar takes keys while it has
/// the focus; the rest goes to the screen.
pub open spec fn global_step(s: ShellView, k: ShellKey) -> (ShellView, Action) {
    let code = k.code;
    if alt_menu(k) is Some {
        (ShellView { menu: opened(context_of(s), s.menu, alt_menu(k)->0), ..s }, Action::Nothing)
    } else if menus_allowed(s.screen) && section_key(k) is Some {
        navigated(s, section_key(k)->0)
    } else if function_step(s, k) is Some {
        function_step(s, k)->0
    } else {
        local_step(s, k)
    }
}

/// After the shortcuts: `?` opens the help; Tab moves between the sidebar
/// and the screen; the sidebar takes keys while it has the focus; the rest
/// goes to the screen.
pub open spec fn local_step(s: ShellView, k: ShellKey) -> (ShellView, Action) {
    let code = k.code;
    if code == Code::Char('?') && !help_blocked(s.screen) {
        (ShellView { dialog_scroll: 0, show_help: true, ..s }, Action::Nothing)
    } else if menus_allowed(s.screen) && (code == Code::Tab || code == Code::BackTab || code
        == Code::F(8)) {
        (
            ShellView {
                sidebar_focus: !s.sidebar_focus,
                sidebar_cursor: if !s.sidebar_focus {
                    section_of(s.screen)
                } else {
                    s.sidebar_cursor
                },
                ..s
            },
            Action::Nothing,
        )
    } else if s.sidebar_focus && menus_allowed(s.screen) {
        sidebar_routed(s, code)
    } else {
        screen_routed(s, k)
    }
}

/// Where a key goes: a release does nothing; a too small terminal only lets
/// Esc, `q` and Control-C through; a scrolled dialog takes the scroll keys;
/// then the layers above.
pub open spec fn shell_step(s: ShellView, k: ShellKey) -> (ShellView, Action) {
    let code = k.code;
    if !k.press {
        (s, Action::Nothing)
    } else if too_small(s) && !(code == Code::Esc || code == Code::Char('q') || is_interrupt(k)) {
        (s, Action::Nothing)
    } else if scrollable(s) && (code == Code::Up || code == Code::PageUp) {
        (
            ShellView {
                dialog_scroll: if s.dialog_scroll < 3 {
                    0
                } else {
                    (s.dialog_scroll - 3) as u16
                },
                ..s
            },
            Action::Nothing,
        )
    } else if scrollable(s) && (code == Code::Down || code == Code::PageDown) {
        let raised = if s.dialog_scroll + 3 > u16::MAX {
            u16::MAX as int
        } else {
            s.dialog_scroll + 3
        };
        (
            ShellView {
                dialog_scroll: if raised < s.dialog_max_scroll {
                    raised as u16
                } else {
                    s.dialog_max_scroll
                },
                ..s
            },
            Action::Nothing,
        )
    } else if scrollable(s) && code == Code::Home {
        (ShellView { dialog_scroll: 0, ..s }, Action::Nothing)
    } else {
        layered_step(s, k)
    }
}

impl ShellState {
    /// What the menus read of this state.
    pub fn context(&self) -> (res: MenuContext)
        ensures
            res == context_of(self@),
    {
        MenuContext {
            screen: self.screen,
            analysis_only: self.analysis_only,
            has_ready_space: self.has_ready_space,
            has_current_item: self.has_current_item,
            process_signalable: self.process_signalable,
        }
    }

    /// Goes to a section of the sidebar.
    pub fn navigate_to(&mut self, section: usize) -> (res: Action)
        ensures
            (final(self)@, res) == navigated(old(self)@, section),
    {
        if !menu_is_available(self.screen) {
            return Action::Nothing;
        }
        if section == 2 && self.analysis_only {
            self.status_message = Some(
                crate::text::owned("Move data is unavailable in this read-only session."),
            );
            return Action::Nothing;
        }
        self.status_message = None;
        self.sidebar_focus = false;
        self.sidebar_cursor = section;
        if section == 0 {
            self.screen = if self.has_inventory || self.has_entries {
                Screen::Review
            } else {
                Screen::Location
            };
            Action::Nothing
        } else if section == 1 {
            self.screen = Screen::Processes;
            Action::RefreshProcesses
        } else if section == 2 {
            if self.has_inventory {
                Action::OpenRelocationSources
            } else {
                self.screen = Screen::Location;
                Action::Nothing
            }
        } else {
            Action::Nothing
        }
    }

    /// Runs a menu command.
    fn run_command(&mut self, cmd: MenuCommand) -> (res: Action)
        ensures
            (final(self)@, res) == with_command(old(self)@, cmd),
    {
        match cmd {
            MenuCommand::Nothing => Action::Nothing,
            MenuCommand::ChooseLocation => {
                self.screen = Screen::Location;
                Action::Nothing
            },
            MenuCommand::RefreshProcesses => Action::RefreshProcesses,
            MenuCommand::RestartScan => Action::RestartScan,
            MenuCommand::Quit => {
                self.quit = true;
                Action::Nothing
            },
            MenuCommand::NavigateTo(i) => self.navigate_to(i),
            MenuCommand::CleanSafeItems => Action::PrepareSafeCleanup,
            MenuCommand::RevealCurrent => Action::RevealCurrent,
            MenuCommand::SignalProcess => Action::ScreenKey(Code::Char('d')),
            MenuCommand::ShowHelp => {
                self.show_help = true;
                Action::Nothing
            },
        }
    }

    /// A key while a menu is open.
    fn route_menu_key(&mut self, code: Code) -> (res: Action)
        ensures
            (final(self)@, res) == menu_routed(old(self)@, code),
    {
        if code == Code::F(1) {
            self.menu.open = None;
            self.dialog_scroll = 0;
            self.show_help = true;
            return Action::Nothing;
        }
        let key = match code {
            Code::Esc => MenuKey::Esc,
            Code::Left => MenuKey::Left,
            Code::Right => MenuKey::Right,
            Code::Up => MenuKey::Up,
            Code::Down => MenuKey::Down,
            Code::PageUp => MenuKey::PageUp,
            Code::PageDown => MenuKey::PageDown,
            Code::Home => MenuKey::Home,
            Code::End => MenuKey::End,
            Code::Enter => MenuKey::Enter,
            Code::F(n) => MenuKey::F(n),
            Code::Char(c) => MenuKey::Char(c),
            _ => MenuKey::Other,
        };
        let ctx = self.context();
        let cmd = handle_menu_key(ctx, &mut self.menu, key);
        if code == Code::Enter && cmd != MenuCommand::Nothing {
            self.sidebar_focus = false;
        }
        self.run_command(cmd)
    }

    /// A key while the sidebar has the focus.
    fn route_sidebar_key(&mut self, code: Code) -> (res: Action)
        ensures
            (final(self)@, res) == sidebar_routed(old(self)@, code),
    {
        let last: usize = if self.analysis_only {
            1
        } else {
            2
        };
        if code == Code::Up || code == Code::Char('k') {
            self.sidebar_cursor = if self.sidebar_cursor == 0 {
                0
            } else {
                self.sidebar_cursor - 1
            };
            Action::Nothing
        } else if code == Code::Down || code == Code::Char('j') {
            self.sidebar_cursor = if self.sidebar_cursor < last && self.sidebar_cursor + 1 < last {
                self.sidebar_cursor + 1
            } else {
                last
            };
            Action::Nothing
        } else if code == Code::Home {
            self.sidebar_cursor = 0;
            Action::Nothing
        } else if code == Code::End {
            self.sidebar_cursor = last;
            Action::Nothing
        } else if code == Code::Enter || code == Code::Right {
            let section = self.sidebar_cursor;
            self.navigate_to(section)
        } else if code == Code::Esc {
            self.sidebar_focus = false;
            self.sidebar_cursor = section_index(self.screen);
            Action::Nothing
        } else if code == Code::Char('q') {
            self.quit = true;
            Action::Nothing
        } else {
            Action::Nothing
        }
    }

    /// A key for the current screen.
    fn route_screen_key(&mut self, k: ShellKey) -> (res: Action)
        ensures
            (final(self)@, res) == screen_routed(old(self)@, k),
    {
        let code = k.code;
        match self.screen {
            Screen::Location | Screen::Review | Screen::RelocationSources
            | Screen::RelocationDestination | Screen::ReviewConfirm | Screen::Processes => {
                Action::ScreenKey(code)
            },
            Screen::Scanning => {
                if code == Code::Esc {
                    Action::CancelScan
                } else if code == Code::Char('q') {
                    self.quit = true;
                    Action::CancelScan
                } else {
                    Action::Nothing
                }
            },
            Screen::RelocationPlanning | Screen::Relocating => Action::Nothing,
            Screen::RelocationConfirm => {
                if code == Code::Char('y') || code == Code::Char('Y') {
                    Action::BeginRelocation
                } else if code == Code::Char('n') || code == Code::Char('N') || code == Code::Esc {
                    self.screen = Screen::RelocationDestination;
                    Action::DropRelocationPlan
                } else {
                    Action::Nothing
                }
            },
            Screen::RelocationResult => {
                if code == Code::Enter || code == Code::Esc {
                    Action::CloseRelocationResult
                } else if code == Code::Char('q') {
                    self.quit = true;
                    Action::Nothing
                } else {
                    Action::Nothing
                }
            },
            Screen::Details => {
                if (code == Code::Char('d') || code == Code::Char('D')) && !self.analysis_only {
                    Action::PrepareCurrentCleanup
                } else if (code == Code::Char('c') || code == Code::Char('C'))
                    && !self.analysis_only {
                    Action::PrepareSafeCleanup
                } else if (code == Code::Char('m') || code == Code::Char('M'))
                    && !self.analysis_only {
                    Action::OpenRelocationSources
                } else if code == Code::Char('o') || code == Code::Char('O') {
                    Action::RevealCurrent
                } else if code == Code::Enter || code == Code::Esc {
                    self.screen = Screen::Review;
                    Action::Nothing
                } else if code == Code::Char('q') {
                    self.quit = true;
                    Action::Nothing
                } else {
                    Action::Nothing
                }
            },
            Screen::Confirm => {
                if code == Code::Char('y') || code == Code::Char('Y') {
                    Action::BeginCleanup
                } else if code == Code::Char('n') || code == Code::Char('N') || code == Code::Esc {
                    self.screen = Screen::Review;
                    Action::Nothing
                } else {
                    Action::Nothing
                }
            },
            Screen::ProcessConfirm => {
                if code == Code::Char('t') || code == Code::Char('T') {
                    Action::SendSignal(Signal::Terminate)
                } else if code == Code::Char('k') || code == Code::Char('K') {
                    Action::SendSignal(Signal::Kill)
                } else if code == Code::Esc || code == Code::Char('n') || code == Code::Char('N') {
                    self.screen = Screen::Processes;
                    Action::ClearProcessTarget
                } else {
                    Action::Nothing
                }
            },
            Screen::Cleaning => {
                if code == Code::Char('q') || code == Code::Esc {
                    Action::StopCleanup
                } else {
                    Action::Nothing
                }
            },
            Screen::Summary => {
                if code == Code::Char('q') || code == Code::Enter || code == Code::Esc {
                    self.quit = true;
                }
                Action::Nothing
            },
        }
    }

    /// The global shortcuts and what is below them.
    fn route_global_key(&mut self, k: ShellKey) -> (res: Action)
        ensures
            (final(self)@, res) == global_step(old(self)@, k),
    {
        let code = k.code;
        if k.alt {
            if let Code::Char(c) = code {
                if let Some(menu) = menu_for_hotkey(c) {
                    let ctx = self.context();
                    open_menu(ctx, &mut self.menu, menu);
                    return Action::Nothing;
                }
            }
        }
        if menu_is_available(self.screen) && !k.alt && !k.control {
            if let Code::Char(c) = code {
                if '1' <= c && c <= '3' {
                    let section = ((c as u32) - ('1' as u32)) as usize;
                    return self.navigate_to(section);
                }
            }
        }
        if let Code::F(n) = code {
            let ctx = self.context();
            match handle_function_key(ctx, &mut self.menu, n) {
                Some(cmd) => {
                    if n == 1 {
                        self.dialog_scroll = 0;
                        self.show_help = true;
                        return Action::Nothing;
                    }
                    return self.run_command(cmd);
                },
                None => {},
            }
        }
        self.route_local_key(k)
    }

    /// `?`, Tab, the sidebar, then the screen.
    fn route_local_key(&mut self, k: ShellKey) -> (res: Action)
        ensures
            (final(self)@, res) == local_step(old(self)@, k),
    {
        let code = k.code;
        if code == Code::Char('?') && !(self.screen == Screen::Scanning || self.screen
            == Screen::Cleaning || self.screen == Screen::RelocationDestination || self.screen
            == Screen::RelocationPlanning || self.screen == Screen::RelocationConfirm
            || self.screen == Screen::Relocating || self.screen == Screen::ReviewConfirm
            || self.screen == Screen::ProcessConfirm) {
            self.dialog_scroll = 0;
            self.show_help = true;
            return Action::Nothing;
        }
        if menu_is_available(self.screen) && (code == Code::Tab || code == Code::BackTab || code
            == Code::F(8)) {
            self.sidebar_focus = !self.sidebar_focus;
            if self.sidebar_focus {
                self.sidebar_cursor = section_index(self.screen);
            }
            return Action::Nothing;
        }
        if self.sidebar_focus && menu_is_available(self.screen) {
            return self.route_sidebar_key(code);
        }
        self.route_screen_key(k)
    }

    /// The open menu, the help, Control-C, then the global shortcuts.
    fn route_layered_key(&mut self, k: ShellKey) -> (res: Action)
        ensures
            (final(self)@, res) == layered_step(old(self)@, k),
    {
        let code = k.code;
        if self.menu.open.is_some() {
            return self.route_menu_key(code);
        }
        if self.show_help {
            if code == Code::Esc || code == Code::Enter || code == Code::Char('?') || code
                == Code::Char('q') {
                self.show_help = false;
            }
            return Action::Nothing;
        }
        if k.control && code == Code::Char('c') {
            if self.screen == Screen::Cleaning {
                return Action::StopCleanup;
            } else if self.screen == Screen::RelocationPlanning || self.screen
                == Screen::Relocating {
                self.status_message = Some(
                    crate::text::owned(
                        "Relocation is in progress; wait for validation or copy verification to finish.",
                    ),
                );
                return Action::Nothing;
            } else {
                self.quit = true;
                return Action::Nothing;
            }
        }
        self.route_global_key(k)
    }

    /// Routes a key event and says what the program must run next.
    pub fn handle_key(&mut self, k: ShellKey) -> (res: Action)
        ensures
            (final(self)@, res) == shell_step(old(self)@, k),
    {
        let code = k.code;
        if !k.press {
            return Action::Nothing;
        }
        let interrupt = k.control && code == Code::Char('c');
        if (self.terminal_width < MIN_WIDTH || self.terminal_height < MIN_HEIGHT) && !(code
            == Code::Esc || code == Code::Char('q') || interrupt) {
            return Action::Nothing;
        }
        let scrollable = self.show_help || self.screen == Screen::Confirm || self.screen
            == Screen::ReviewConfirm || self.screen == Screen::ProcessConfirm || self.screen
            == Screen::RelocationConfirm || self.screen == Screen::Details;
        if scrollable && (code == Code::Up || code == Code::PageUp) {
            self.dialog_scroll = if self.dialog_scroll < 3 {
                0
            } else {
                self.dialog_scroll - 3
            };
            return Action::Nothing;
        }
        if scrollable && (code == Code::Down || code == Code::PageDown) {
            let raised: u16 = if self.dialog_scroll > u16::MAX - 3 {
                u16::MAX
            } else {
                self.dialog_scroll + 3
            };
            self.dialog_scroll = if raised < self.dialog_max_scroll {
                raised
            } else {
                self.dialog_max_scroll
            };
            return Action::Nothing;
        }
        if scrollable && code == Code::Home {
            self.dialog_scroll = 0;
            return Action::Nothing;
        }
        self.route_layered_key(k)
    }
}

/// The sidebar section of a screen.
pub fn section_index(screen: Screen) -> (res: usize)
    ensures
        res == section_of(screen),
{
    if screen == Screen::Processes || screen == Screen::ProcessConfirm {
        1
    } else if screen == Screen::RelocationSources || screen == Screen::RelocationDestination
        || screen == Screen::RelocationPlanning || screen == Screen::RelocationConfirm || screen
        == Screen::Relocating || screen == Screen::RelocationResult {
        2
    } else {
        0
    }
}

// ---------------------------------------------------------------------------
// Moving data
// ---------------------------------------------------------------------------

/// The note shown when moving data is asked for in a read-only session.
pub open spec fn relocation_disabled_note() -> Seq<char> {
    "Relocation is disabled in read-only analysis mode; restart without --analyze."@
}

/// The note shown when no folder can be moved.
pub open spec fn no_sources_note() -> Seq<char> {
    "No relocatable user-owned directories were found in the largest-consumer inventory."@
}

/// Asking to move data when `count` folders could be moved: a read-only
/// session refuses, no folder is reported as such, and otherwise the list
/// of folders opens.
pub open spec fn sources_opened(s: ShellView, count: usize) -> ShellView {
    let t = ShellView { sidebar_focus: false, ..s };
    if s.analysis_only {
        ShellView { status_message: Some(relocation_disabled_note()), ..t }
    } else if count == 0 {
        ShellView { status_message: Some(no_sources_note()), ..t }
    } else {
        ShellView { status_message: None, screen: Screen::RelocationSources, ..t }
    }
}

impl ShellState {
    /// Opens the list of `source_count` folders that can be moved; returns
    /// whether it opened, in which case the list starts on its first folder
    /// with nothing typed yet.
    pub fn open_relocation_sources(&mut self, source_count: usize) -> (res: bool)
        ensures
            final(self)@ == sources_opened(old(self)@, source_count),
            res == (!old(self).analysis_only && source_count > 0),
    {
        self.sidebar_focus = false;
        if self.analysis_only {
            self.status_message = Some(
                crate::text::owned(
                    "Relocation is disabled in read-only analysis mode; restart without --analyze.",
                ),
            );
            return false;
        }
        if source_count == 0 {
            self.status_message = Some(
                crate::text::owned(
                    "No relocatable user-owned directories were found in the largest-consumer inventory.",
                ),
            );
            return false;
        }
        self.status_message = None;
        self.screen = Screen::RelocationSources;
        true
    }
}

// ---------------------------------------------------------------------------
// The mouse
// ---------------------------------------------------------------------------

/// The dialog scrolled by three rows, up or down, within its range.
pub open spec fn dialog_scrolled(s: ShellView, up: bool) -> ShellView {
    if up {
        ShellView { dialog_scroll: sat_sub16(s.dialog_scroll, 3), ..s }
    } else {
        let raised = sat_add16(s.dialog_scroll, 3);
        ShellView {
            dialog_scroll: if raised < s.dialog_max_scroll {
                raised
            } else {
                s.dialog_max_scroll
            },
            ..s
        }
    }
}

/// The wheel turned at `column`: it moves the open menu's cursor, or over
/// the sidebar focuses it and moves its cursor, or else scrolls the view.
pub open spec fn wheel_step(s: ShellView, column: u16, sidebar_width: u16, up: bool) -> (
    ShellView,
    Action,
) {
    if s.menu.open is Some {
        (
            ShellView {
                menu: cursor_moved(
                    context_of(s),
                    s.menu,
                    if up {
                        -1
                    } else {
                        1
                    },
                ),
                ..s
            },
            Action::Nothing,
        )
    } else if column < sidebar_width {
        let t = ShellView {
            sidebar_cursor: if !s.sidebar_focus {
                section_of(s.screen)
            } else {
                s.sidebar_cursor
            },
            sidebar_focus: true,
            ..s
        };
        sidebar_routed(
            t,
            if up {
                Code::Up
            } else {
                Code::Down
            },
        )
    } else {
        (
            ShellView { sidebar_focus: false, ..s },
            Action::ScrollView(
                if up {
                    -3i8
                } else {
                    3i8
                },
            ),
        )
    }
}

/// The first clickable region that holds the cell.
pub open spec fn first_hit(hits: Seq<(Rect, HitTarget)>, column: u16, row: u16) -> Option<
    HitTarget,
>
    decreases hits.len(),
{
    if hits.len() == 0 {
        None
    } else if contains(hits[0].0, column, row) {
        Some(hits[0].1)
    } else {
        first_hit(hits.drop_first(), column, row)
    }
}

/// The screen on which a region answers a click.
pub open spec fn hit_applies(screen: Screen, h: HitTarget) -> bool {
    match h {
        HitTarget::Finding(_) | HitTarget::Consumer(_) | HitTarget::StorageTab(_) => screen
            == Screen::Review,
        HitTarget::Location(_) => screen == Screen::Location,
        HitTarget::Process(_) => screen == Screen::Processes,
        HitTarget::Source(_) => screen == Screen::RelocationSources,
    }
}

/// The item row of the open menu's drop-down under the cell, if the cell
/// lies between the drop-down's borders.
pub open spec fn popup_row_at(s: ShellView, menu: MenuId, column: u16, row: u16) -> Option<int> {
    let area = rect_of(0, 0, s.terminal_width, s.terminal_height);
    match popup_rect(area, menu_entries(context_of(s), menu).len() as int) {
        Some(p) => if contains(p, column, row) && row > p.y && row < sat_sub16(
            sat_add16(p.y, p.height),
            1,
        ) {
            Some(row - p.y - 1)
        } else {
            None
        },
        None => None,
    }
}

/// A click with no menu in the way: a top-bar item goes to its section; a
/// click on the sidebar focuses it; elsewhere the first region under the
/// click answers when the screen is the one it belongs to.
pub open spec fn clicked_below_menu(
    s: ShellView,
    column: u16,
    row: u16,
    sidebar_width: u16,
    hits: Seq<(Rect, HitTarget)>,
) -> (ShellView, Action) {
    match top_item_at(column, row, s.terminal_width) {
        Some(section) => navigated(s, section),
        None => {
            let inside = column < sidebar_width;
            let t = ShellView {
                sidebar_cursor: if !s.sidebar_focus && inside {
                    section_of(s.screen)
                } else {
                    s.sidebar_cursor
                },
                sidebar_focus: inside,
                ..s
            };
            if inside {
                (t, Action::Nothing)
            } else {
                match first_hit(hits, column, row) {
                    Some(h) => (
                        t,
                        if hit_applies(s.screen, h) {
                            Action::Hit(h)
                        } else {
                            Action::Nothing
                        },
                    ),
                    None => (t, Action::Nothing),
                }
            }
        },
    }
}

/// A left click: nothing under the help or where menus are not allowed; on
/// an enabled item of the open menu it runs that item, on a disabled one it
/// does nothing; elsewhere it closes the menu and goes on below it.
pub open spec fn clicked(
    s: ShellView,
    column: u16,
    row: u16,
    sidebar_width: u16,
    hits: Seq<(Rect, HitTarget)>,
) -> (ShellView, Action) {
    if s.show_help || !menus_allowed(s.screen) {
        (s, Action::Nothing)
    } else {
        match s.menu.open {
            Some(menu) => match popup_row_at(s, menu, column, row) {
                Some(index) => {
                    let items = menu_entries(context_of(s), menu);
                    if index < items.len() && items[index].2 {
                        let (m, cmd) = activated(
                            context_of(s),
                            MenuState { cursor: index as usize, ..s.menu },
                        );
                        with_command(ShellView { menu: m, ..s }, cmd)
                    } else {
                        (s, Action::Nothing)
                    }
                },
                None => clicked_below_menu(
                    ShellView { menu: closed(s.menu), ..s },
                    column,
                    row,
                    sidebar_width,
                    hits,
                ),
            },
            None => clicked_below_menu(s, column, row, sidebar_width, hits),
        }
    }
}

/// What a mouse event does: a scrolled dialog takes the wheel and nothing
/// else; where menus are not allowed nothing happens; otherwise the wheel
/// and the left button act as above.
pub open spec fn mouse_step(
    s: ShellView,
    m: MouseInput,
    sidebar_width: u16,
    hits: Seq<(Rect, HitTarget)>,
) -> (ShellView, Action) {
    if scrollable(s) {
        match m.kind {
            MouseKind::ScrollUp => (dialog_scrolled(s, true), Action::Nothing),
            MouseKind::ScrollDown => (dialog_scrolled(s, false), Action::Nothing),
            _ => (s, Action::Nothing),
        }
    } else if !menus_allowed(s.screen) {
        (s, Action::Nothing)
    } else {
        match m.kind {
            MouseKind::ScrollUp => wheel_step(s, m.column, sidebar_width, true),
            MouseKind::ScrollDown => wheel_step(s, m.column, sidebar_width, false),
            MouseKind::LeftDown => clicked(s, m.column, m.row, sidebar_width, hits),
            MouseKind::Other => (s, Action::Nothing),
        }
    }
}

/// A menu has at most four items.
proof fn lemma_menu_short(ctx: MenuContext, menu: MenuId)
    ensures
        menu_entries(ctx, menu).len() <= 4,
{
}

/// The first clickable region that holds the cell.
pub fn find_hit(hits: &Vec<(Rect, HitTarget)>, column: u16, row: u16) -> (res: Option<HitTarget>)
    ensures
        res == first_hit(hits@, column, row),
{
    let mut i: usize = 0;
    assert(hits@.skip(0) =~= hits@);
    while i < hits.len()
        invariant
            i <= hits@.len(),
            first_hit(hits@, column, row) == first_hit(hits@.skip(i as int), column, row),
        decreases hits@.len() - i,
    {
        assert(hits@.skip(i as int).drop_first() =~= hits@.skip(i + 1));
        assert(hits@.skip(i as int)[0] == hits@[i as int]);
        let (area, target) = hits[i];
        if rect_contains(area, column, row) {
            return Some(target);
        }
        i = i + 1;
    }
    assert(hits@.skip(i as int).len() == 0);
    None
}

/// Whether a region answers a click on this screen.
pub fn hit_applies_on(screen: Screen, h: HitTarget) -> (res: bool)
    ensures
        res == hit_applies(screen, h),
{
    match h {
        HitTarget::Finding(_) | HitTarget::Consumer(_) | HitTarget::StorageTab(_) => screen
            == Screen::Review,
        HitTarget::Location(_) => screen == Screen::Location,
        HitTarget::Process(_) => screen == Screen::Processes,
        HitTarget::Source(_) => screen == Screen::RelocationSources,
    }
}

/// A cursor moved by `delta` rows over a list of `length` rows, kept
/// between the first row and the last.
pub fn scrolled_cursor(cursor: usize, length: usize, delta: i8) -> (res: usize)
    requires
        delta < 0 || cursor + delta <= usize::MAX,
    ensures
        res == (if delta < 0 {
            if cursor + delta < 0 {
                0
            } else {
                cursor + delta
            }
        } else {
            let last = if length == 0 {
                0
            } else {
                length - 1
            };
            if cursor + delta < last {
                cursor + delta
            } else {
                last
            }
        }),
{
    if delta < 0 {
        let step = (0 - (delta as i16)) as usize;
        cursor.saturating_sub(step)
    } else {
        let last = length.saturating_sub(1);
        let moved = cursor + delta as usize;
        if moved < last {
            moved
        } else {
            last
        }
    }
}

impl ShellState {
    /// The wheel turned at `column`.
    fn route_wheel(&mut self, column: u16, sidebar_width: u16, up: bool) -> (res: Action)
        ensures
            (final(self)@, res) == wheel_step(old(self)@, column, sidebar_width, up),
    {
        if self.menu.open.is_some() {
            let ctx = self.context();
            move_menu_cursor(
                ctx,
                &mut self.menu,
                if up {
                    -1
                } else {
                    1
                },
            );
            return Action::Nothing;
        }
        if column < sidebar_width {
            if !self.sidebar_focus {
                self.sidebar_cursor = section_index(self.screen);
            }
            self.sidebar_focus = true;
            return self.route_sidebar_key(
                if up {
                    Code::Up
                } else {
                    Code::Down
                },
            );
        }
        self.sidebar_focus = false;
        Action::ScrollView(
            if up {
                -3
            } else {
                3
            },
        )
    }

    /// A click with no menu in the way.
    fn route_click_below_menu(
        &mut self,
        column: u16,
        row: u16,
        sidebar_width: u16,
        hits: &Vec<(Rect, HitTarget)>,
    ) -> (res: Action)
        ensures
            (final(self)@, res) == clicked_below_menu(old(self)@, column, row, sidebar_width, hits@),
    {
        if let Some(section) = navigation_at(column, row, self.terminal_width) {
            return self.navigate_to(section);
        }
        let inside = column < sidebar_width;
        if !self.sidebar_focus && inside {
            self.sidebar_cursor = section_index(self.screen);
        }
        self.sidebar_focus = inside;
        if inside {
            return Action::Nothing;
        }
        match find_hit(hits, column, row) {
            Some(h) => if hit_applies_on(self.screen, h) {
                Action::Hit(h)
            } else {
                Action::Nothing
            },
            None => Action::Nothing,
        }
    }

    /// The item row of the open menu's drop-down under the cell.
    fn popup_row(&self, menu: MenuId, column: u16, row: u16) -> (res: Option<usize>)
        ensures
            match res {
                Some(r) => popup_row_at(self@, menu, column, row) == Some(r as int),
                None => popup_row_at(self@, menu, column, row) is None,
            },
    {
        let area = Rect::new(0, 0, self.terminal_width, self.terminal_height);
        let ctx = self.context();
        let items = menu_items(ctx, menu);
        proof {
            lemma_menu_short(ctx, menu);
            assert(items@.map_values(|i: crate::menu::MenuItem| i@).len() == items@.len());
        }
        match menu_popup_rect(area, menu, items.len()) {
            Some(popup) => {
                if rect_contains(popup, column, row) && row > popup.y && row
                    < popup.y.saturating_add(popup.height).saturating_sub(1) {
                    Some((row - popup.y - 1) as usize)
                } else {
                    None
                }
            },
            None => None,
        }
    }

    /// A click on item row `index` of the open menu.
    fn click_menu_row(&mut self, menu: MenuId, index: usize) -> (res: Action)
        requires
            old(self).menu.open == Some(menu),
        ensures
            (final(self)@, res) == ({
                let s = old(self)@;
                let items = menu_entries(context_of(s), menu);
                if index < items.len() && items[index as int].2 {
                    let (m, cmd) = activated(context_of(s), MenuState { cursor: index, ..s.menu });
                    with_command(ShellView { menu: m, ..s }, cmd)
                } else {
                    (s, Action::Nothing)
                }
            }),
    {
        let ctx = self.context();
        let items = menu_items(ctx, menu);
        proof {
            if index < items@.len() {
                assert(items@.map_values(|i: crate::menu::MenuItem| i@)[index as int]
                    == items@[index as int]@);
            }
        }
        if index < items.len() && items[index].enabled {
            self.menu.cursor = index;
            let cmd = activate_menu_item(ctx, &mut self.menu);
            return self.run_command(cmd);
        }
        Action::Nothing
    }

    /// A left click.
    fn route_click(
        &mut self,
        column: u16,
        row: u16,
        sidebar_width: u16,
        hits: &Vec<(Rect, HitTarget)>,
    ) -> (res: Action)
        ensures
            (final(self)@, res) == clicked(old(self)@, column, row, sidebar_width, hits@),
    {
        if self.show_help || !menu_is_available(self.screen) {
            return Action::Nothing;
        }
        if let Some(menu) = self.menu.open {
            match self.popup_row(menu, column, row) {
                Some(index) => {
                    return self.click_menu_row(menu, index);
                },
                None => {
                    self.menu.open = None;
                },
            }
        }
        self.route_click_below_menu(column, row, sidebar_width, hits)
    }

    /// Routes a mouse event and says what the program must run next.
    /// `sidebar_width` is the width of the sidebar as drawn, and `hits` the
    /// clickable regions of the last drawn screen, in drawing order.
    pub fn handle_mouse(
        &mut self,
        m: MouseInput,
        sidebar_width: u16,
        hits: &Vec<(Rect, HitTarget)>,
    ) -> (res: Action)
        ensures
            (final(self)@, res) == mouse_step(old(self)@, m, sidebar_width, hits@),
    {
        let scrollable = self.show_help || self.screen == Screen::Confirm || self.screen
            == Screen::ReviewConfirm || self.screen == Screen::ProcessConfirm || self.screen
            == Screen::RelocationConfirm || self.screen == Screen::Details;
        if scrollable {
            match m.kind {
                MouseKind::ScrollUp => {
                    self.dialog_scroll = self.dialog_scroll.saturating_sub(3);
                },
                MouseKind::ScrollDown => {
                    let raised = self.dialog_scroll.saturating_add(3);
                    self.dialog_scroll = if raised < self.dialog_max_scroll {
                        raised
                    } else {
                        self.dialog_max_scroll
                    };
                },
                _ => {},
            }
            return Action::Nothing;
        }
        if !menu_is_available(self.screen) {
            return Action::Nothing;
        }
        match m.kind {
            MouseKind::ScrollUp => self.route_wheel(m.column, sidebar_width, true),
            MouseKind::ScrollDown => self.route_wheel(m.column, sidebar_width, false),
            MouseKind::LeftDown => self.route_click(m.column, m.row, sidebar_width, hits),
            MouseKind::Other => Action::Nothing,
        }
    }
}

// ---------------------------------------------------------------------------
// Laws
// ---------------------------------------------------------------------------

/// No cleanup, move or signal is asked for.
pub open spec fn harmless(a: Action) -> bool {
    &&& a != Action::PrepareCurrentCleanup
    &&& a != Action::PrepareSafeCleanup
    &&& a != Action::OpenRelocationSources
    &&& a != Action::BeginCleanup
    &&& a != Action::BeginRelocation
    &&& !(a matches Action::SendSignal(_))
}

proof fn lemma_read_only_commands(s: ShellView, cmd: MenuCommand)
    requires
        s.analysis_only,
        cmd != MenuCommand::CleanSafeItems,
    ensures
        harmless(with_command(s, cmd).1),
{
}

proof fn lemma_read_only_global(s: ShellView, k: ShellKey)
    requires
        s.analysis_only,
        s.screen != Screen::Confirm,
        s.screen != Screen::ProcessConfirm,
        s.screen != Screen::RelocationConfirm,
    ensures
        harmless(global_step(s, k).1),
{
    if let Code::F(n) = k.code {
        if let Some((m, cmd)) = function_key_step(context_of(s), s.menu, n) {
            lemma_read_only_commands(ShellView { menu: m, ..s }, cmd);
        }
    }
}

/// In a read-only session no key asks for a cleanup, a move or a signal,
/// on every screen such a session can reach.
pub proof fn lemma_read_only_routing(s: ShellView, k: ShellKey)
    requires
        s.analysis_only,
        s.screen != Screen::Confirm,
        s.screen != Screen::ProcessConfirm,
        s.screen != Screen::RelocationConfirm,
    ensures
        harmless(shell_step(s, k).1),
{
    lemma_read_only_global(s, k);
    if let Some(_) = s.menu.open {
        if k.code != Code::F(1) {
            let (m, cmd) = menu_key_step(context_of(s), s.menu, as_menu_key(k.code));
            crate::menu::lemma_analysis_menus_stay_read_only(context_of(s), s.menu, as_menu_key(k.code));
            let t = ShellView {
                menu: m,
                sidebar_focus: if k.code == Code::Enter && cmd != MenuCommand::Nothing {
                    false
                } else {
                    s.sidebar_focus
                },
                ..s
            };
            lemma_read_only_commands(t, cmd);
        }
    }
}

/// In a read-only session no mouse event asks for a cleanup, a move or a
/// signal.
pub proof fn lemma_read_only_mouse(
    s: ShellView,
    m: MouseInput,
    sidebar_width: u16,
    hits: Seq<(Rect, HitTarget)>,
)
    requires
        s.analysis_only,
    ensures
        harmless(mouse_step(s, m, sidebar_width, hits).1),
{
    if let Some(menu) = s.menu.open {
        if let Some(index) = popup_row_at(s, menu, m.column, m.row) {
            let items = menu_entries(context_of(s), menu);
            if index < items.len() && items[index].2 {
                let (mm, cmd) = activated(
                    context_of(s),
                    MenuState { cursor: index as usize, ..s.menu },
                );
                lemma_read_only_commands(ShellView { menu: mm, ..s }, cmd);
            }
        }
    }
}

/// While a menu is open, no key reaches the screen or the sidebar: the
/// menu's own commands are all that can run.
pub proof fn lemma_open_menu_owns_keys(s: ShellView, k: ShellKey)
    requires
        s.menu.open is Some,
        !scrollable(s),
    ensures
        !(shell_step(s, k).1 matches Action::ScreenKey(c) && c != Code::Char('d')),
        shell_step(s, k).1 != Action::CancelScan,
        shell_step(s, k).1 != Action::BeginCleanup,
        shell_step(s, k).1 != Action::StopCleanup,
{
}

} // verus!
