//! The menu bar of the storage interface: which menus may open on which
//! screen, which of their items are enabled, how the cursor moves between
//! enabled items, and what an item or a key asks the interface to do.
use vstd::prelude::*;
use crate::layout::{menu_at, menu_index, MenuId};

verus! {

/// The screens of the storage interface.
#[derive(PartialEq, Eq, Structural, Clone, Copy, Debug)]
pub enum Screen {
    Location,
    Scanning,
    Review,
    Details,
    RelocationSources,
    RelocationDestination,
    RelocationPlanning,
    RelocationConfirm,
    Relocating,
    RelocationResult,
    Confirm,
    ReviewConfirm,
    Processes,
    ProcessConfirm,
    Cleaning,
    Summary,
}

/// What the menus read of the interface.
#[derive(PartialEq, Eq, Structural, Clone, Copy, Debug)]
pub struct MenuContext {
    pub screen: Screen,
    /// Started with `--analyze`.
    pub analysis_only: bool,
    /// Some space is ready for the safe cleanup.
    pub has_ready_space: bool,
    /// There is an entry under the cursor, or something to explore.
    pub has_current_item: bool,
    /// The process under the cursor may be signalled.
    pub process_signalable: bool,
}

/// One item of a menu.
#[derive(PartialEq, Eq, Clone, Copy, Debug)]
pub struct MenuItem {
    pub label: &'static str,
    pub shortcut: &'static str,
    pub enabled: bool,
}

impl View for MenuItem {
    type V = (Seq<char>, Seq<char>, bool);

    open spec fn view(&self) -> (Seq<char>, Seq<char>, bool) {
        (self.label@, self.shortcut@, self.enabled)
    }
}

/// Which menu is open, and the item under its cursor.
#[derive(PartialEq, Eq, Structural, Clone, Copy, Debug)]
pub struct MenuState {
    pub open: Option<MenuId>,
    pub cursor: usize,
}

/// What the interface must do after a menu key or item.
#[derive(PartialEq, Eq, Structural, Clone, Copy, Debug)]
pub enum MenuCommand {
    Nothing,
    ChooseLocation,
    RefreshProcesses,
    RestartScan,
    Quit,
    NavigateTo(usize),
    CleanSafeItems,
    RevealCurrent,
    SignalProcess,
    ShowHelp,
}

/// A key while a menu is open.
#[derive(PartialEq, Eq, Structural, Clone, Copy, Debug)]
pub enum MenuKey {
    Esc,
    Left,
    Right,
    Up,
    Down,
    PageUp,
    PageDown,
    Home,
    End,
    Enter,
    F(u8),
    Char(char),
    Other,
}

// ---------------------------------------------------------------------------
// Menus and their items
// ---------------------------------------------------------------------------

/// Menus may open everywhere but while scanning, confirming, cleaning,
/// moving, and on the summary.
pub open spec fn menus_allowed(screen: Screen) -> bool {
    !(screen == Screen::Scanning || screen == Screen::Confirm || screen == Screen::Details
        || screen == Screen::Cleaning || screen == Screen::RelocationDestination || screen
        == Screen::RelocationPlanning || screen == Screen::RelocationConfirm || screen
        == Screen::Relocating || screen == Screen::ReviewConfirm || screen
        == Screen::ProcessConfirm || screen == Screen::Summary)
}

/// Whether a menu may open on `screen`.
pub fn menu_is_available(screen: Screen) -> (res: bool)
    ensures
        res == menus_allowed(screen),
{
    !(screen == Screen::Scanning || screen == Screen::Confirm || screen == Screen::Details
        || screen == Screen::Cleaning || screen == Screen::RelocationDestination || screen
        == Screen::RelocationPlanning || screen == Screen::RelocationConfirm || screen
        == Screen::Relocating || screen == Screen::ReviewConfirm || screen
        == Screen::ProcessConfirm || screen == Screen::Summary)
}

/// The screen lists entries: the review or the details of one.
pub open spec fn on_list(screen: Screen) -> bool {
    screen == Screen::Review || screen == Screen::Details
}

/// The items of a menu, with what enables them.
pub open spec fn menu_entries(ctx: MenuContext, menu: MenuId) -> Seq<(Seq<char>, Seq<char>, bool)> {
    match menu {
        MenuId::File => seq![
            ("Choose scan location"@, "↵"@, true),
            (
                "Rescan current view"@,
                "↵"@,
                on_list(ctx.screen) || ctx.screen == Screen::Processes,
            ),
            ("Quit"@, "↵"@, true),
        ],
        MenuId::View => seq![
            ("Storage audit"@, "↵"@, true),
            ("Process Health"@, "↵"@, true),
            ("Move data"@, "↵"@, true),
        ],
        MenuId::Actions => seq![
            (
                "Clean safe items"@,
                "C"@,
                !ctx.analysis_only && on_list(ctx.screen) && ctx.has_ready_space,
            ),
            ("Relocate large data"@, "F6"@, !ctx.analysis_only && on_list(ctx.screen)),
            ("Reveal selected in Finder"@, "O"@, on_list(ctx.screen) && ctx.has_current_item),
            (
                "Signal selected process"@,
                "D"@,
                !ctx.analysis_only && ctx.screen == Screen::Processes && ctx.process_signalable,
            ),
        ],
        MenuId::Help => seq![
            ("Keyboard guide"@, "F1/?"@, true),
            ("Safety & read-only model"@, "F1/?"@, true),
        ],
    }
}

/// The items of a menu.
pub fn menu_items(ctx: MenuContext, menu: MenuId) -> (res: Vec<MenuItem>)
    ensures
        res@.map_values(|i: MenuItem| i@) == menu_entries(ctx, menu),
{
    let on_list = ctx.screen == Screen::Review || ctx.screen == Screen::Details;
    let res = match menu {
        MenuId::File => vec![
            MenuItem { label: "Choose scan location", shortcut: "↵", enabled: true },
            MenuItem {
                label: "Rescan current view",
                shortcut: "↵",
                enabled: on_list || ctx.screen == Screen::Processes,
            },
            MenuItem { label: "Quit", shortcut: "↵", enabled: true },
        ],
        MenuId::View => vec![
            MenuItem { label: "Storage audit", shortcut: "↵", enabled: true },
            MenuItem { label: "Process Health", shortcut: "↵", enabled: true },
            MenuItem { label: "Move data", shortcut: "↵", enabled: true },
        ],
        MenuId::Actions => vec![
            MenuItem {
                label: "Clean safe items",
                shortcut: "C",
                enabled: !ctx.analysis_only && on_list && ctx.has_ready_space,
            },
            MenuItem {
                label: "Relocate large data",
                shortcut: "F6",
                enabled: !ctx.analysis_only && on_list,
            },
            MenuItem {
                label: "Reveal selected in Finder",
                shortcut: "O",
                enabled: on_list && ctx.has_current_item,
            },
            MenuItem {
                label: "Signal selected process",
                shortcut: "D",
                enabled: !ctx.analysis_only && ctx.screen == Screen::Processes
                    && ctx.process_signalable,
            },
        ],
        MenuId::Help => vec![
            MenuItem { label: "Keyboard guide", shortcut: "F1/?", enabled: true },
            MenuItem { label: "Safety & read-only model", shortcut: "F1/?", enabled: true },
        ],
    };
    assert(res@.map_values(|i: MenuItem| i@) =~= menu_entries(ctx, menu));
    res
}

// ---------------------------------------------------------------------------
// The cursor
// ---------------------------------------------------------------------------

/// The first enabled item at or after `i`, or none.
pub open spec fn first_enabled_from(items: Seq<(Seq<char>, Seq<char>, bool)>, i: int) -> Option<int>
    decreases items.len() - i,
{
    if i < 0 || i >= items.len() {
        None
    } else if items[i].2 {
        Some(i)
    } else {
        first_enabled_from(items, i + 1)
    }
}

/// The last enabled item before `i`, or none.
pub open spec fn last_enabled_before(items: Seq<(Seq<char>, Seq<char>, bool)>, i: int) -> Option<int>
    decreases i,
{
    if i <= 0 || i > items.len() {
        None
    } else if items[i - 1].2 {
        Some(i - 1)
    } else {
        last_enabled_before(items, i - 1)
    }
}

/// The first enabled item, or the first item.
pub open spec fn first_enabled(items: Seq<(Seq<char>, Seq<char>, bool)>) -> int {
    match first_enabled_from(items, 0) {
        Some(i) => i,
        None => 0,
    }
}

/// The last enabled item, or the first item.
pub open spec fn last_enabled(items: Seq<(Seq<char>, Seq<char>, bool)>) -> int {
    match last_enabled_before(items, items.len() as int) {
        Some(i) => i,
        None => 0,
    }
}

/// Stepping by `delta` around the items from `c`, up to `tries` times, the
/// first enabled item reached.
pub open spec fn step_to_enabled(
    items: Seq<(Seq<char>, Seq<char>, bool)>,
    c: int,
    delta: int,
    tries: nat,
) -> Option<int>
    decreases tries,
{
    if tries == 0 || items.len() == 0 {
        None
    } else {
        let next = (c + delta) % (items.len() as int);
        if items[next].2 {
            Some(next)
        } else {
            step_to_enabled(items, next, delta, (tries - 1) as nat)
        }
    }
}

/// The cursor after moving by `delta`: to the first enabled item reached
/// going round the menu from the current one, or where it was.
pub open spec fn moved_cursor(items: Seq<(Seq<char>, Seq<char>, bool)>, cursor: int, delta: int) -> int {
    if items.len() == 0 {
        cursor
    } else {
        let start = if cursor < items.len() - 1 {
            cursor
        } else {
            items.len() - 1
        };
        match step_to_enabled(items, start, delta, items.len()) {
            Some(n) => n,
            None => cursor,
        }
    }
}

/// The first enabled item, searched from the start.
fn find_first_enabled(items: &Vec<MenuItem>) -> (res: usize)
    ensures
        res == first_enabled(items@.map_values(|i: MenuItem| i@)),
{
    let ghost v = items@.map_values(|i: MenuItem| i@);
    let mut i: usize = 0;
    while i < items.len()
        invariant
            i <= items@.len(),
            v == items@.map_values(|i: MenuItem| i@),
            first_enabled_from(v, 0) == first_enabled_from(v, i as int),
        decreases items@.len() - i,
    {
        if items[i].enabled {
            return i;
        }
        i = i + 1;
    }
    0
}

/// The last enabled item, searched from the end.
fn find_last_enabled(items: &Vec<MenuItem>) -> (res: usize)
    ensures
        res == last_enabled(items@.map_values(|i: MenuItem| i@)),
{
    let ghost v = items@.map_values(|i: MenuItem| i@);
    let mut i: usize = items.len();
    while i > 0
        invariant
            i <= items@.len(),
            v == items@.map_values(|i: MenuItem| i@),
            last_enabled_before(v, v.len() as int) == last_enabled_before(v, i as int),
        decreases i,
    {
        if items[i - 1].enabled {
            return i - 1;
        }
        i = i - 1;
    }
    0
}

/// `(c + delta) mod len` for `c` below `len`, computed without signs.
fn wrap(c: usize, delta: isize, len: usize) -> (res: usize)
    requires
        0 < len <= 64,
        c < len,
    ensures
        res as int == (c + delta) % (len as int),
        res < len,
{
    if delta >= 0 {
        let d = (delta as usize) % len;
        proof {
            vstd::arithmetic::div_mod::lemma_add_mod_noop_right(c as int, delta as int, len as int);
        }
        (c + d) % len
    } else {
        let a = (0 - (delta + 1)) as usize;
        let t = (a % len + 1) % len;
        proof {
            let m = len as int;
            vstd::arithmetic::div_mod::lemma_add_mod_noop_right(1, a as int, m);
            assert(t as int == (a + 1) % m);
            vstd::arithmetic::div_mod::lemma_sub_mod_noop_right(c as int, a + 1, m);
            vstd::arithmetic::div_mod::lemma_mod_add_multiples_vanish(c - t, m);
            assert(c + delta == c - (a + 1));
        }
        (c + len - t) % len
    }
}

/// The state with the menu closed.
pub open spec fn closed(s: MenuState) -> MenuState {
    MenuState { open: None, ..s }
}

/// The state after asking to open `menu`: opened on its first enabled item
/// when menus are allowed, else unchanged.
pub open spec fn opened(ctx: MenuContext, s: MenuState, menu: MenuId) -> MenuState {
    if !menus_allowed(ctx.screen) {
        s
    } else {
        MenuState { open: Some(menu), cursor: first_enabled(menu_entries(ctx, menu)) as usize }
    }
}

/// Opens a menu on its first enabled item, where menus are allowed.
pub fn open_menu(ctx: MenuContext, state: &mut MenuState, menu: MenuId)
    ensures
        *final(state) == opened(ctx, *old(state), menu),
{
    if !menu_is_available(ctx.screen) {
        return;
    }
    let items = menu_items(ctx, menu);
    state.open = Some(menu);
    state.cursor = find_first_enabled(&items);
}

/// The state after moving the cursor by `delta`.
pub open spec fn cursor_moved(ctx: MenuContext, s: MenuState, delta: int) -> MenuState {
    match s.open {
        None => s,
        Some(menu) => MenuState {
            cursor: moved_cursor(menu_entries(ctx, menu), s.cursor as int, delta) as usize,
            ..s
        },
    }
}

/// Moves the cursor of the open menu by `delta`, skipping disabled items
/// and going round.
pub fn move_menu_cursor(ctx: MenuContext, state: &mut MenuState, delta: isize)
    ensures
        *final(state) == cursor_moved(ctx, *old(state), delta as int),
{
    let menu = match state.open {
        Some(m) => m,
        None => {
            return;
        },
    };
    let items = menu_items(ctx, menu);
    let ghost v = items@.map_values(|i: MenuItem| i@);
    let len = items.len();
    if len == 0 {
        return;
    }
    let start = if state.cursor < len - 1 {
        state.cursor
    } else {
        len - 1
    };
    let mut cursor = start;
    let mut tries: usize = 0;
    while tries < len
        invariant
            0 < len <= 4,
            len == v.len(),
            v == items@.map_values(|i: MenuItem| i@),
            v == menu_entries(ctx, menu),
            cursor < len,
            tries <= len,
            *state == *old(state),
            old(state).open == Some(menu),
            start as int == (if old(state).cursor < len - 1 {
                old(state).cursor as int
            } else {
                len - 1
            }),
            step_to_enabled(v, start as int, delta as int, len as nat) == step_to_enabled(
                v,
                cursor as int,
                delta as int,
                (len - tries) as nat,
            ),
        decreases len - tries,
    {
        let prev = cursor;
        cursor = wrap(cursor, delta, len);
        assert(v[cursor as int] == items@[cursor as int]@);
        assert(step_to_enabled(v, prev as int, delta as int, (len - tries) as nat) == if v[cursor as int].2 {
            Some(cursor as int)
        } else {
            step_to_enabled(v, cursor as int, delta as int, (len - tries - 1) as nat)
        });
        if items[cursor].enabled {
            state.cursor = cursor;
            return;
        }
        tries = tries + 1;
    }
}

/// The state after switching to the menu `delta` places along the bar.
pub open spec fn menu_switched(ctx: MenuContext, s: MenuState, delta: int) -> MenuState {
    match s.open {
        None => s,
        Some(menu) => opened(ctx, s, menu_at((menu_index(menu) + delta) % 4)),
    }
}

/// Opens the menu `delta` places along the bar from the open one.
pub fn switch_menu(ctx: MenuContext, state: &mut MenuState, delta: isize)
    ensures
        *final(state) == menu_switched(ctx, *old(state), delta as int),
{
    let menu = match state.open {
        Some(m) => m,
        None => {
            return;
        },
    };
    let index = wrap(menu.index(), delta, 4);
    assert(menu_at(index as int) == menu_at((menu_index(menu) + delta) % 4));
    open_menu(ctx, state, MenuId::from_index(index));
}

/// What choosing the item at `cursor` of `menu` asks for.
pub open spec fn item_command(ctx: MenuContext, menu: MenuId, cursor: usize) -> MenuCommand {
    match (menu, cursor) {
        (MenuId::File, 0) => MenuCommand::ChooseLocation,
        (MenuId::File, 1) => if ctx.screen == Screen::Processes {
            MenuCommand::RefreshProcesses
        } else if on_list(ctx.screen) {
            MenuCommand::RestartScan
        } else {
            MenuCommand::Nothing
        },
        (MenuId::File, 2) => MenuCommand::Quit,
        (MenuId::View, 0) => MenuCommand::NavigateTo(0),
        (MenuId::View, 1) => MenuCommand::NavigateTo(1),
        (MenuId::View, 2) => MenuCommand::NavigateTo(2),
        (MenuId::Actions, 0) => MenuCommand::CleanSafeItems,
        (MenuId::Actions, 1) => MenuCommand::NavigateTo(2),
        (MenuId::Actions, 2) => MenuCommand::RevealCurrent,
        (MenuId::Actions, 3) => MenuCommand::SignalProcess,
        (MenuId::Help, 0) | (MenuId::Help, 1) => MenuCommand::ShowHelp,
        _ => MenuCommand::Nothing,
    }
}

/// Choosing the item under the cursor: a disabled item does nothing; an
/// enabled one closes the menu and asks for its command; a cursor past the
/// items just closes the menu.
pub open spec fn activated(ctx: MenuContext, s: MenuState) -> (MenuState, MenuCommand) {
    match s.open {
        None => (s, MenuCommand::Nothing),
        Some(menu) => {
            let items = menu_entries(ctx, menu);
            if s.cursor >= items.len() {
                (closed(s), MenuCommand::Nothing)
            } else if !items[s.cursor as int].2 {
                (s, MenuCommand::Nothing)
            } else {
                (closed(s), item_command(ctx, menu, s.cursor))
            }
        },
    }
}

/// Chooses the item under the cursor of the open menu.
pub fn activate_menu_item(ctx: MenuContext, state: &mut MenuState) -> (res: MenuCommand)
    ensures
        (*final(state), res) == activated(ctx, *old(state)),
{
    let menu = match state.open {
        Some(m) => m,
        None => {
            return MenuCommand::Nothing;
        },
    };
    let items = menu_items(ctx, menu);
    let ghost v = items@.map_values(|i: MenuItem| i@);
    if state.cursor >= items.len() {
        state.open = None;
        return MenuCommand::Nothing;
    }
    assert(v[state.cursor as int] == items@[state.cursor as int]@);
    if !items[state.cursor].enabled {
        return MenuCommand::Nothing;
    }
    state.open = None;
    let on_list = ctx.screen == Screen::Review || ctx.screen == Screen::Details;
    match (menu, state.cursor) {
        (MenuId::File, 0) => MenuCommand::ChooseLocation,
        (MenuId::File, 1) => {
            if ctx.screen == Screen::Processes {
                MenuCommand::RefreshProcesses
            } else if on_list {
                MenuCommand::RestartScan
            } else {
                MenuCommand::Nothing
            }
        },
        (MenuId::File, 2) => MenuCommand::Quit,
        (MenuId::View, 0) => MenuCommand::NavigateTo(0),
        (MenuId::View, 1) => MenuCommand::NavigateTo(1),
        (MenuId::View, 2) => MenuCommand::NavigateTo(2),
        (MenuId::Actions, 0) => MenuCommand::CleanSafeItems,
        (MenuId::Actions, 1) => MenuCommand::NavigateTo(2),
        (MenuId::Actions, 2) => MenuCommand::RevealCurrent,
        (MenuId::Actions, 3) => MenuCommand::SignalProcess,
        (MenuId::Help, 0) | (MenuId::Help, 1) => MenuCommand::ShowHelp,
        _ => MenuCommand::Nothing,
    }
}

/// The menu whose key is `c`, ignoring ASCII case.
pub open spec fn menu_for_key(c: char) -> Option<MenuId> {
    let u = crate::text::ascii_upper(c);
    if u == 'F' {
        Some(MenuId::File)
    } else if u == 'N' {
        Some(MenuId::View)
    } else if u == 'A' {
        Some(MenuId::Actions)
    } else if u == 'H' {
        Some(MenuId::Help)
    } else {
        None
    }
}

/// The menu opened by the key `c` with Alt, or from an open menu.
pub fn menu_for_hotkey(c: char) -> (res: Option<MenuId>)
    ensures
        res == menu_for_key(c),
{
    let u = crate::text::upper_ascii_char(c);
    if u == 'F' {
        Some(MenuId::File)
    } else if u == 'N' {
        Some(MenuId::View)
    } else if u == 'A' {
        Some(MenuId::Actions)
    } else if u == 'H' {
        Some(MenuId::Help)
    } else {
        None
    }
}

/// What a key does while a menu is open.
pub open spec fn menu_key_step(ctx: MenuContext, s: MenuState, key: MenuKey) -> (MenuState, MenuCommand) {
    match key {
        MenuKey::Esc | MenuKey::F(9) => (closed(s), MenuCommand::Nothing),
        MenuKey::Left => (menu_switched(ctx, s, -1), MenuCommand::Nothing),
        MenuKey::Right => (menu_switched(ctx, s, 1), MenuCommand::Nothing),
        MenuKey::Up => (cursor_moved(ctx, s, -1), MenuCommand::Nothing),
        MenuKey::Down => (cursor_moved(ctx, s, 1), MenuCommand::Nothing),
        MenuKey::PageUp => (cursor_moved(ctx, s, -10), MenuCommand::Nothing),
        MenuKey::PageDown => (cursor_moved(ctx, s, 10), MenuCommand::Nothing),
        MenuKey::Home => match s.open {
            Some(menu) => (
                MenuState { cursor: first_enabled(menu_entries(ctx, menu)) as usize, ..s },
                MenuCommand::Nothing,
            ),
            None => (s, MenuCommand::Nothing),
        },
        MenuKey::End => match s.open {
            Some(menu) => (
                MenuState { cursor: last_enabled(menu_entries(ctx, menu)) as usize, ..s },
                MenuCommand::Nothing,
            ),
            None => (s, MenuCommand::Nothing),
        },
        MenuKey::Enter => activated(ctx, s),
        MenuKey::F(1) => (closed(s), MenuCommand::ShowHelp),
        MenuKey::F(10) => (closed(s), MenuCommand::Quit),
        MenuKey::Char(c) => match menu_for_key(c) {
            Some(menu) => (opened(ctx, s, menu), MenuCommand::Nothing),
            None => if c == 'q' {
                (closed(s), MenuCommand::Nothing)
            } else {
                (s, MenuCommand::Nothing)
            },
        },
        _ => (s, MenuCommand::Nothing),
    }
}

/// Handles a key while a menu is open.
pub fn handle_menu_key(ctx: MenuContext, state: &mut MenuState, key: MenuKey) -> (res: MenuCommand)
    ensures
        (*final(state), res) == menu_key_step(ctx, *old(state), key),
{
    match key {
        MenuKey::Esc | MenuKey::F(9) => {
            state.open = None;
            MenuCommand::Nothing
        },
        MenuKey::Left => {
            switch_menu(ctx, state, -1);
            MenuCommand::Nothing
        },
        MenuKey::Right => {
            switch_menu(ctx, state, 1);
            MenuCommand::Nothing
        },
        MenuKey::Up => {
            move_menu_cursor(ctx, state, -1);
            MenuCommand::Nothing
        },
        MenuKey::Down => {
            move_menu_cursor(ctx, state, 1);
            MenuCommand::Nothing
        },
        MenuKey::PageUp => {
            move_menu_cursor(ctx, state, -10);
            MenuCommand::Nothing
        },
        MenuKey::PageDown => {
            move_menu_cursor(ctx, state, 10);
            MenuCommand::Nothing
        },
        MenuKey::Home => {
            if let Some(menu) = state.open {
                let items = menu_items(ctx, menu);
                state.cursor = find_first_enabled(&items);
            }
            MenuCommand::Nothing
        },
        MenuKey::End => {
            if let Some(menu) = state.open {
                let items = menu_items(ctx, menu);
                state.cursor = find_last_enabled(&items);
            }
            MenuCommand::Nothing
        },
        MenuKey::Enter => activate_menu_item(ctx, state),
        MenuKey::F(1) => {
            state.open = None;
            MenuCommand::ShowHelp
        },
        MenuKey::F(10) => {
            state.open = None;
            MenuCommand::Quit
        },
        MenuKey::Char(c) => {
            match menu_for_hotkey(c) {
                Some(menu) => open_menu(ctx, state, menu),
                None => {
                    if c == 'q' {
                        state.open = None;
                    }
                },
            }
            MenuCommand::Nothing
        },
        _ => MenuCommand::Nothing,
    }
}

/// A function key outside the menus: F1 shows the help anywhere; where
/// menus are allowed, F5 rescans the list or the processes, F6 opens the
/// move screen unless in analysis mode, F9 opens the File menu and F10
/// quits. `None` when the key is not handled here.
pub open spec fn function_key_step(ctx: MenuContext, s: MenuState, n: u8) -> Option<(MenuState, MenuCommand)> {
    if n == 1 {
        Some((s, MenuCommand::ShowHelp))
    } else if !menus_allowed(ctx.screen) {
        None
    } else if n == 5 {
        if ctx.screen == Screen::Processes {
            Some((s, MenuCommand::RefreshProcesses))
        } else if on_list(ctx.screen) {
            Some((s, MenuCommand::RestartScan))
        } else {
            None
        }
    } else if n == 6 && !ctx.analysis_only {
        Some((s, MenuCommand::NavigateTo(2)))
    } else if n == 9 {
        Some((opened(ctx, s, MenuId::File), MenuCommand::Nothing))
    } else if n == 10 {
        Some((s, MenuCommand::Quit))
    } else {
        None
    }
}

/// Handles the function key F`n`; `None` when it is not handled here.
pub fn handle_function_key(ctx: MenuContext, state: &mut MenuState, n: u8) -> (res: Option<MenuCommand>)
    ensures
        match function_key_step(ctx, *old(state), n) {
            Some((t, c)) => *final(state) == t && res == Some(c),
            None => *final(state) == *old(state) && res is None,
        },
{
    if n == 1 {
        return Some(MenuCommand::ShowHelp);
    }
    if !menu_is_available(ctx.screen) {
        return None;
    }
    if n == 5 {
        if ctx.screen == Screen::Processes {
            Some(MenuCommand::RefreshProcesses)
        } else if ctx.screen == Screen::Review || ctx.screen == Screen::Details {
            Some(MenuCommand::RestartScan)
        } else {
            None
        }
    } else if n == 6 && !ctx.analysis_only {
        Some(MenuCommand::NavigateTo(2))
    } else if n == 9 {
        open_menu(ctx, state, MenuId::File);
        Some(MenuCommand::Nothing)
    } else if n == 10 {
        Some(MenuCommand::Quit)
    } else {
        None
    }
}

// ---------------------------------------------------------------------------
// Laws
// ---------------------------------------------------------------------------

proof fn lemma_step_lands_on_enabled(
    items: Seq<(Seq<char>, Seq<char>, bool)>,
    c: int,
    delta: int,
    tries: nat,
)
    ensures
        step_to_enabled(items, c, delta, tries) matches Some(n) ==> 0 <= n < items.len()
            && items[n].2,
    decreases tries,
{
    if tries > 0 && items.len() > 0 {
        let next = (c + delta) % (items.len() as int);
        lemma_step_lands_on_enabled(items, next, delta, (tries - 1) as nat);
    }
}

proof fn lemma_first_enabled_from(items: Seq<(Seq<char>, Seq<char>, bool)>, i: int)
    ensures
        first_enabled_from(items, i) matches Some(n) ==> 0 <= n < items.len() && items[n].2,
        first_enabled_from(items, i) is None && 0 <= i ==> forall|k: int|
            i <= k < items.len() ==> !#[trigger] items[k].2,
    decreases items.len() - i,
{
    if 0 <= i < items.len() && !items[i].2 {
        lemma_first_enabled_from(items, i + 1);
    }
}

/// Moving the cursor never leaves it on a disabled item when the menu has
/// an enabled one: it either reaches an enabled item or stays put.
pub proof fn lemma_cursor_moves_to_enabled(ctx: MenuContext, s: MenuState, delta: int)
    ensures
        ({
            let t = cursor_moved(ctx, s, delta);
            t.open == s.open && (t.cursor == s.cursor || (s.open matches Some(menu) && t.cursor
                < menu_entries(ctx, menu).len() && menu_entries(ctx, menu)[t.cursor as int].2))
        }),
{
    if let Some(menu) = s.open {
        let items = menu_entries(ctx, menu);
        let start = if s.cursor < items.len() - 1 {
            s.cursor as int
        } else {
            items.len() - 1
        };
        lemma_step_lands_on_enabled(items, start, delta, items.len());
    }
}

/// An opened menu starts on an enabled item whenever it has one.
pub proof fn lemma_opened_on_enabled(ctx: MenuContext, s: MenuState, menu: MenuId)
    requires
        menus_allowed(ctx.screen),
        exists|k: int| 0 <= k < menu_entries(ctx, menu).len() && #[trigger] menu_entries(
            ctx,
            menu,
        )[k].2,
    ensures
        opened(ctx, s, menu).open == Some(menu),
        menu_entries(ctx, menu)[opened(ctx, s, menu).cursor as int].2,
{
    lemma_first_enabled_from(menu_entries(ctx, menu), 0);
}

/// In analysis mode, no menu item cleans, moves data or signals a process.
pub proof fn lemma_analysis_menus_stay_read_only(ctx: MenuContext, s: MenuState, key: MenuKey)
    requires
        ctx.analysis_only,
    ensures
        menu_key_step(ctx, s, key).1 != MenuCommand::CleanSafeItems,
        menu_key_step(ctx, s, key).1 != MenuCommand::SignalProcess,
{
}

} // verus!
