use diskray::explorer::StorageTab;
use diskray::layout::{MenuId, Rect};
use diskray::menu::{MenuState, Screen};
use diskray::shell::{
    scrolled_cursor, Action, Code, HitTarget, MouseInput, MouseKind, ShellKey, ShellState, Signal,
};

fn state(screen: Screen, analysis_only: bool) -> ShellState {
    ShellState {
        screen,
        analysis_only,
        terminal_width: 100,
        terminal_height: 30,
        show_help: false,
        dialog_scroll: 0,
        dialog_max_scroll: 10,
        menu: MenuState { open: None, cursor: 0 },
        sidebar_focus: false,
        sidebar_cursor: 0,
        has_inventory: true,
        has_entries: false,
        has_ready_space: true,
        has_current_item: true,
        process_signalable: false,
        status_message: None,
        quit: false,
    }
}

fn key(code: Code) -> ShellKey {
    ShellKey { code, press: true, control: false, alt: false }
}

#[test]
fn a_tiny_terminal_only_lets_quitting_through() {
    let mut s = state(Screen::Review, false);
    s.terminal_width = 40;
    assert_eq!(s.handle_key(key(Code::Char('c'))), Action::Nothing);
    assert_eq!(s.handle_key(key(Code::Char('q'))), Action::ScreenKey(Code::Char('q')));
    let interrupt = ShellKey { code: Code::Char('c'), press: true, control: true, alt: false };
    assert_eq!(s.handle_key(interrupt), Action::Nothing);
    assert!(s.quit);
}

#[test]
fn dialogs_scroll_within_their_length() {
    let mut s = state(Screen::Details, false);
    s.handle_key(key(Code::Down));
    s.handle_key(key(Code::PageDown));
    assert_eq!(s.dialog_scroll, 6);
    s.handle_key(key(Code::Down));
    s.handle_key(key(Code::Down));
    assert_eq!(s.dialog_scroll, 10);
    s.handle_key(key(Code::Up));
    assert_eq!(s.dialog_scroll, 7);
    s.handle_key(key(Code::Home));
    assert_eq!(s.dialog_scroll, 0);
}

#[test]
fn interrupt_stops_cleanup_and_waits_for_a_move() {
    let interrupt = ShellKey { code: Code::Char('c'), press: true, control: true, alt: false };
    let mut s = state(Screen::Cleaning, false);
    assert_eq!(s.handle_key(interrupt), Action::StopCleanup);
    assert!(!s.quit);
    let mut s = state(Screen::Relocating, false);
    assert_eq!(s.handle_key(interrupt), Action::Nothing);
    assert!(!s.quit);
    assert!(s.status_message.as_deref().unwrap().starts_with("Relocation is in progress"));
}

#[test]
fn alt_letters_open_menus_and_the_menu_takes_keys() {
    let mut s = state(Screen::Review, false);
    let alt_a = ShellKey { code: Code::Char('a'), press: true, control: false, alt: true };
    s.handle_key(alt_a);
    assert_eq!(s.menu.open, Some(MenuId::Actions));
    assert_eq!(s.handle_key(key(Code::Enter)), Action::PrepareSafeCleanup);
    assert_eq!(s.menu.open, None);
    s.handle_key(alt_a);
    s.handle_key(key(Code::F(1)));
    assert!(s.show_help);
    assert_eq!(s.menu.open, None);
    s.handle_key(key(Code::Esc));
    assert!(!s.show_help);
}

#[test]
fn sections_and_the_sidebar() {
    let mut s = state(Screen::Review, true);
    assert_eq!(s.handle_key(key(Code::Char('3'))), Action::Nothing);
    assert_eq!(
        s.status_message.as_deref(),
        Some("Move data is unavailable in this read-only session.")
    );
    assert_eq!(s.handle_key(key(Code::Char('2'))), Action::RefreshProcesses);
    assert_eq!(s.screen, Screen::Processes);
    assert_eq!(s.status_message, None);
    s.handle_key(key(Code::Tab));
    assert!(s.sidebar_focus);
    assert_eq!(s.sidebar_cursor, 1);
    s.handle_key(key(Code::Down));
    s.handle_key(key(Code::Down));
    assert_eq!(s.sidebar_cursor, 1, "a read-only session has two sections");
    s.handle_key(key(Code::Up));
    assert_eq!(s.handle_key(key(Code::Enter)), Action::Nothing);
    assert_eq!(s.screen, Screen::Review);
    assert!(!s.sidebar_focus);
}

#[test]
fn screens_get_their_keys() {
    let mut s = state(Screen::Scanning, false);
    assert_eq!(s.handle_key(key(Code::Esc)), Action::CancelScan);
    let mut s = state(Screen::Details, false);
    assert_eq!(s.handle_key(key(Code::Char('m'))), Action::OpenRelocationSources);
    assert_eq!(s.handle_key(key(Code::Enter)), Action::Nothing);
    assert_eq!(s.screen, Screen::Review);
    let mut s = state(Screen::Details, true);
    assert_eq!(s.handle_key(key(Code::Char('d'))), Action::Nothing);
    let mut s = state(Screen::ProcessConfirm, false);
    assert_eq!(s.handle_key(key(Code::Char('K'))), Action::SendSignal(Signal::Kill));
    assert_eq!(s.handle_key(key(Code::Esc)), Action::ClearProcessTarget);
    assert_eq!(s.screen, Screen::Processes);
    let mut s = state(Screen::Summary, false);
    s.handle_key(key(Code::Enter));
    assert!(s.quit);
    let mut s = state(Screen::Review, false);
    assert_eq!(s.handle_key(key(Code::F(5))), Action::RestartScan);
    assert_eq!(s.handle_key(key(Code::Char('j'))), Action::ScreenKey(Code::Char('j')));
    let released = ShellKey { code: Code::Char('q'), press: false, control: false, alt: false };
    assert_eq!(s.handle_key(released), Action::Nothing);
    assert!(!s.quit);
}

fn mouse(kind: MouseKind, column: u16, row: u16) -> MouseInput {
    MouseInput { kind, column, row }
}

#[test]
fn the_wheel_scrolls_the_view_or_the_sidebar() {
    let mut s = state(Screen::Review, false);
    let hits: Vec<(Rect, HitTarget)> = Vec::new();
    assert_eq!(s.handle_mouse(mouse(MouseKind::ScrollDown, 50, 10), 24, &hits), Action::ScrollView(3));
    assert!(!s.sidebar_focus);
    assert_eq!(s.handle_mouse(mouse(MouseKind::ScrollUp, 50, 10), 24, &hits), Action::ScrollView(-3));
    assert_eq!(s.handle_mouse(mouse(MouseKind::ScrollDown, 5, 10), 24, &hits), Action::Nothing);
    assert!(s.sidebar_focus);
    assert_eq!(s.sidebar_cursor, 1);
    s.handle_mouse(mouse(MouseKind::ScrollDown, 5, 10), 24, &hits);
    s.handle_mouse(mouse(MouseKind::ScrollDown, 5, 10), 24, &hits);
    assert_eq!(s.sidebar_cursor, 2);
}

#[test]
fn a_dialog_takes_the_wheel_and_ignores_clicks() {
    let mut s = state(Screen::Details, false);
    let hits = vec![(Rect::new(0, 0, 100, 30), HitTarget::Finding(1))];
    s.handle_mouse(mouse(MouseKind::ScrollDown, 50, 10), 24, &hits);
    assert_eq!(s.dialog_scroll, 3);
    assert_eq!(s.handle_mouse(mouse(MouseKind::LeftDown, 50, 10), 24, &hits), Action::Nothing);
    s.handle_mouse(mouse(MouseKind::ScrollUp, 50, 10), 24, &hits);
    assert_eq!(s.dialog_scroll, 0);
}

#[test]
fn clicks_go_to_the_top_bar_the_sidebar_or_the_screen() {
    let mut s = state(Screen::Review, false);
    let hits = vec![
        (Rect::new(30, 10, 20, 2), HitTarget::Finding(4)),
        (Rect::new(30, 10, 40, 5), HitTarget::StorageTab(StorageTab::Coverage)),
    ];
    assert_eq!(s.handle_mouse(mouse(MouseKind::LeftDown, 35, 11), 24, &hits), Action::Hit(HitTarget::Finding(4)));
    assert_eq!(
        s.handle_mouse(mouse(MouseKind::LeftDown, 60, 13), 24, &hits),
        Action::Hit(HitTarget::StorageTab(StorageTab::Coverage))
    );
    assert_eq!(s.handle_mouse(mouse(MouseKind::LeftDown, 5, 13), 24, &hits), Action::Nothing);
    assert!(s.sidebar_focus);
    assert_eq!(s.handle_mouse(mouse(MouseKind::LeftDown, 40, 0), 24, &hits), Action::RefreshProcesses);
    assert_eq!(s.screen, Screen::Processes);
    assert!(!s.sidebar_focus);
    assert_eq!(s.handle_mouse(mouse(MouseKind::LeftDown, 35, 11), 24, &hits), Action::Nothing);
}

#[test]
fn clicks_on_an_open_menu_run_its_enabled_items() {
    let mut s = state(Screen::Review, false);
    let hits: Vec<(Rect, HitTarget)> = Vec::new();
    s.menu = MenuState { open: Some(MenuId::File), cursor: 0 };
    assert_eq!(s.handle_mouse(mouse(MouseKind::LeftDown, 10, 5), 24, &hits), Action::RestartScan);
    assert_eq!(s.menu.open, None);
    s.menu = MenuState { open: Some(MenuId::File), cursor: 0 };
    s.handle_mouse(mouse(MouseKind::LeftDown, 10, 4), 24, &hits);
    assert_eq!(s.screen, Screen::Location);
    let mut r = state(Screen::Review, true);
    r.menu = MenuState { open: Some(MenuId::Actions), cursor: 2 };
    assert_eq!(r.handle_mouse(mouse(MouseKind::LeftDown, 10, 4), 24, &hits), Action::Nothing);
    assert_eq!(r.menu.open, Some(MenuId::Actions));
    assert_eq!(r.handle_mouse(mouse(MouseKind::LeftDown, 80, 20), 24, &hits), Action::Nothing);
    assert_eq!(r.menu.open, None);
}

#[test]
fn scrolling_keeps_the_cursor_on_the_list() {
    assert_eq!(scrolled_cursor(5, 10, -3), 2);
    assert_eq!(scrolled_cursor(1, 10, -3), 0);
    assert_eq!(scrolled_cursor(8, 10, 3), 9);
    assert_eq!(scrolled_cursor(2, 10, 3), 5);
    assert_eq!(scrolled_cursor(0, 0, 3), 0);
}

#[test]
fn moving_data_needs_a_writable_session_and_a_folder() {
    let mut read_only = state(Screen::Review, true);
    assert!(!read_only.open_relocation_sources(3));
    assert_eq!(
        read_only.status_message.as_deref(),
        Some("Relocation is disabled in read-only analysis mode; restart without --analyze.")
    );
    let mut s = state(Screen::Review, false);
    s.sidebar_focus = true;
    assert!(!s.open_relocation_sources(0));
    assert!(!s.sidebar_focus);
    assert_eq!(s.screen, Screen::Review);
    assert!(s.open_relocation_sources(2));
    assert_eq!(s.screen, Screen::RelocationSources);
    assert_eq!(s.status_message, None);
}
