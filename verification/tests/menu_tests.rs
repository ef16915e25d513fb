use diskray::layout::MenuId;
use diskray::menu::{
    handle_function_key, handle_menu_key, menu_is_available, menu_items, move_menu_cursor,
    open_menu, MenuCommand, MenuContext, MenuKey, MenuState, Screen,
};

fn ctx(screen: Screen, analysis_only: bool) -> MenuContext {
    MenuContext {
        screen,
        analysis_only,
        has_ready_space: true,
        has_current_item: true,
        process_signalable: false,
    }
}

fn closed() -> MenuState {
    MenuState { open: None, cursor: 0 }
}

#[test]
fn menus_are_unavailable_while_work_runs() {
    assert!(menu_is_available(Screen::Review));
    assert!(menu_is_available(Screen::Processes));
    assert!(!menu_is_available(Screen::Scanning));
    assert!(!menu_is_available(Screen::Summary));
    let mut s = closed();
    open_menu(ctx(Screen::Scanning, false), &mut s, MenuId::File);
    assert_eq!(s, closed());
}

#[test]
fn the_cursor_skips_disabled_items_and_wraps() {
    let c = ctx(Screen::Review, false);
    let mut s = closed();
    open_menu(c, &mut s, MenuId::Actions);
    assert_eq!(s, MenuState { open: Some(MenuId::Actions), cursor: 0 });
    move_menu_cursor(c, &mut s, 1);
    assert_eq!(s.cursor, 1);
    move_menu_cursor(c, &mut s, 1);
    assert_eq!(s.cursor, 2);
    move_menu_cursor(c, &mut s, 1);
    assert_eq!(s.cursor, 0, "the disabled signal item is skipped");
    move_menu_cursor(c, &mut s, -1);
    assert_eq!(s.cursor, 2);
    handle_menu_key(c, &mut s, MenuKey::PageDown);
    assert_eq!(s.cursor, 0);
}

#[test]
fn analysis_mode_only_reveals() {
    let c = ctx(Screen::Review, true);
    let items = menu_items(c, MenuId::Actions);
    let enabled: Vec<bool> = items.iter().map(|i| i.enabled).collect();
    assert_eq!(enabled, vec![false, false, true, false]);
    let mut s = closed();
    open_menu(c, &mut s, MenuId::Actions);
    assert_eq!(s.cursor, 2);
    assert_eq!(handle_menu_key(c, &mut s, MenuKey::Enter), MenuCommand::RevealCurrent);
    assert_eq!(s.open, None);
}

#[test]
fn file_menu_keys() {
    let c = ctx(Screen::Location, false);
    let mut s = closed();
    open_menu(c, &mut s, MenuId::File);
    handle_menu_key(c, &mut s, MenuKey::Down);
    assert_eq!(s.cursor, 2, "rescan is disabled on the location list");
    handle_menu_key(c, &mut s, MenuKey::Home);
    assert_eq!(s.cursor, 0);
    handle_menu_key(c, &mut s, MenuKey::End);
    assert_eq!(s.cursor, 2);
    assert_eq!(handle_menu_key(c, &mut s, MenuKey::Enter), MenuCommand::Quit);
    assert_eq!(s.open, None);
}

#[test]
fn menus_switch_around_the_bar_and_open_by_letter() {
    let c = ctx(Screen::Review, false);
    let mut s = closed();
    open_menu(c, &mut s, MenuId::Help);
    handle_menu_key(c, &mut s, MenuKey::Right);
    assert_eq!(s.open, Some(MenuId::File));
    handle_menu_key(c, &mut s, MenuKey::Left);
    assert_eq!(s.open, Some(MenuId::Help));
    handle_menu_key(c, &mut s, MenuKey::Char('a'));
    assert_eq!(s.open, Some(MenuId::Actions));
    handle_menu_key(c, &mut s, MenuKey::Char('x'));
    assert_eq!(s.open, Some(MenuId::Actions));
    handle_menu_key(c, &mut s, MenuKey::Char('q'));
    assert_eq!(s.open, None);
    open_menu(c, &mut s, MenuId::View);
    assert_eq!(handle_menu_key(c, &mut s, MenuKey::F(10)), MenuCommand::Quit);
    assert_eq!(s.open, None);
}

#[test]
fn function_keys() {
    let mut s = closed();
    assert_eq!(
        handle_function_key(ctx(Screen::Review, false), &mut s, 5),
        Some(MenuCommand::RestartScan)
    );
    assert_eq!(
        handle_function_key(ctx(Screen::Processes, false), &mut s, 5),
        Some(MenuCommand::RefreshProcesses)
    );
    assert_eq!(handle_function_key(ctx(Screen::Review, true), &mut s, 6), None);
    assert_eq!(
        handle_function_key(ctx(Screen::Review, false), &mut s, 6),
        Some(MenuCommand::NavigateTo(2))
    );
    assert_eq!(handle_function_key(ctx(Screen::Scanning, false), &mut s, 5), None);
    assert_eq!(
        handle_function_key(ctx(Screen::Scanning, false), &mut s, 1),
        Some(MenuCommand::ShowHelp)
    );
    assert_eq!(
        handle_function_key(ctx(Screen::Review, false), &mut s, 9),
        Some(MenuCommand::Nothing)
    );
    assert_eq!(s.open, Some(MenuId::File));
}
