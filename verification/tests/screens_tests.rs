use diskray::screens::{
    default_destination, handle_source_key, list_key, DestinationCommand, DestinationInput,
    PlanStart, ProcessCommand, ProcessReview, SourceCommand, Volume,
};
use diskray::shell::{Code, ShellKey};

fn key(code: Code) -> ShellKey {
    ShellKey { code, press: true, control: false, alt: false }
}

fn volume(path: &str, usb: bool, network: bool) -> Volume {
    Volume { path: path.to_string(), usb, network }
}

#[test]
fn list_keys_stay_on_the_list() {
    assert_eq!(list_key(0, 5, Code::Up), Some(0));
    assert_eq!(list_key(3, 5, Code::Char('j')), Some(4));
    assert_eq!(list_key(4, 5, Code::Down), Some(4));
    assert_eq!(list_key(2, 30, Code::PageDown), Some(12));
    assert_eq!(list_key(25, 30, Code::PageDown), Some(29));
    assert_eq!(list_key(7, 30, Code::PageUp), Some(0));
    assert_eq!(list_key(7, 30, Code::End), Some(29));
    assert_eq!(list_key(7, 0, Code::End), Some(0));
    assert_eq!(list_key(7, 30, Code::Home), Some(0));
    assert_eq!(list_key(7, 30, Code::Enter), None);
}

#[test]
fn a_signal_is_confirmed_only_for_a_process_that_allows_one() {
    let mut review = ProcessReview { cursor: 0, may_signal: vec![false, true], target: None };
    assert_eq!(review.handle_key(Code::Char('d'), false), ProcessCommand::Nothing);
    assert_eq!(review.target, None);
    assert_eq!(review.handle_key(Code::Down, false), ProcessCommand::Nothing);
    assert_eq!(review.handle_key(Code::Char('d'), true), ProcessCommand::Nothing);
    assert_eq!(review.target, None);
    assert_eq!(review.handle_key(Code::Char('D'), false), ProcessCommand::Confirm);
    assert_eq!(review.target, Some(1));
    assert_eq!(review.take_target(), Some(1));
    assert_eq!(review.target, None);
    assert_eq!(review.handle_key(Code::Char('r'), false), ProcessCommand::Refresh);
    assert_eq!(review.handle_key(Code::Esc, false), ProcessCommand::GoHome);
    assert_eq!(review.handle_key(Code::Char('q'), false), ProcessCommand::Quit);
    review.target = Some(1);
    review.refreshed(vec![true]);
    assert_eq!(review.cursor, 0);
    assert_eq!(review.target, None);
}

#[test]
fn the_folder_list_chooses_the_row_under_the_cursor() {
    assert_eq!(handle_source_key(1, 3, Code::Enter), (1, SourceCommand::Choose(1)));
    assert_eq!(handle_source_key(0, 0, Code::Enter), (0, SourceCommand::Nothing));
    assert_eq!(handle_source_key(1, 3, Code::Down), (2, SourceCommand::Nothing));
    assert_eq!(handle_source_key(1, 3, Code::Esc), (1, SourceCommand::Back));
    assert_eq!(handle_source_key(1, 3, Code::Char('q')), (1, SourceCommand::Quit));
}

#[test]
fn a_usb_volume_is_the_first_destination_offered() {
    let vols = vec![
        volume("/", false, false),
        volume("/Volumes/Share", false, true),
        volume("/Volumes/Backup", false, false),
        volume("/Volumes/Stick", true, false),
    ];
    assert_eq!(default_destination(&vols), Some("/Volumes/Stick".to_string()));
    let vols = vec![volume("/Volumes/Share", false, true), volume("/Volumes/Backup", false, false)];
    assert_eq!(default_destination(&vols), Some("/Volumes/Backup".to_string()));
    let vols = vec![volume("/Volumesque", true, false), volume("/Volumes/Share", false, true)];
    assert_eq!(default_destination(&vols), None);
}

#[test]
fn typing_a_destination_and_planning_the_move() {
    let mut input = DestinationInput { text: Vec::new(), error: Some("old".to_string()) };
    assert_eq!(input.handle_key(key(Code::Char('q'))), DestinationCommand::Quit);
    for c in "~/x ".chars() {
        assert_eq!(input.handle_key(key(Code::Char(c))), DestinationCommand::Nothing);
    }
    assert_eq!(input.error, None);
    assert_eq!(input.handle_key(key(Code::Char('q'))), DestinationCommand::Nothing);
    assert_eq!(input.handle_key(key(Code::Backspace)), DestinationCommand::Nothing);
    let ctrl = ShellKey { code: Code::Char('u'), press: true, control: true, alt: false };
    assert_eq!(input.handle_key(ctrl), DestinationCommand::Nothing);
    assert_eq!(input.text, vec!['~', '/', 'x', ' ']);
    assert_eq!(input.handle_key(key(Code::Enter)), DestinationCommand::StartPlan);
    match input.start_plan(true, "/Users/me") {
        PlanStart::Plan(d) => assert_eq!(d, "/Users/me/x"),
        _ => panic!("a typed destination is planned"),
    }
    assert!(matches!(input.start_plan(false, "/Users/me"), PlanStart::ChooseSource));
    let mut blank = DestinationInput { text: vec![' ', ' '], error: None };
    assert!(matches!(blank.start_plan(true, "/Users/me"), PlanStart::Missing));
    assert_eq!(
        blank.error.as_deref(),
        Some("Enter an existing directory on the external volume.")
    );
    assert_eq!(blank.handle_key(key(Code::Esc)), DestinationCommand::Back);
    assert_eq!(blank.error, None);
}

#[test]
fn a_destination_stops_at_its_length_limit() {
    let mut input = DestinationInput { text: vec!['a'; 4095], error: None };
    input.handle_key(key(Code::Char('é')));
    assert_eq!(input.text.len(), 4096);
    input.handle_key(key(Code::Char('b')));
    assert_eq!(input.text.len(), 4096);
}
