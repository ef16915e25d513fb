use diskray::shell::{Code, ShellKey};
use diskray::assistant::{
    ask_key, follow_up_for_digit, follow_ups, is_control, palette_key, palette_matches, resolve_triage_ids, IdMap, PaletteInput,
    PaletteKey, Triage, PALETTE_LEN,
};
use diskray::display::{
    duration_label, expand_user_path, format_elapsed, scan_spinner, strip_handles, tool_name,
    truncate_end, truncate_middle,
};
use diskray::care_workspace::palette_code;
use std::time::Duration;

#[test]
fn scan_activity_spinner_advances_independently_of_category_completion() {
    assert_ne!(
        scan_spinner(Duration::ZERO.as_millis()),
        scan_spinner(Duration::from_millis(80).as_millis())
    );
}

#[test]
fn triage_aliases_reject_unknown_ids_and_drop_unverified_reasons() {
    let mut map = IdMap::new();
    map.insert("item1".into(), "finding:real".into());
    let valid = Triage {
        key_area_ids: vec!["item1".into()],
        quick_win_ids: vec![],
        reasons: vec!["Unverified claim".into()],
    };
    let resolved = resolve_triage_ids(valid, &map).unwrap();
    assert_eq!(resolved.key_area_ids, vec!["finding:real"]);
    assert!(resolved.reasons.is_empty());
    assert!(resolve_triage_ids(
        Triage { key_area_ids: vec!["unknown".into()], quick_win_ids: vec![], reasons: vec![] },
        &map
    )
    .is_none());
}

#[test]
fn spinner_cycles_through_ten_frames() {
    assert_eq!(scan_spinner(0), "⠋");
    assert_eq!(scan_spinner(79), "⠋");
    assert_eq!(scan_spinner(80), "⠙");
    assert_eq!(scan_spinner(720), "⠏");
    assert_eq!(scan_spinner(800), "⠋");
}

#[test]
fn elapsed_times_switch_to_minutes_at_sixty_seconds() {
    assert_eq!(format_elapsed(0), "0s");
    assert_eq!(format_elapsed(59), "59s");
    assert_eq!(format_elapsed(60), "1m 00s");
    assert_eq!(format_elapsed(125), "2m 05s");
    assert_eq!(format_elapsed(3_671), "61m 11s");
}

#[test]
fn durations_round_to_the_nearest_minute_after_ninety_seconds() {
    assert_eq!(duration_label(89), "89 s");
    assert_eq!(duration_label(90), "2 min");
    assert_eq!(duration_label(149), "2 min");
    assert_eq!(duration_label(150), "3 min");
    assert_eq!(duration_label(u64::MAX), "307445734561825860 min");
}

#[test]
fn truncation_keeps_fitting_text_and_marks_cuts() {
    assert_eq!(truncate_end("short", 5), "short");
    assert_eq!(truncate_end("a longer sentence", 6), "a lon…");
    assert_eq!(truncate_end("abc", 0), "…");
    assert_eq!(truncate_middle("/Users/me/Library", 17), "/Users/me/Library");
    assert_eq!(truncate_middle("/Users/me/Library", 9), "/Use…rary");
    assert_eq!(truncate_middle("/Users/me/Library", 8), "/Us…rary");
    assert_eq!(truncate_middle("/Users/me/Library", 1), "…");
    assert_eq!(truncate_middle("ééééé", 4), "é…éé");
    assert!(truncate_middle("/a/very/long/path/name", 10).chars().count() <= 10);
}

#[test]
fn tool_names_are_plain_words() {
    assert_eq!(tool_name("list_children"), "contents");
    assert_eq!(tool_name("research"), "Apple notes");
    assert_eq!(tool_name("reference"), "Apple notes");
    assert_eq!(tool_name("something_new"), "something_new");
}

#[test]
fn handles_are_dropped_from_summaries() {
    assert_eq!(strip_handles("n2 holds 4 GB in p13 caches"), "holds 4 GB in caches");
    assert_eq!(strip_handles("n is not a handle, nor is p1x"), "n is not a handle, nor is p1x");
    assert_eq!(strip_handles("n1"), "");
    assert_eq!(strip_handles("a  b"), "a  b");
}

#[test]
fn user_paths_expand_the_home_folder() {
    assert_eq!(expand_user_path("~", "/Users/me"), "/Users/me");
    assert_eq!(expand_user_path("~/Archive", "/Users/me"), "/Users/me/Archive");
    assert_eq!(expand_user_path("~/Archive", "/Users/me/"), "/Users/me/Archive");
    assert_eq!(expand_user_path("~//Volumes/X", "/Users/me"), "/Volumes/X");
    assert_eq!(expand_user_path("/Volumes/Backup", "/Users/me"), "/Volumes/Backup");
    assert_eq!(expand_user_path("~other", "/Users/me"), "~other");
}

#[test]
fn palette_filters_by_every_typed_word() {
    assert_eq!(palette_matches("hist").len(), 1);
    assert_eq!(palette_matches("hist")[0].sends, PaletteKey::Char('3'));
    assert!(palette_matches("zzz").is_empty());
    assert_eq!(palette_matches("").len(), PALETTE_LEN);
    assert_eq!(PALETTE_LEN, 22);
    let both = palette_matches("SELECTED item");
    assert!(both.iter().all(|c| c.label.to_lowercase().contains("selected")));
    assert_eq!(palette_matches("explain")[0].sends, PaletteKey::Enter);
    assert!(
        palette_matches("enter").iter().any(|c| c.sends == PaletteKey::Enter),
        "keys are matched in lowercase too"
    );
    assert!(palette_matches("K").iter().any(|c| c.key == "K" && c.sends == PaletteKey::Char('K')));
}

#[test]
fn follow_ups_never_repeat_the_question() {
    let follow = follow_ups("why is my disk almost full?");
    assert_eq!(follow.len(), 3);
    assert!(!follow.contains(&"Why is my disk almost full?"));
    assert_eq!(follow[0], "What grew since last week?");
    let other = follow_ups("  anything else  ");
    assert_eq!(
        other,
        vec![
            "Why is my disk almost full?",
            "What grew since last week?",
            "Which caches can I clear safely?"
        ]
    );
}

#[test]
fn id_map_replaces_values_and_all_ids_are_checked() {
    let mut map = IdMap::new();
    map.insert("item1".into(), "finding:a".into());
    map.insert("item1".into(), "finding:b".into());
    map.insert("item2".into(), "finding:c".into());
    assert_eq!(map.get("item1").as_deref(), Some("finding:b"));
    assert_eq!(map.get("item3"), None);
    let t = Triage {
        key_area_ids: vec!["item2".into(), "item1".into()],
        quick_win_ids: vec!["item1".into()],
        reasons: vec!["x".into(), "y".into()],
    };
    let r = resolve_triage_ids(t, &map).unwrap();
    assert_eq!(r.key_area_ids, vec!["finding:c", "finding:b"]);
    assert_eq!(r.quick_win_ids, vec!["finding:b"]);
    assert!(r.reasons.is_empty());
    let bad = Triage {
        key_area_ids: vec!["item1".into()],
        quick_win_ids: vec!["item9".into()],
        reasons: vec![],
    };
    assert!(resolve_triage_ids(bad, &map).is_none());
}

#[test]
fn the_palette_filter_keeps_its_cursor_on_the_only_match() {
    let mut palette = Some(PaletteInput { query: Vec::new(), cursor: 0 });
    for c in "hist".chars() {
        assert_eq!(palette_key(&mut palette, Code::Char(c)), None);
    }
    assert_eq!(palette_key(&mut palette, Code::Down), None);
    assert_eq!(palette.as_ref().map(|p| p.cursor), Some(0));
    assert_eq!(palette_key(&mut palette, Code::Enter), Some(PaletteKey::Char('3')));
    assert!(palette.is_none());
    assert_eq!(palette_key(&mut palette, Code::Char('q')), None);
    assert!(palette.is_none());
    assert_eq!(palette_code(PaletteKey::Enter), Code::Enter);
}

#[test]
fn the_palette_moves_among_matches_and_limits_the_query() {
    let mut palette = Some(PaletteInput { query: Vec::new(), cursor: 0 });
    palette_key(&mut palette, Code::Down);
    palette_key(&mut palette, Code::Down);
    assert_eq!(palette.as_ref().unwrap().cursor, 2);
    palette_key(&mut palette, Code::Up);
    assert_eq!(palette.as_ref().unwrap().cursor, 1);
    palette_key(&mut palette, Code::Char('\u{7}'));
    assert!(is_control('\u{7}') && is_control('\u{85}') && !is_control('é'));
    assert_eq!(palette.as_ref().unwrap().cursor, 1);
    for _ in 0..45 {
        palette_key(&mut palette, Code::Char('x'));
    }
    assert_eq!(palette.as_ref().unwrap().query.len(), 40);
    assert_eq!(palette.as_ref().unwrap().cursor, 0);
    palette_key(&mut palette, Code::Backspace);
    assert_eq!(palette.as_ref().unwrap().query.len(), 39);
    assert_eq!(palette_key(&mut palette, Code::Enter), None);
    assert!(palette.is_none());
}

#[test]
fn answer_follow_ups_prefill_the_ask_box() {
    let follow = follow_ups("why is my disk almost full?");
    assert_eq!(follow.len(), 3);
    assert!(!follow.contains(&"Why is my disk almost full?"));
    let picked = follow_up_for_digit("Why is my disk almost full?", '2');
    assert_eq!(picked, Some(follow[1]));
    let mut asking = picked.map(|q| q.chars().collect::<Vec<char>>());
    assert_eq!(asking.as_ref().map(|t| t.iter().collect::<String>()), Some(follow[1].to_string()));
    assert_eq!(follow_up_for_digit("Why is my disk almost full?", '4'), None);
    assert_eq!(ask_key(&mut asking, ShellKey { code: Code::Esc, press: true, control: false, alt: false }, 10), None);
    assert!(asking.is_none());
}

#[test]
fn the_ask_box_is_bounded_and_sends_trimmed_questions() {
    let key = |code: Code| ShellKey { code, press: true, control: false, alt: false };
    let mut asking: Option<Vec<char>> = Some(Vec::new());
    assert_eq!(ask_key(&mut asking, key(Code::Enter), 8), None);
    assert_eq!(asking, Some(Vec::new()), "an empty question is not sent");
    for c in " quit?".chars() {
        ask_key(&mut asking, key(Code::Char(c)), 8);
    }
    ask_key(&mut asking, key(Code::Char('\u{1b}')), 8);
    let ctrl = ShellKey { code: Code::Char('u'), press: true, control: true, alt: false };
    ask_key(&mut asking, ctrl, 8);
    assert_eq!(asking.as_ref().map(|t| t.iter().collect::<String>()), Some(" quit?".to_string()));
    for _ in 0..20 {
        ask_key(&mut asking, key(Code::Char('x')), 8);
    }
    assert_eq!(asking.as_ref().unwrap().len(), 8);
    ask_key(&mut asking, key(Code::Backspace), 8);
    ask_key(&mut asking, key(Code::Char(' ')), 8);
    assert_eq!(ask_key(&mut asking, key(Code::Enter), 8), Some("quit?x".to_string()));
    assert!(asking.is_none());
    let mut closed: Option<Vec<char>> = None;
    assert_eq!(ask_key(&mut closed, key(Code::Char('a')), 8), None);
    assert!(closed.is_none());
}
