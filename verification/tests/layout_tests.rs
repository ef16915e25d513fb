use diskray::layout::{
    centered_rect, content_area, map_rects, menu_popup_rect, navigation_at, rect_contains,
    scrollbar_area, table_hits, tiles, top_menu_item_area, MenuId, Rect,
};
use diskray::storage::{StorageItem, StorageItemKind};

fn rect(x: u16, y: u16, width: u16, height: u16) -> Rect {
    Rect { x, y, width, height }
}

#[test]
fn folder_map_splits_across_the_longer_side() {
    assert_eq!(
        map_rects(&[1, 1], rect(0, 0, 40, 10)),
        vec![rect(0, 0, 20, 10), rect(20, 0, 20, 10)]
    );
    assert_eq!(
        map_rects(&[3, 0, 1], rect(0, 0, 10, 20)),
        vec![rect(0, 0, 10, 15), rect(0, 0, 0, 0), rect(0, 15, 10, 5)]
    );
    assert_eq!(map_rects(&[0, 0], rect(5, 5, 10, 10)), vec![Rect::default(); 2]);
    assert!(map_rects(&[], rect(0, 0, 10, 10)).is_empty());
}

#[test]
fn folder_map_gives_one_rectangle_per_weight_inside_the_area() {
    let area = rect(3, 4, 57, 23);
    let weights = [900, 5, 17, 0, 250, 1, 1, 64];
    let rects = map_rects(&weights, area);
    assert_eq!(rects.len(), weights.len());
    for r in rects {
        let empty = r == Rect::default();
        let inside = r.x >= area.x
            && r.right() <= area.right()
            && r.y >= area.y
            && r.bottom() <= area.bottom();
        assert!(empty || inside, "{r:?}");
    }
}

#[test]
fn tiles_show_the_largest_children_and_what_was_not_measured() {
    let children = vec![
        StorageItem::new("/data/a", 5, StorageItemKind::Directory),
        StorageItem::new("/data/b", 0, StorageItemKind::File),
        StorageItem::new("/data/c", 3, StorageItemKind::File),
    ];
    let t = tiles(&children, 10);
    let shown: Vec<(&str, u64)> = t.iter().map(|t| (t.name.as_str(), t.size)).collect();
    assert_eq!(shown, vec![("a", 5), ("c", 3), ("Other / unmeasured", 2)]);
    assert!(t[2].item.is_none());

    let many: Vec<StorageItem> = (1..=12)
        .map(|n| StorageItem::new(&format!("/data/f{n:02}"), n, StorageItemKind::File))
        .collect();
    let t = tiles(&many, 78);
    assert_eq!(t.len(), 11);
    assert_eq!(t[0].name, "f12");
    assert_eq!(t[10].name, "2 smaller items");
    assert_eq!(t[10].size, 3);
}

#[test]
fn dialogs_are_centred() {
    assert_eq!(centered_rect(50, 10, rect(0, 0, 100, 30)), rect(25, 10, 50, 10));
    assert_eq!(centered_rect(50, 40, rect(2, 2, 100, 30)), rect(27, 2, 50, 30));
    assert_eq!(centered_rect(200, 5, rect(0, 0, 400, 3)), rect(0, 0, 655, 3));
}

#[test]
fn top_bar_geometry_matches_pointer_navigation() {
    assert_eq!(content_area(rect(0, 0, 100, 30)), rect(0, 3, 100, 27));
    assert_eq!(content_area(rect(0, 0, 100, 2)), rect(0, 3, 100, 0));
    assert_eq!(top_menu_item_area(rect(0, 0, 100, 3), 1), rect(36, 0, 20, 1));
    assert_eq!(top_menu_item_area(rect(0, 0, 100, 3), 5), rect(72, 0, 16, 1));
    assert_eq!(top_menu_item_area(rect(0, 0, 80, 3), 0), rect(14, 0, 14, 1));
    assert_eq!(navigation_at(40, 0, 100), Some(1));
    assert_eq!(navigation_at(5, 0, 100), None);
    assert_eq!(navigation_at(40, 1, 100), None);
    assert!(rect_contains(rect(1, 1, 2, 2), 2, 2));
    assert!(!rect_contains(rect(1, 1, 2, 2), 3, 2));
}

#[test]
fn menus_round_trip_and_fit_their_popups() {
    for index in 0..8 {
        assert_eq!(MenuId::from_index(index).index(), index % 4);
    }
    assert_eq!(MenuId::View.label(), "NAVIGATE");
    assert_eq!(MenuId::Actions.hotkey(), 'A');
    assert_eq!(
        menu_popup_rect(rect(0, 0, 100, 30), MenuId::File, 5),
        Some(rect(1, 3, 44, 7))
    );
    assert_eq!(menu_popup_rect(rect(0, 0, 12, 30), MenuId::File, 5), None);
}

#[test]
fn only_rows_on_screen_are_clickable() {
    let hits = table_hits(Rect::new(0, 0, 50, 10), 2, 20, 2, 1);
    assert_eq!(
        hits,
        vec![
            (Rect::new(1, 2, 48, 2), 2),
            (Rect::new(1, 4, 48, 2), 3),
            (Rect::new(1, 6, 48, 2), 4),
            (Rect::new(1, 8, 48, 1), 5),
        ]
    );
    assert!(table_hits(Rect::new(0, 0, 50, 10), 3, 3, 2, 1).is_empty());
    assert!(table_hits(Rect::new(0, 0, 50, 3), 0, 5, 1, 1).is_empty());
}

#[test]
fn a_scrollbar_shows_only_for_content_longer_than_the_view() {
    assert_eq!(scrollbar_area(Rect::new(5, 2, 30, 10), 7), None);
    assert_eq!(scrollbar_area(Rect::new(5, 2, 30, 10), 8), Some(Rect::new(5, 3, 30, 8)));
    assert_eq!(scrollbar_area(Rect::new(5, 2, 0, 10), 80), None);
    assert_eq!(scrollbar_area(Rect::new(5, 2, 30, 10), 0), None);
}

#[test]
fn folder_map_tiles_never_overlap_and_cover_the_area() {
    let area = rect(3, 2, 77, 21);
    let weights = [50, 30, 0, 12, 7, 1];
    let rects = map_rects(&weights, area);
    let mut cells: u64 = 0;
    for (i, a) in rects.iter().enumerate() {
        cells += a.width as u64 * a.height as u64;
        for b in &rects[i + 1..] {
            let empty = a.width == 0 || a.height == 0 || b.width == 0 || b.height == 0;
            let apart = a.x + a.width <= b.x
                || b.x + b.width <= a.x
                || a.y + a.height <= b.y
                || b.y + b.height <= a.y;
            assert!(empty || apart, "{a:?} and {b:?} overlap");
        }
    }
    assert_eq!(cells, 77 * 21);
}
