use diskray::explorer::{explorer_items, Explorer, ExplorerEffect, StorageTab};
use diskray::shell::Code;
use diskray::storage::{ChildIndex, StorageInventory, StorageItem, StorageItemKind, StorageRoot};

fn inventory() -> StorageInventory {
    let mut inv = StorageInventory::unavailable("/v", "x".into());
    inv.roots = vec![StorageRoot { path: "/v".into(), size_kb: 100, device: 1, scan_errors: 0 }];
    let mut children = ChildIndex::new();
    children.insert(
        "/v".into(),
        vec![
            StorageItem::new("/v/b", 30, StorageItemKind::File),
            StorageItem::new("/v/A", 50, StorageItemKind::Directory),
        ],
    );
    children.insert("/v/A".into(), vec![StorageItem::new("/v/A/x", 20, StorageItemKind::File)]);
    inv.children = children;
    inv
}

#[test]
fn the_top_lists_the_roots_contents_largest_first() {
    let inv = inventory();
    let items = explorer_items(&inv, &None);
    let paths: Vec<&str> = items.iter().map(|i| i.path.as_str()).collect();
    assert_eq!(paths, vec!["/v/A", "/v/b"]);
    let inside = explorer_items(&inv, &Some("/v/A/".into()));
    assert_eq!(inside.len(), 1);
    assert!(explorer_items(&inv, &Some("/nowhere".into())).is_empty());
}

#[test]
fn folders_open_and_close_and_files_show_details() {
    let inv = inventory();
    let entries: Vec<String> = Vec::new();
    let mut e = Explorer::new();
    assert_eq!(e.handle_storage_navigation(&inv, &entries, false, Code::Enter), Some(ExplorerEffect::Nothing));
    assert_eq!(e.path.as_deref(), Some("/v/A"));
    assert_eq!(e.history.len(), 1);
    e.handle_storage_navigation(&inv, &entries, false, Code::Char('j'));
    assert_eq!(e.cursor, 0);
    e.handle_storage_navigation(&inv, &entries, false, Code::Backspace);
    assert_eq!(e.path, None);
    assert!(e.history.is_empty());
    e.handle_storage_navigation(&inv, &entries, false, Code::Down);
    assert_eq!(e.cursor, 1);
    e.handle_storage_navigation(&inv, &entries, false, Code::Enter);
    assert!(e.details, "a file shows its details");
    assert_eq!(e.path, None);
    e.handle_storage_navigation(&inv, &entries, false, Code::Esc);
    assert!(!e.details);
    assert_eq!(
        e.handle_storage_navigation(&inv, &entries, false, Code::Esc),
        Some(ExplorerEffect::ReturnToReview)
    );
    assert_eq!(
        e.handle_storage_navigation(&inv, &entries, false, Code::Char('m')),
        Some(ExplorerEffect::OpenRelocationSources)
    );
    assert_eq!(
        e.handle_storage_navigation(&inv, &entries, true, Code::Char('m')),
        Some(ExplorerEffect::Nothing)
    );
}

#[test]
fn tabs_follow_the_item_under_the_cursor() {
    let inv = inventory();
    let entries = vec!["/x".to_string(), "/v/A/sub".to_string()];
    let mut e = Explorer::new();
    e.handle_storage_navigation(&inv, &entries, false, Code::Char('f'));
    assert_eq!(e.tab, StorageTab::Decisions);
    assert_eq!(e.entry_cursor, 1, "the first entry inside the folder is chosen");
    assert_eq!(e.handle_storage_navigation(&inv, &entries, false, Code::Char('j')), None);
    let entries = vec!["/v/A".to_string()];
    e.entry_cursor = 0;
    e.handle_storage_navigation(&inv, &entries, false, Code::Char('e'));
    assert_eq!(e.tab, StorageTab::Explore);
    assert_eq!(e.path.as_deref(), Some("/v/A"));
    e.handle_storage_navigation(&inv, &entries, false, Code::Char(']'));
    assert_eq!(e.tab, StorageTab::Heatmap);
    e.handle_storage_navigation(&inv, &entries, false, Code::Char('['));
    e.handle_storage_navigation(&inv, &entries, false, Code::Char('['));
    assert_eq!(e.tab, StorageTab::Coverage);
    e.coverage_max_scroll = 5;
    e.handle_storage_navigation(&inv, &entries, false, Code::PageDown);
    assert_eq!(e.coverage_scroll, 5);
    e.handle_storage_navigation(&inv, &entries, false, Code::Up);
    assert_eq!(e.coverage_scroll, 4);
    assert_eq!(
        e.handle_storage_navigation(&inv, &entries, false, Code::Char('p')),
        Some(ExplorerEffect::OpenAccessSettings)
    );
}
