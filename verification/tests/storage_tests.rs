use diskray::storage::{
    breakdown, classify_path, parse_df_output, parse_snapshot_dates, plist_integer, ChildIndex,
    DfError, DfField, StorageCategory, StorageInventory, StorageItem, StorageItemKind,
};

fn dir(path: &str, size_kb: u64) -> StorageItem {
    StorageItem::new(path, size_kb, StorageItemKind::Directory)
}

#[test]
fn breakdown_opens_generic_folders_and_stops_at_cleanup_targets() {
    let gib = 1_048_576;
    let mut inventory = StorageInventory::unavailable("/", "test".to_string());
    inventory.top_level = vec![
        dir("/Users", 60 * gib),
        dir("/System", 20 * gib),
        dir("/Applications", 8 * gib),
    ];
    let mut children = ChildIndex::new();
    children.insert("/Users".to_string(), vec![dir("/Users/me", 60 * gib)]);
    children.insert(
        "/Users/me".to_string(),
        vec![dir("/Users/me/Library", 35 * gib), dir("/Users/me/Movies", 25 * gib)],
    );
    children.insert(
        "/Users/me/Library".to_string(),
        vec![dir("/Users/me/Library/Developer", 30 * gib), dir("/Users/me/Library/Mail", 5 * gib)],
    );
    children.insert(
        "/Users/me/Library/Developer".to_string(),
        vec![dir("/Users/me/Library/Developer/CoreSimulator", 30 * gib)],
    );
    children.insert(
        "/Users/me/Library/Developer/CoreSimulator".to_string(),
        vec![dir("/Users/me/Library/Developer/CoreSimulator/Devices", 29 * gib)],
    );
    children.insert(
        "/Users/me/Library/Developer/CoreSimulator/Devices".to_string(),
        vec![dir("/Users/me/Library/Developer/CoreSimulator/Devices/A", 29 * gib)],
    );
    children.insert(
        "/Users/me/Movies".to_string(),
        vec![dir("/Users/me/Movies/a", 13 * gib), dir("/Users/me/Movies/b", 12 * gib)],
    );
    inventory.children = children;
    let targets = ["/Users/me/Library/Developer/CoreSimulator/Devices".to_string()];
    let result = breakdown(&inventory, &targets, 1024);
    let paths: Vec<&str> = result.items.iter().map(|item| item.path.as_str()).collect();
    assert_eq!(
        paths,
        [
            "/Users/me/Library/Developer/CoreSimulator/Devices",
            "/Users/me/Movies",
            "/Applications",
            "/Users/me/Library/Mail",
        ],
        "generic folders are opened, a cleanup target is never opened, and balanced folders stay whole"
    );
    assert_eq!(result.macos_kb, 20 * gib);
}

#[test]
fn parses_df_rows_with_mount_paths_after_the_fixed_columns() {
    let report = parse_df_output(
        "Filesystem 1024-blocks Used Available Capacity Mounted on\n/dev/disk1 1000 700 300 70% /Volumes/Work Drive\n",
        "/Volumes/Work Drive",
        42,
    )
    .unwrap();

    assert_eq!(report.capacity_kb, 1000);
    assert_eq!(report.used_kb, 700);
    assert_eq!(report.free_kb, 300);
    assert_eq!(report.device, 42);
    assert_eq!(report.container_free_kb, None);
}

#[test]
fn shared_container_usage_does_not_replace_volume_accounting() {
    let mut volume = parse_df_output(
        "Filesystem 1024-blocks Used Available Capacity Mounted on\n/dev/disk1 250 180 3 98% /\n",
        "/",
        1,
    )
    .unwrap();
    assert_eq!(volume.disk_used_kb(), 180);
    volume.container_free_kb = Some(3);
    assert_eq!(volume.disk_used_kb(), 247);
    assert_eq!(volume.other_volume_kb(), 67);
    assert_eq!(volume.used_kb, 180);
    assert_eq!(volume.disk_free_kb(), 3);
}

#[test]
fn parses_snapshot_dates_and_ignores_prose() {
    let dates = parse_snapshot_dates(
        "Snapshot dates for volume group containing disk /:\n2026-09-01-101530\nnot-a-date\n2025-12-31-235959\n",
    );
    assert_eq!(dates, vec!["2025-12-31-235959", "2026-09-01-101530"]);
    assert!(parse_snapshot_dates("Snapshot dates for volume group containing disk /:").is_empty());
}

#[test]
fn reads_integer_values_from_diskutil_plist() {
    let plist = "<key>APFSContainerFree</key>\n\t<integer>15434162176</integer>\n";
    assert_eq!(plist_integer(plist, "APFSContainerFree"), Some(15_434_162_176));
    assert_eq!(plist_integer(plist, "Missing"), None);
}

#[test]
fn classifies_user_app_data_and_developer_folders() {
    assert_eq!(
        classify_path("/Users/demo/Library/Developer/Xcode"),
        StorageCategory::DeveloperData
    );
    assert_eq!(
        classify_path("/Users/demo/Library/Application Support/App"),
        StorageCategory::ApplicationData
    );
    assert_eq!(
        classify_path("/Users/demo/Library/Caches/App"),
        StorageCategory::TemporaryData
    );
}

#[test]
fn df_output_without_a_row_is_refused() {
    let header_only = "Filesystem 1024-blocks Used Available Capacity Mounted on\n";
    assert_eq!(parse_df_output(header_only, "/", 1).err(), Some(DfError::NoRow));
    assert_eq!(
        parse_df_output("Filesystem\n/dev/disk1 1000 700\n", "/", 1).err(),
        Some(DfError::IncompleteRow)
    );
    assert_eq!(
        parse_df_output("Filesystem\n/dev/disk1 big 700 300 70% /\n", "/", 1).err(),
        Some(DfError::InvalidValue(DfField::Capacity))
    );
    assert_eq!(
        parse_df_output("Filesystem\n/dev/disk1 1000 x 300 70% /\n", "/", 1).err(),
        Some(DfError::InvalidValue(DfField::Used))
    );
    assert_eq!(
        parse_df_output("Filesystem\n/dev/disk1 1000 700 - 70% /\n", "/", 1).err(),
        Some(DfError::InvalidValue(DfField::Available))
    );
    assert_eq!(DfError::NoRow.message(), "df returned no filesystem row");
}

#[test]
fn breakdown_items_never_nest_and_stay_above_targets() {
    let gib = 1_048_576;
    let mut inventory = StorageInventory::unavailable("/", "test".to_string());
    inventory.top_level = vec![dir("/Users", 40 * gib), dir("/opt", 10 * gib)];
    let mut children = ChildIndex::new();
    children.insert("/Users".to_string(), vec![dir("/Users/a", 30 * gib), dir("/Users/b", 10 * gib)]);
    children.insert(
        "/Users/a".to_string(),
        vec![dir("/Users/a/cache", 28 * gib), dir("/Users/a/docs", 2 * gib)],
    );
    children.insert("/Users/a/cache".to_string(), vec![dir("/Users/a/cache/x", 27 * gib)]);
    inventory.children = children;
    let targets = ["/Users/a/cache".to_string()];
    let result = breakdown(&inventory, &targets, 1024);
    let paths: Vec<&str> = result.items.iter().map(|item| item.path.as_str()).collect();
    assert_eq!(paths, ["/Users/a/cache", "/Users/b", "/opt", "/Users/a/docs"]);
    for (i, a) in paths.iter().enumerate() {
        for (j, b) in paths.iter().enumerate() {
            if i != j {
                assert!(!std::path::Path::new(a).starts_with(b));
            }
        }
        assert!(!a.starts_with("/Users/a/cache/"));
    }
}

#[test]
fn raising_the_threshold_only_drops_small_items() {
    let gib = 1_048_576;
    let mut inventory = StorageInventory::unavailable("/", "test".to_string());
    inventory.top_level = vec![dir("/Users", 60 * gib), dir("/System", 20 * gib), dir("/Applications", 8 * gib)];
    let mut children = ChildIndex::new();
    children.insert("/Users".to_string(), vec![dir("/Users/me", 60 * gib)]);
    children.insert(
        "/Users/me".to_string(),
        vec![dir("/Users/me/Library", 35 * gib), dir("/Users/me/Movies", 25 * gib)],
    );
    children.insert(
        "/Users/me/Library".to_string(),
        vec![dir("/Users/me/Library/Developer", 30 * gib), dir("/Users/me/Library/Mail", 5 * gib)],
    );
    children.insert(
        "/Users/me/Movies".to_string(),
        vec![dir("/Users/me/Movies/a", 13 * gib), dir("/Users/me/Movies/b", 12 * gib)],
    );
    inventory.children = children;
    let low = breakdown(&inventory, &[], 1024);
    let high = breakdown(&inventory, &[], 10 * gib);
    let kept: Vec<&str> = low
        .items
        .iter()
        .filter(|item| item.size_kb >= 10 * gib)
        .map(|item| item.path.as_str())
        .collect();
    let high_paths: Vec<&str> = high.items.iter().map(|item| item.path.as_str()).collect();
    assert_eq!(high_paths, kept);
    assert_eq!(high_paths, ["/Users/me/Library/Developer", "/Users/me/Movies"]);
    assert!(high.macos_kb <= low.macos_kb);
}

#[test]
fn category_labels_are_distinct_upper_case_headings() {
    let all = [
        StorageCategory::PersonalData,
        StorageCategory::ApplicationData,
        StorageCategory::DeveloperData,
        StorageCategory::Applications,
        StorageCategory::SystemData,
        StorageCategory::TemporaryData,
        StorageCategory::Other,
    ];
    for (i, a) in all.iter().enumerate() {
        assert!(!a.label().is_empty());
        assert_eq!(a.label(), a.label().to_ascii_uppercase());
        for b in &all[i + 1..] {
            assert_ne!(a.label(), b.label());
        }
    }
}
