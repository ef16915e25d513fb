use diskray::guidance::{decision_action, decision_guidance, CacheTier, Tone};
use diskray::scanner::{Entered, EntryMeta, InventoryScanner, RootWalk, MAX_ERROR_PATHS};
use diskray::session::EntryStatus;
use diskray::sources::{relocation_pool, select_relocation_sources, MAX_RELOCATION_SOURCES};
use diskray::storage::{
    accounting_path, age_bucket, blocks_to_kb, inventory_roots, select_largest_candidates,
    should_skip, AgeProfile, StorageCategory, StorageInventory, StorageItem, StorageItemKind,
    VolumeStats,
};

fn file(inode: u64, blocks: u64) -> Option<EntryMeta> {
    Some(EntryMeta { device: 7, inode, blocks, kind: StorageItemKind::File })
}

fn folder(inode: u64) -> Option<EntryMeta> {
    Some(EntryMeta { device: 7, inode, blocks: 0, kind: StorageItemKind::Directory })
}

#[test]
fn a_walk_counts_hard_links_once_and_skips_other_devices() {
    let mut scanner = InventoryScanner::new();
    let (root, report) = scanner.enter("/v", folder(1), 7, true, false, 0);
    assert!(report, "the first entry is always reported");
    let Entered::Directory { own_kb, folder: index } = root else { panic!("{root:?}") };
    let mut total = own_kb;
    for (name, meta) in [
        ("/v/data.bin", file(2, 32)),
        ("/v/hard-link.bin", file(2, 32)),
        ("/v/elsewhere", Some(EntryMeta { device: 9, inode: 3, blocks: 8, kind: StorageItemKind::File })),
    ] {
        let kind = scanner.child_step(name, "/v", 0, meta.map(|m| (m.device, m.kind)), 7);
        let Some(kind) = kind else { continue };
        let size = match scanner.enter(name, meta, 7, false, false, 0).0 {
            Entered::Leaf(kb) => kb,
            _ => 0,
        };
        total = scanner.add_child(index, total, name, size, kind, 0);
    }
    let total = scanner.finish_directory("/v", total, StorageItemKind::Directory, 0, true);
    assert_eq!(total, 16);
    assert_eq!(scanner.scanned_items(), 2);
    let report = scanner.root_report("/v", total, 7, 0);
    let inventory = scanner.finish(vec![report], None, None, Some(7), Vec::new());
    assert!(inventory.complete);
    assert_eq!(inventory.scanned_kb, 16);
    assert_eq!(inventory.scanned_on_volume_kb, 16);
    let top: Vec<(&str, u64)> = inventory.top_level.iter().map(|i| (i.path.as_str(), i.size_kb)).collect();
    assert_eq!(top, vec![("/v/data.bin", 16)]);
    assert_eq!(inventory.children.len(), 1);
    let (path, children) = inventory.children.entry(0);
    assert_eq!(path, "/v");
    assert_eq!(children.len(), 2, "the second link is listed with no space of its own");
}

#[test]
fn errors_keep_the_first_paths_and_cancellation_is_incomplete() {
    let mut scanner = InventoryScanner::new();
    for n in 0..25 {
        scanner.record_error(&format!("/bad/{n}"));
    }
    assert_eq!(scanner.errors(), 25);
    assert!(scanner.check_cancel(true));
    assert!(matches!(scanner.enter("/v", folder(1), 7, true, true, 0).0, Entered::Skipped));
    let inventory = scanner.finish(Vec::new(), None, Some("df failed".into()), None, Vec::new());
    assert!(!inventory.complete);
    assert_eq!(inventory.scan_errors, 25);
    assert_eq!(inventory.scan_error_paths.len(), MAX_ERROR_PATHS);
    assert_eq!(inventory.scan_error_paths[0], "/bad/0");
    assert_eq!(inventory.volume_error.as_deref(), Some("df failed"));
}

#[test]
fn volume_accounting_compares_the_walk_with_df() {
    let mut scanner = InventoryScanner::new();
    let r = scanner.root_report("/", 700, 1, 0);
    let other = scanner.root_report("/Volumes/USB", 500, 2, 0);
    let volume = VolumeStats {
        accounting_path: "/".into(),
        filesystem: "/dev/disk1".into(),
        capacity_kb: 1000,
        used_kb: 900,
        free_kb: 100,
        container_free_kb: None,
        device: 1,
    };
    let inventory = scanner.finish(vec![r, other], Some(volume), None, Some(1), vec!["2026-01-01-000000".into()]);
    assert_eq!(inventory.scanned_on_volume_kb, 700);
    assert_eq!(inventory.unaccounted_kb, 200);
    assert_eq!(inventory.inventory_overage_kb, 0);
    assert_eq!(inventory.used_kb(), 900);
    assert_eq!(inventory.free_kb(), 100);
    assert_eq!(inventory.capacity_kb(), 1000);
}

#[test]
fn an_unavailable_inventory_reports_its_error() {
    let inventory = StorageInventory::unavailable("/Volumes/Gone", "worker stopped".into());
    assert!(!inventory.complete);
    assert_eq!(inventory.scan_errors, 1);
    assert_eq!(inventory.scan_error_paths, vec!["/Volumes/Gone"]);
    assert_eq!(inventory.roots.len(), 1);
    assert_eq!(inventory.roots[0].scan_errors, 1);
    assert_eq!(inventory.volume_error.as_deref(), Some("worker stopped"));
    assert_eq!(inventory.used_kb(), 0);
}

#[test]
fn category_texts() {
    assert_eq!(StorageCategory::SystemData.verdict(), "macOS");
    assert_eq!(StorageCategory::PersonalData.label(), "PERSONAL DATA");
    assert_eq!(StorageCategory::Applications.advice(), "Uninstall apps you no longer use.");
    assert_eq!(StorageCategory::TemporaryData.description(), "temporary files");
}

#[test]
fn walk_rules() {
    assert!(should_skip("/Volumes", "/", 0));
    assert!(!should_skip("/Volumes", "/Users", 0));
    assert!(should_skip("/System/Volumes/Data/x", "/", 3));
    assert!(!should_skip("/Users/me", "/", 1));
    assert_eq!(blocks_to_kb(0), 0);
    assert_eq!(blocks_to_kb(3), 2);
    assert_eq!(blocks_to_kb(u64::MAX), u64::MAX / 2);
    assert_eq!(accounting_path("/", "/Users/me", true, true), "/System/Volumes/Data");
    assert_eq!(accounting_path("/", "/Users/me", false, true), "/Users/me");
    assert_eq!(accounting_path("/Volumes/X", "/Users/me", true, true), "/Volumes/X");
}

#[test]
fn inventory_roots_add_the_data_volume_once() {
    let roots = inventory_roots(
        "/",
        "/".into(),
        Some("/System/Volumes/Data".into()),
        Some("/System/Volumes/VM".into()),
        "/Users/me".into(),
        Some(1),
        Some(2),
    );
    assert_eq!(roots, vec!["/", "/System/Volumes/Data", "/System/Volumes/VM"]);
    let roots = inventory_roots("/", "/".into(), None, None, "/Users/me".into(), Some(1), Some(2));
    assert_eq!(roots, vec!["/", "/Users/me"]);
    let roots = inventory_roots("/", "/".into(), None, None, "/Users/me".into(), Some(1), Some(1));
    assert_eq!(roots, vec!["/"]);
    let roots = inventory_roots("/Volumes/X", "/Volumes/X".into(), None, None, "/Users/me".into(), Some(1), Some(2));
    assert_eq!(roots, vec!["/Volumes/X"]);
}

#[test]
fn largest_candidates_are_the_twenty_largest() {
    let candidates: Vec<StorageItem> = (0..30)
        .map(|n| StorageItem::new(&format!("/d/{n:02}"), 100 - n, StorageItemKind::Directory))
        .collect();
    let largest = select_largest_candidates(candidates);
    assert_eq!(largest.len(), 20);
    assert_eq!(largest[0].path, "/d/00");
    assert_eq!(largest[19].path, "/d/19");
}

#[test]
fn age_profile_buckets_and_totals() {
    assert_eq!(age_bucket(0), 0);
    assert_eq!(age_bucket(7 * 86_400), 0);
    assert_eq!(age_bucket(7 * 86_400 + 1), 1);
    assert_eq!(age_bucket(200 * 86_400), 2);
    assert_eq!(age_bucket(u64::MAX), 3);
    let mut profile = AgeProfile::start();
    profile.record_file(64, 0);
    profile.record_file(64, 30 * 86_400);
    profile.record_file(64, u64::MAX);
    profile.record_error();
    assert_eq!(profile.files, 3);
    assert_eq!(profile.total_kb, 192);
    assert_eq!(profile.buckets_kb, [64, 64, 0, 64]);
    assert_eq!(profile.total_kb, profile.buckets_kb.iter().sum::<u64>());
    assert_eq!(profile.newest_age_secs, Some(0));
    assert!(profile.complete);
    profile.stop_early();
    assert!(!profile.complete);
    assert_eq!(profile.errors, 1);
}

#[test]
fn guidance_names_what_is_not_a_cache() {
    let g = decision_guidance(EntryStatus::Ready, "Xcode archives", CacheTier::Routine, "n");
    assert_eq!(g.classification, "BUILD ARCHIVES — NOT A CACHE");
    assert_eq!(g.tone, Tone::Orchid);
    let g = decision_guidance(EntryStatus::Whitelisted, "Xcode archives", CacheTier::Routine, "n");
    assert_eq!(g.classification, "USER WHITELIST — NEVER CLEANED");
    assert_eq!(g.tone, Tone::Blue);
    let g = decision_guidance(EntryStatus::Ready, "npm", CacheTier::Reinstallable, "downloads");
    assert_eq!(g.classification, "LARGE REINSTALLABLE DOWNLOADS");
    assert_eq!(g.impact, "downloads");
    let g = decision_guidance(EntryStatus::Ready, "npm", CacheTier::Routine, "regenerated");
    assert_eq!(g.classification, "REGENERABLE CACHE");
    assert_eq!(g.tone, Tone::Mint);
    assert!(decision_action(true, EntryStatus::Ready).starts_with("Read-only"));
    assert!(decision_action(false, EntryStatus::InUse).starts_with("Deletion is disabled"));
}

#[test]
fn relocation_sources_are_home_folders_never_nested() {
    let mut inventory = StorageInventory::unavailable("/", "x".into());
    inventory.largest = vec![
        StorageItem::new("/Users/me/Movies", 900, StorageItemKind::Directory),
        StorageItem::new("/Users/me/Movies/Clips", 800, StorageItemKind::Directory),
        StorageItem::new("/Users/me/big.iso", 700, StorageItemKind::File),
        StorageItem::new("/Applications/Big.app", 600, StorageItemKind::Directory),
        StorageItem::new("/private/tmp/build", 500, StorageItemKind::Directory),
        StorageItem::new("/Users/me/Gone", 400, StorageItemKind::Directory),
        StorageItem::new("/Users/me", 300, StorageItemKind::Directory),
    ];
    let items = relocation_pool(&inventory);
    let resolved: Vec<Option<String>> = items
        .iter()
        .map(|i| if i.path.ends_with("Gone") { None } else { Some(i.path.clone()) })
        .collect();
    let chosen = select_relocation_sources(items, &resolved, "/Users/me", "/private/tmp");
    let paths: Vec<&str> = chosen.iter().map(|i| i.path.as_str()).collect();
    assert_eq!(paths, vec!["/Users/me/Movies", "/private/tmp/build"]);
    assert!(MAX_RELOCATION_SOURCES == 20);
}

fn startup_volume(used_kb: u64) -> VolumeStats {
    VolumeStats {
        accounting_path: "/".into(),
        filesystem: "/dev/disk1".into(),
        capacity_kb: 1000,
        used_kb,
        free_kb: 1000 - used_kb,
        container_free_kb: None,
        device: 1,
    }
}

#[test]
fn a_walk_cancelled_before_its_first_root_lists_no_roots() {
    let mut scanner = InventoryScanner::new();
    let mut walk = RootWalk::new(vec!["/".to_string(), "/Users/me".to_string()]);
    assert_eq!(walk.next_root(&mut scanner, true), None);
    assert_eq!(walk.next_root(&mut scanner, false), None, "a cancelled walk stays over");
    assert!(walk.reports().is_empty());
    let inventory = scanner.finish_walk(walk, Err("df failed".into()), None, vec!["2026-01-01-000000".into()]);
    assert!(!inventory.complete);
    assert_eq!(inventory.scanned_items, 0);
    assert!(inventory.roots.is_empty() && inventory.top_level.is_empty() && inventory.largest.is_empty());
    assert!(inventory.volume.is_none());
    assert_eq!(inventory.volume_error.as_deref(), Some("df failed"));
    assert!(inventory.local_snapshots.is_empty(), "no snapshots without a volume");
    assert_eq!(inventory.unaccounted_kb, 0);
}

#[test]
fn a_walk_hands_out_its_roots_in_order_and_accounts_the_read_volume() {
    let mut scanner = InventoryScanner::new();
    let mut walk = RootWalk::new(vec!["/".to_string(), "/Volumes/USB".to_string()]);
    assert_eq!(walk.next_root(&mut scanner, false).as_deref(), Some("/"));
    walk.push_report(scanner.root_report("/", 700, 1, 0));
    assert_eq!(walk.next_root(&mut scanner, false).as_deref(), Some("/Volumes/USB"));
    walk.push_report(scanner.root_report("/Volumes/USB", 500, 2, 0));
    assert_eq!(walk.next_root(&mut scanner, false), None);
    let inventory = scanner.finish_walk(walk, Ok(startup_volume(900)), Some(2), vec!["2026-01-01-000000".into()]);
    assert!(inventory.complete);
    assert!(inventory.volume.is_some() && inventory.volume_error.is_none());
    assert_eq!(inventory.roots.len(), 2);
    assert_eq!(inventory.scanned_on_volume_kb, 700, "the read volume's device counts, not the fallback");
    assert_eq!(inventory.unaccounted_kb, 200);
    assert_eq!(inventory.local_snapshots, vec!["2026-01-01-000000".to_string()]);
}

#[test]
fn an_unread_volume_accounts_against_the_fallback_device() {
    let mut scanner = InventoryScanner::new();
    let mut walk = RootWalk::new(vec!["/Volumes/USB".to_string()]);
    walk.next_root(&mut scanner, false);
    walk.push_report(scanner.root_report("/Volumes/USB", 500, 2, 0));
    let inventory = scanner.finish_walk(walk, Err("df failed".into()), Some(2), Vec::new());
    assert_eq!(inventory.scanned_on_volume_kb, 500);
    assert_eq!(inventory.unaccounted_kb, 0);
    assert_eq!(inventory.inventory_overage_kb, 0);
}

#[test]
fn progress_counts_never_go_down_during_a_walk() {
    let mut scanner = InventoryScanner::new();
    let mut seen = vec![scanner.progress("/v")];
    let (root, _) = scanner.enter("/v", folder(1), 7, true, false, 0);
    seen.push(scanner.progress("/v"));
    let Entered::Directory { own_kb, folder: index } = root else { panic!("{root:?}") };
    let mut total = own_kb;
    for (name, meta) in [("/v/a.bin", file(2, 16)), ("/v/a-link.bin", file(2, 16)), ("/v/b.bin", file(3, 8))] {
        if let (Entered::Leaf(kb), _) = scanner.enter(name, meta, 7, false, false, 0) {
            total = scanner.add_child(index, total, name, kb, StorageItemKind::File, 1);
        }
        seen.push(scanner.progress(name));
    }
    scanner.child_step("/v/gone", "/v", 1, None, 7);
    seen.push(scanner.progress("/v/gone"));
    for pair in seen.windows(2) {
        assert!(pair[0].items <= pair[1].items);
        assert!(pair[0].size_kb <= pair[1].size_kb);
        assert!(pair[0].errors <= pair[1].errors);
    }
    let last = seen.last().unwrap();
    assert_eq!((last.items, last.errors), (3, 1));
}
