use diskray::measure::{slice_continues, CacheMeasure, MAX_ITEMS_PER_SLICE};
use diskray::scanner::EntryMeta;
use diskray::session::EntryStatus;
use diskray::storage::StorageItemKind;

fn file(inode: u64, blocks: u64) -> EntryMeta {
    EntryMeta { device: 3, inode, blocks, kind: StorageItemKind::File }
}

fn folder(inode: u64) -> EntryMeta {
    EntryMeta { device: 3, inode, blocks: 0, kind: StorageItemKind::Directory }
}

/// Runs one slice over the remaining entries of the directory read last.
fn run_slice(measure: &mut CacheMeasure, pending: &mut Vec<EntryMeta>) -> bool {
    let mut done = 0;
    while slice_continues(done, 0) {
        if measure.finished() {
            return true;
        }
        match pending.pop() {
            Some(meta) => {
                measure.inspect(Some(meta));
            }
            None => measure.directory_done(),
        }
        done += 1;
    }
    measure.finished()
}

#[test]
fn a_measure_advances_in_bounded_slices() {
    let mut measure = CacheMeasure::new(Some(folder(1)), true);
    let mut pending: Vec<EntryMeta> = (0..300).map(|i| file(10 + i, 8)).collect();
    let finished = run_slice(&mut measure, &mut pending);
    assert!(!finished);
    assert_eq!(measure.inspected_items(), MAX_ITEMS_PER_SLICE as u64);
    assert!(measure.size_kb() > 0);
    while !run_slice(&mut measure, &mut pending) {}
    assert_eq!(measure.inspected_items(), 300);
    assert_eq!(measure.size_kb(), 1200);
    assert_eq!(measure.status(EntryStatus::Ready), EntryStatus::Ready);
}

#[test]
fn a_slice_stops_after_its_time() {
    assert!(slice_continues(0, 7));
    assert!(!slice_continues(0, 8));
    assert!(!slice_continues(256, 0));
}

#[test]
fn hard_links_are_counted_once() {
    let mut measure = CacheMeasure::new(Some(folder(1)), true);
    assert!(!measure.inspect(Some(file(5, 64))));
    assert!(!measure.inspect(Some(file(5, 64))));
    assert!(measure.inspect(Some(folder(6))));
    assert!(!measure.inspect(Some(folder(6))));
    assert!(!measure.inspect(Some(folder(1))));
    assert_eq!(measure.size_kb(), 32);
    assert_eq!(measure.inspected_items(), 5);
}

#[test]
fn an_incomplete_measure_is_not_marked_ready() {
    let mut measure = CacheMeasure::new(Some(folder(1)), true);
    assert!(measure.inspect(Some(folder(2))));
    measure.directory_opened(false);
    measure.directory_done();
    assert!(measure.finished());
    assert_eq!(measure.errors(), 1);
    assert_eq!(measure.status(EntryStatus::Ready), EntryStatus::ScanError);
    let unreadable_root = CacheMeasure::new(None, false);
    assert!(unreadable_root.finished());
    assert_eq!(unreadable_root.errors(), 2);
    let mut lost = CacheMeasure::new(Some(folder(1)), true);
    lost.inspect(None);
    lost.read_failed();
    assert_eq!(lost.errors(), 2);
    assert_eq!(lost.status(EntryStatus::Optional), EntryStatus::ScanError);
}
