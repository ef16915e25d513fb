//! The decisions of the inventory walk.
//!
//! The walk itself reads the filesystem and belongs to the caller: it reads
//! metadata and directories and hands each observation to the scanner, which
//! decides what is counted, what is listed and what is kept, and finally
//! assembles the report. The walk never follows symlinks, never leaves the
//! device of its root, and counts every (device, inode) once.
use vstd::prelude::*;
use std::collections::HashSet;
use crate::storage::{
    ChildIndex, ItemView, ScanProgress, StorageInventory, StorageItem, StorageItemKind,
    StorageRoot, VolumeStats, blocks_to_kb, item_views, report_order, sat_sub, should_skip,
    skips, sort_items, select_largest_candidates, classify,
};
use crate::sort::merge_sort;

verus! {

broadcast use vstd::std_specs::hash::group_hash_axioms;

/// The candidate list is cut back to this many items...
pub const MAX_CANDIDATES: usize = 512;

/// ...whenever it reaches this many.
pub const CANDIDATE_LIMIT: usize = 1024;

/// At most this many error paths are kept.
pub const MAX_ERROR_PATHS: usize = 20;

/// At most this many top-level items are reported.
pub const MAX_TOP_LEVEL_ITEMS: usize = 20;

/// What `symlink_metadata` says about an entry.
#[derive(Clone, Copy, Debug)]
pub struct EntryMeta {
    pub device: u64,
    pub inode: u64,
    /// Allocated 512-byte blocks.
    pub blocks: u64,
    pub kind: StorageItemKind,
}

/// What entering a path led to.
#[derive(Clone, Copy, Debug)]
pub enum Entered {
    /// Nothing was counted: the walk was cancelled, the metadata could not be
    /// read, the entry is on another device, or it was counted before.
    Skipped,
    /// A file or symlink of this many kilobytes was counted.
    Leaf(u64),
    /// A directory was counted with its own kilobytes; its children are
    /// listed in the index at position `folder`.
    Directory { own_kb: u64, folder: usize },
}

/// The (device, inode) pair as one number.
pub open spec fn inode_key(device: u64, inode: u64) -> u128 {
    (device as int * 0x1_0000_0000_0000_0000 + inode as int) as u128
}

/// The state of an inventory walk.
pub struct InventoryScanner {
    seen: HashSet<u128>,
    top_level: Vec<StorageItem>,
    candidates: Vec<StorageItem>,
    children: ChildIndex,
    scanned_kb: u64,
    scanned_items: u64,
    errors: u64,
    error_paths: Vec<String>,
    cancelled: bool,
}

/// The minimum of two integers.
pub open spec fn min(a: int, b: int) -> int {
    if a < b {
        a
    } else {
        b
    }
}

/// A step of the walk keeps or raises the counts that a progress report
/// shows: entries, kilobytes and errors.
pub open spec fn counts_grew(before: InventoryScanner, after: InventoryScanner) -> bool {
    &&& before.items() <= after.items()
    &&& before.kilobytes() <= after.kilobytes()
    &&& before.error_count() <= after.error_count()
}

impl InventoryScanner {
    /// The invariant of the walk: every counted entry is a distinct (device,
    /// inode) pair, the kept error paths are the first errors up to the cap,
    /// and the candidate list stays below its limit.
    pub closed spec fn wf(&self) -> bool {
        &&& self.seen@.finite()
        &&& self.scanned_items == self.seen@.len()
        &&& self.error_paths@.len() == min(self.errors as int, MAX_ERROR_PATHS as int)
        &&& self.candidates@.len() < CANDIDATE_LIMIT
    }

    /// Entries counted so far.
    pub closed spec fn items(&self) -> u64 {
        self.scanned_items
    }

    /// Kilobytes counted so far.
    pub closed spec fn kilobytes(&self) -> u64 {
        self.scanned_kb
    }

    /// Errors recorded so far.
    pub closed spec fn error_count(&self) -> u64 {
        self.errors
    }

    /// Whether the walk was cancelled.
    pub closed spec fn was_cancelled(&self) -> bool {
        self.cancelled
    }

    /// The kept error paths.
    pub closed spec fn kept_error_paths(&self) -> Seq<Seq<char>> {
        self.error_paths@.map_values(|p: String| p@)
    }

    /// The (device, inode) pairs counted so far.
    pub closed spec fn counted(&self) -> Set<u128> {
        self.seen@
    }

    /// The candidates for the largest items.
    pub closed spec fn candidate_views(&self) -> Seq<ItemView> {
        item_views(self.candidates@)
    }

    /// The top-level items found so far.
    pub closed spec fn top_level_views(&self) -> Seq<ItemView> {
        item_views(self.top_level@)
    }

    /// The direct-child index so far.
    pub closed spec fn index(&self) -> Seq<(Seq<char>, Seq<ItemView>)> {
        self.children@
    }

    /// A scanner before the walk.
    pub fn new() -> (res: InventoryScanner)
        ensures
            res.wf(),
            res.items() == 0,
            res.kilobytes() == 0,
            res.error_count() == 0,
            !res.was_cancelled(),
            res.counted() == Set::<u128>::empty(),
            res.candidate_views().len() == 0,
            res.top_level_views().len() == 0,
            res.index().len() == 0,
    {
        let res = InventoryScanner {
            seen: HashSet::new(),
            top_level: Vec::new(),
            candidates: Vec::new(),
            children: ChildIndex::new(),
            scanned_kb: 0,
            scanned_items: 0,
            errors: 0,
            error_paths: Vec::new(),
            cancelled: false,
        };
        assert(item_views(res.candidates@) =~= Seq::<ItemView>::empty());
        assert(item_views(res.top_level@) =~= Seq::<ItemView>::empty());
        res
    }

    /// A measured checkpoint at `path`.
    pub fn progress(&self, path: &str) -> (res: ScanProgress)
        ensures
            res.items == self.items(),
            res.size_kb == self.kilobytes(),
            res.errors == self.error_count(),
            res.path@ == path@,
    {
        ScanProgress {
            items: self.scanned_items,
            size_kb: self.scanned_kb,
            errors: self.errors,
            path: path.to_owned(),
        }
    }

    /// Notes a cancellation request; returns whether the walk must stop.
    pub fn check_cancel(&mut self, requested: bool) -> (res: bool)
        requires
            old(self).wf(),
        ensures
            final(self).wf(),
            counts_grew(*old(self), *final(self)),
            res == requested,
            final(self).was_cancelled() == (old(self).was_cancelled() || requested),
            final(self).items() == old(self).items(),
            final(self).kilobytes() == old(self).kilobytes(),
            final(self).error_count() == old(self).error_count(),
            final(self).counted() == old(self).counted(),
            final(self).candidate_views() == old(self).candidate_views(),
            final(self).top_level_views() == old(self).top_level_views(),
            final(self).index() == old(self).index(),
            final(self).kept_error_paths() == old(self).kept_error_paths(),
    {
        if requested {
            self.cancelled = true;
        }
        requested
    }

    /// Records that `path` could not be read; the first errors keep their
    /// paths.
    pub fn record_error(&mut self, path: &str)
        requires
            old(self).wf(),
            old(self).error_count() < u64::MAX,
        ensures
            final(self).wf(),
            counts_grew(*old(self), *final(self)),
            final(self).error_count() == old(self).error_count() + 1,
            final(self).kept_error_paths() == (if old(self).kept_error_paths().len()
                < MAX_ERROR_PATHS {
                old(self).kept_error_paths().push(path@)
            } else {
                old(self).kept_error_paths()
            }),
            final(self).items() == old(self).items(),
            final(self).kilobytes() == old(self).kilobytes(),
            final(self).was_cancelled() == old(self).was_cancelled(),
            final(self).counted() == old(self).counted(),
            final(self).candidate_views() == old(self).candidate_views(),
            final(self).top_level_views() == old(self).top_level_views(),
            final(self).index() == old(self).index(),
    {
        self.errors = self.errors + 1;
        if self.error_paths.len() < MAX_ERROR_PATHS {
            let ghost before = self.error_paths@;
            self.error_paths.push(path.to_owned());
            assert(self.error_paths@.map_values(|p: String| p@) =~= before.map_values(
                |p: String| p@,
            ).push(path@));
        }
    }

    /// Adds an item to the candidates for the largest items. When the list
    /// reaches its limit it is sorted and cut back to the largest
    /// `MAX_CANDIDATES`.
    pub fn add_candidate(&mut self, item: StorageItem)
        requires
            old(self).wf(),
        ensures
            final(self).wf(),
            counts_grew(*old(self), *final(self)),
            final(self).candidate_views() == (if old(self).candidate_views().len() + 1
                >= CANDIDATE_LIMIT {
                merge_sort(old(self).candidate_views().push(item@), report_order()).take(
                    MAX_CANDIDATES as int,
                )
            } else {
                old(self).candidate_views().push(item@)
            }),
            final(self).items() == old(self).items(),
            final(self).kilobytes() == old(self).kilobytes(),
            final(self).error_count() == old(self).error_count(),
            final(self).was_cancelled() == old(self).was_cancelled(),
            final(self).counted() == old(self).counted(),
            final(self).top_level_views() == old(self).top_level_views(),
            final(self).index() == old(self).index(),
            final(self).kept_error_paths() == old(self).kept_error_paths(),
    {
        let ghost before = item_views(self.candidates@);
        let ghost iv = item@;
        self.candidates.push(item);
        assert(item_views(self.candidates@) =~= before.push(iv));
        if self.candidates.len() >= CANDIDATE_LIMIT {
            let mut all: Vec<StorageItem> = Vec::new();
            std::mem::swap(&mut all, &mut self.candidates);
            let mut sorted = sort_items(all);
            proof {
                crate::sort::lemma_merge_sort_len(before.push(iv), report_order());
            }
            sorted.truncate(MAX_CANDIDATES);
            assert(item_views(sorted@) =~= merge_sort(before.push(iv), report_order()).take(
                MAX_CANDIDATES as int,
            ));
            self.candidates = sorted;
        }
    }

    /// Enters `path` with what its metadata says (`None` when it could not be
    /// read). `since_report_ms` is the time since the last progress report;
    /// the second result asks for a report now.
    pub fn enter(
        &mut self,
        path: &str,
        meta: Option<EntryMeta>,
        device: u64,
        is_root: bool,
        cancel_requested: bool,
        since_report_ms: u64,
    ) -> (res: (Entered, bool))
        requires
            old(self).wf(),
            old(self).error_count() < u64::MAX,
            old(self).items() < u64::MAX,
        ensures
            final(self).wf(),
            counts_grew(*old(self), *final(self)),
            final(self).top_level_views() == old(self).top_level_views(),
            cancel_requested ==> res.0 is Skipped && !res.1 && final(self).was_cancelled()
                && final(self).items() == old(self).items() && final(self).error_count() == old(
                self).error_count() && final(self).kilobytes() == old(self).kilobytes()
                && final(self).counted() == old(self).counted() && final(self).candidate_views()
                == old(self).candidate_views() && final(self).index() == old(self).index()
                && final(self).kept_error_paths() == old(self).kept_error_paths(),
            !cancel_requested ==> final(self).was_cancelled() == old(self).was_cancelled(),
            !cancel_requested ==> match meta {
                None => {
                    &&& res.0 is Skipped
                    &&& !res.1
                    &&& final(self).error_count() == old(self).error_count() + 1
                    &&& final(self).items() == old(self).items()
                    &&& final(self).counted() == old(self).counted()
                },
                Some(m) => if m.device != device || old(self).counted().contains(
                    inode_key(m.device, m.inode),
                ) {
                    &&& res.0 is Skipped
                    &&& !res.1
                    &&& final(self).error_count() == old(self).error_count()
                    &&& final(self).items() == old(self).items()
                    &&& final(self).kilobytes() == old(self).kilobytes()
                    &&& final(self).counted() == old(self).counted()
                    &&& final(self).candidate_views() == old(self).candidate_views()
                    &&& final(self).index() == old(self).index()
                } else {
                    &&& final(self).error_count() == old(self).error_count()
                    &&& final(self).items() == old(self).items() + 1
                    &&& final(self).counted() == old(self).counted().insert(
                        inode_key(m.device, m.inode),
                    )
                    &&& final(self).kilobytes() == min(
                        old(self).kilobytes() + own_kb_of(m.blocks),
                        u64::MAX as int,
                    )
                    &&& res.1 == (final(self).items() == 1 || since_report_ms >= 200)
                    &&& if m.kind == StorageItemKind::Directory {
                        &&& (res.0 matches Entered::Directory { own_kb, folder } && own_kb
                            == own_kb_of(m.blocks) && folder == old(self).index().len())
                        &&& final(self).index() == old(self).index().push(
                            (path@, Seq::<ItemView>::empty()),
                        )
                        &&& final(self).candidate_views() == old(self).candidate_views()
                    } else {
                        &&& res.0 == Entered::Leaf(own_kb_of(m.blocks) as u64)
                        &&& final(self).index() == old(self).index()
                        &&& if own_kb_of(m.blocks) > 0 && !is_root {
                            final(self).candidate_views() == candidates_after(
                                old(self).candidate_views(),
                                ItemView {
                                    path: path@,
                                    size_kb: own_kb_of(m.blocks) as u64,
                                    kind: m.kind,
                                    category: classify(path@),
                                },
                            )
                        } else {
                            final(self).candidate_views() == old(self).candidate_views()
                        }
                    }
                },
            },
    {
        if self.check_cancel(cancel_requested) {
            return (Entered::Skipped, false);
        }
        let m = match meta {
            Some(m) => m,
            None => {
                self.record_error(path);
                return (Entered::Skipped, false);
            },
        };
        if m.device != device {
            return (Entered::Skipped, false);
        }
        let key: u128 = (m.device as u128) * 0x1_0000_0000_0000_0000u128 + (m.inode as u128);
        assert(key == inode_key(m.device, m.inode));
        let fresh = self.seen.insert(key);
        if !fresh {
            return (Entered::Skipped, false);
        }
        self.scanned_items = self.scanned_items + 1;
        let own_kb = blocks_to_kb(m.blocks);
        self.scanned_kb = self.scanned_kb.saturating_add(own_kb);
        let report = self.scanned_items == 1 || since_report_ms >= 200;
        if m.kind != StorageItemKind::Directory {
            if own_kb > 0 && !is_root {
                let item = StorageItem::new(path, own_kb, m.kind);
                self.add_candidate(item);
            }
            return (Entered::Leaf(own_kb), report);
        }
        let folder = self.children.push_folder(path.to_owned());
        (Entered::Directory { own_kb, folder }, report)
    }

    /// Decides about a child of a directory during the walk of `scan_root`
    /// at `depth`: `None` when it is skipped (a path the walk leaves out,
    /// unreadable metadata, which is recorded, or another device), else the
    /// kind to visit it as.
    pub fn child_step(
        &mut self,
        child: &str,
        scan_root: &str,
        depth: usize,
        meta: Option<(u64, StorageItemKind)>,
        device: u64,
    ) -> (res: Option<StorageItemKind>)
        requires
            old(self).wf(),
            old(self).error_count() < u64::MAX,
        ensures
            final(self).wf(),
            counts_grew(*old(self), *final(self)),
            skips(child@, scan_root@, depth as int) ==> res is None && final(self).error_count()
                == old(self).error_count(),
            !skips(child@, scan_root@, depth as int) && meta is None ==> res is None && final(self).error_count() == old(self).error_count() + 1 && final(self).kept_error_paths() == (
            if old(self).kept_error_paths().len() < MAX_ERROR_PATHS {
                old(self).kept_error_paths().push(child@)
            } else {
                old(self).kept_error_paths()
            }),
            !skips(child@, scan_root@, depth as int) && meta is Some ==> final(self).error_count()
                == old(self).error_count(),
            !skips(child@, scan_root@, depth as int) ==> (meta matches Some((d, k)) ==> res == (if d
                == device {
                Some(k)
            } else {
                None
            })),
            final(self).items() == old(self).items(),
            final(self).kilobytes() == old(self).kilobytes(),
            final(self).was_cancelled() == old(self).was_cancelled(),
            final(self).counted() == old(self).counted(),
            final(self).candidate_views() == old(self).candidate_views(),
            final(self).top_level_views() == old(self).top_level_views(),
            final(self).index() == old(self).index(),
    {
        if should_skip(child, scan_root, depth) {
            return None;
        }
        match meta {
            None => {
                self.record_error(child);
                None
            },
            Some((d, k)) => if d == device {
                Some(k)
            } else {
                None
            },
        }
    }

    /// Lists a visited child of the folder at index position `folder` and
    /// returns the folder's new total. Children of a root with some space are
    /// top-level items.
    pub fn add_child(
        &mut self,
        folder: usize,
        total_kb: u64,
        child: &str,
        child_kb: u64,
        kind: StorageItemKind,
        depth: usize,
    ) -> (res: u64)
        requires
            old(self).wf(),
            folder < old(self).index().len(),
        ensures
            final(self).wf(),
            counts_grew(*old(self), *final(self)),
            res == min(total_kb + child_kb, u64::MAX as int),
            final(self).index() == old(self).index().update(
                folder as int,
                (
                    old(self).index()[folder as int].0,
                    old(self).index()[folder as int].1.push(
                        ItemView { path: child@, size_kb: child_kb, kind, category: classify(child@) },
                    ),
                ),
            ),
            final(self).top_level_views() == (if depth == 0 && child_kb > 0 {
                old(self).top_level_views().push(
                    ItemView { path: child@, size_kb: child_kb, kind, category: classify(child@) },
                )
            } else {
                old(self).top_level_views()
            }),
            final(self).items() == old(self).items(),
            final(self).kilobytes() == old(self).kilobytes(),
            final(self).error_count() == old(self).error_count(),
            final(self).was_cancelled() == old(self).was_cancelled(),
            final(self).counted() == old(self).counted(),
            final(self).candidate_views() == old(self).candidate_views(),
            final(self).kept_error_paths() == old(self).kept_error_paths(),
    {
        let total = total_kb.saturating_add(child_kb);
        let item = StorageItem::new(child, child_kb, kind);
        if depth == 0 && child_kb > 0 {
            let ghost before = item_views(self.top_level@);
            let top = item.duplicate();
            let ghost tv = top@;
            self.top_level.push(top);
            assert(item_views(self.top_level@) =~= before.push(tv));
        }
        self.children.push_child(folder, item);
        total
    }

    /// Finishes a directory with `total_kb` under it; a non-root directory at
    /// depth two or more with some space becomes a candidate.
    pub fn finish_directory(
        &mut self,
        path: &str,
        total_kb: u64,
        kind: StorageItemKind,
        depth: usize,
        is_root: bool,
    ) -> (res: u64)
        requires
            old(self).wf(),
        ensures
            final(self).wf(),
            counts_grew(*old(self), *final(self)),
            res == total_kb,
            (!is_root && total_kb > 0 && depth >= 2) ==> final(self).candidate_views()
                == candidates_after(
                old(self).candidate_views(),
                ItemView { path: path@, size_kb: total_kb, kind, category: classify(path@) },
            ),
            !(!is_root && total_kb > 0 && depth >= 2) ==> final(self).candidate_views() == old(self).candidate_views(),
            final(self).items() == old(self).items(),
            final(self).kilobytes() == old(self).kilobytes(),
            final(self).error_count() == old(self).error_count(),
            final(self).was_cancelled() == old(self).was_cancelled(),
            final(self).counted() == old(self).counted(),
            final(self).top_level_views() == old(self).top_level_views(),
            final(self).index() == old(self).index(),
            final(self).kept_error_paths() == old(self).kept_error_paths(),
    {
        if !is_root && total_kb > 0 && depth >= 2 {
            self.add_candidate(StorageItem::new(path, total_kb, kind));
        }
        total_kb
    }

    /// The report for a root whose metadata could not be read; the error is
    /// recorded.
    pub fn root_unreadable(&mut self, root: &str) -> (res: StorageRoot)
        requires
            old(self).wf(),
            old(self).error_count() < u64::MAX,
        ensures
            final(self).wf(),
            counts_grew(*old(self), *final(self)),
            final(self).error_count() == old(self).error_count() + 1,
            res.path@ == root@,
            res.size_kb == 0,
            res.device == 0,
            res.scan_errors == 1,
            final(self).items() == old(self).items(),
    {
        self.record_error(root);
        StorageRoot { path: root.to_owned(), size_kb: 0, device: 0, scan_errors: 1 }
    }

    /// The report for a walked root: its size, device, and the errors since
    /// `errors_before`.
    pub fn root_report(&self, root: &str, size_kb: u64, device: u64, errors_before: u64) -> (res:
        StorageRoot)
        ensures
            res.path@ == root@,
            res.size_kb == size_kb,
            res.device == device,
            res.scan_errors == sat_sub(self.error_count() as int, errors_before as int),
    {
        StorageRoot {
            path: root.to_owned(),
            size_kb,
            device,
            scan_errors: self.errors.saturating_sub(errors_before),
        }
    }

    /// Errors recorded so far.
    pub fn errors(&self) -> (res: u64)
        ensures
            res == self.error_count(),
    {
        self.errors
    }

    /// Entries counted so far.
    pub fn scanned_items(&self) -> (res: u64)
        ensures
            res == self.items(),
    {
        self.scanned_items
    }

    /// Whether the walk was cancelled.
    pub fn cancelled(&self) -> (res: bool)
        ensures
            res == self.was_cancelled(),
    {
        self.cancelled
    }
}

/// Kilobytes of `blocks` allocated 512-byte blocks.
pub open spec fn own_kb_of(blocks: u64) -> int {
    (if blocks == u64::MAX {
        blocks as int
    } else {
        blocks + 1
    }) / 2
}

/// The candidate list after adding `item`.
pub open spec fn candidates_after(c: Seq<ItemView>, item: ItemView) -> Seq<ItemView> {
    if c.len() + 1 >= CANDIDATE_LIMIT {
        merge_sort(c.push(item), report_order()).take(MAX_CANDIDATES as int)
    } else {
        c.push(item)
    }
}

/// The total size of the roots on `device`.
pub open spec fn size_on_device(roots: Seq<StorageRoot>, device: u64) -> int
    decreases roots.len(),
{
    if roots.len() == 0 {
        0
    } else {
        size_on_device(roots.drop_last(), device) + if roots.last().device == device {
            roots.last().size_kb as int
        } else {
            0
        }
    }
}

/// What the walk measured on the accounted volume.
pub open spec fn measured_on_volume(roots: Seq<StorageRoot>, accounting_device: Option<u64>) -> int {
    match accounting_device {
        Some(d) => size_on_device(roots, d),
        None => 0,
    }
}

proof fn lemma_size_on_device_nonneg(roots: Seq<StorageRoot>, device: u64)
    ensures
        size_on_device(roots, device) >= 0,
    decreases roots.len(),
{
    if roots.len() > 0 {
        lemma_size_on_device_nonneg(roots.drop_last(), device);
    }
}

/// Sums the sizes of the roots on `device`.
fn sum_on_device(roots: &Vec<StorageRoot>, device: u64) -> (res: u64)
    requires
        size_on_device(roots@, device) <= u64::MAX,
    ensures
        res == size_on_device(roots@, device),
{
    let mut total: u64 = 0;
    let mut i: usize = 0;
    while i < roots.len()
        invariant
            i <= roots@.len(),
            size_on_device(roots@, device) <= u64::MAX,
            total == size_on_device(roots@.take(i as int), device),
        decreases roots@.len() - i,
    {
        proof {
            assert(roots@.take(i + 1).drop_last() =~= roots@.take(i as int));
            lemma_size_on_device_partial(roots@, device, i + 1);
        }
        if roots[i].device == device {
            total = total + roots[i].size_kb;
        }
        i = i + 1;
    }
    assert(roots@.take(roots@.len() as int) =~= roots@);
    total
}

proof fn lemma_size_on_device_partial(roots: Seq<StorageRoot>, device: u64, k: int)
    requires
        0 <= k <= roots.len(),
    ensures
        size_on_device(roots.take(k), device) <= size_on_device(roots, device),
    decreases roots.len(),
{
    if k < roots.len() {
        lemma_size_on_device_partial(roots.drop_last(), device, k);
        assert(roots.drop_last().take(k) =~= roots.take(k));
    } else {
        assert(roots.take(k) =~= roots);
    }
    if roots.len() > 0 {
        lemma_size_on_device_nonneg(roots.drop_last(), device);
    }
}

impl InventoryScanner {
    /// Assembles the report: the walk's counts, what it measured on the
    /// accounted volume against what the volume reports as used, the twenty
    /// largest top-level items and candidates, every folder's children
    /// largest first, and whether the walk was complete (not cancelled and
    /// without errors).
    pub fn finish(
        self,
        roots: Vec<StorageRoot>,
        volume: Option<VolumeStats>,
        volume_error: Option<String>,
        accounting_device: Option<u64>,
        local_snapshots: Vec<String>,
    ) -> (res: StorageInventory)
        requires
            self.wf(),
            measured_on_volume(roots@, accounting_device) <= u64::MAX,
        ensures
            res.scanned_kb == self.kilobytes(),
            res.scanned_items == self.items(),
            res.scan_errors == self.error_count(),
            res.scan_error_paths@.map_values(|p: String| p@) == self.kept_error_paths(),
            res.complete == (!self.was_cancelled() && self.error_count() == 0),
            res.roots@ == roots@,
            res.volume == volume,
            res.volume_error == volume_error,
            res.local_snapshots@ == local_snapshots@,
            res.scanned_on_volume_kb == measured_on_volume(roots@, accounting_device),
            res.unaccounted_kb == match volume {
                Some(v) => sat_sub(v.used_kb as int, measured_on_volume(roots@, accounting_device)),
                None => 0,
            },
            res.inventory_overage_kb == match volume {
                Some(v) => sat_sub(measured_on_volume(roots@, accounting_device), v.used_kb as int),
                None => 0,
            },
            item_views(res.top_level@) == merge_sort(self.top_level_views(), report_order()).take(
                min(self.top_level_views().len() as int, MAX_TOP_LEVEL_ITEMS as int),
            ),
            item_views(res.largest@) == merge_sort(self.candidate_views(), report_order()).take(
                min(self.candidate_views().len() as int, 20),
            ),
            res.children@.len() == self.index().len(),
            forall|i: int|
                #![trigger res.children@[i]]
                0 <= i < res.children@.len() ==> res.children@[i].0 == self.index()[i].0
                    && res.children@[i].1 == merge_sort(self.index()[i].1, report_order()),
    {
        assert(self.index() == self.children@);
        let scanned_on_volume_kb = match accounting_device {
            Some(d) => sum_on_device(&roots, d),
            None => 0,
        };
        let (unaccounted_kb, inventory_overage_kb) = match &volume {
            Some(v) => (
                v.used_kb.saturating_sub(scanned_on_volume_kb),
                scanned_on_volume_kb.saturating_sub(v.used_kb),
            ),
            None => (0, 0),
        };
        let ghost top0 = item_views(self.top_level@);
        let mut top_level = sort_items(self.top_level);
        proof {
            crate::sort::lemma_merge_sort_len(top0, report_order());
        }
        if top_level.len() > MAX_TOP_LEVEL_ITEMS {
            top_level.truncate(MAX_TOP_LEVEL_ITEMS);
        }
        assert(item_views(top_level@) =~= merge_sort(top0, report_order()).take(
            min(top0.len() as int, MAX_TOP_LEVEL_ITEMS as int),
        ));
        let largest = select_largest_candidates(self.candidates);
        let complete = !self.cancelled && self.errors == 0;
        let ghost idx = self.index();
        let mut children = self.children;
        children.sort_children();
        let ghost children_view = children@;
        assert forall|i: int| 0 <= i < children@.len() implies #[trigger] children@[i].0 == idx[i].0
            && children@[i].1 == merge_sort(idx[i].1, report_order()) by {}
        let res = StorageInventory {
            volume,
            volume_error,
            roots,
            scanned_kb: self.scanned_kb,
            scanned_on_volume_kb,
            unaccounted_kb,
            inventory_overage_kb,
            local_snapshots,
            scanned_items: self.scanned_items,
            scan_errors: self.errors,
            scan_error_paths: self.error_paths,
            complete,
            top_level,
            largest,
            children,
        };
        assert(res.children@ == children_view);
        assert(idx == self.index());
        assert forall|i: int| #![trigger res.children@[i]] 0 <= i < res.children@.len() implies res.children@[i].0
            == idx[i].0 && res.children@[i].1 == merge_sort(idx[i].1, report_order()) by {
            assert(children_view[i].0 == idx[i].0);
        }
        res
    }
}

/// Throughout a walk, each (device, inode) pair is counted once, so the
/// item count is the number of distinct pairs seen, and the kept error paths
/// are the first errors, at most `MAX_ERROR_PATHS` of them.
pub proof fn lemma_scanner_counts(scanner: InventoryScanner)
    requires
        scanner.wf(),
    ensures
        scanner.counted().finite(),
        scanner.items() == scanner.counted().len(),
        scanner.kept_error_paths().len() == min(
            scanner.error_count() as int,
            MAX_ERROR_PATHS as int,
        ),
{
}

/// The device the report accounts against: the volume's when it was read,
/// else the one found for the accounting path.
pub open spec fn accounting_device(volume: Result<VolumeStats, String>, fallback: Option<u64>) -> Option<u64> {
    match volume {
        Ok(v) => Some(v.device),
        Err(_) => fallback,
    }
}

/// Where the walk stands among its roots: the roots handed out so far,
/// and the reports of those walked.
pub struct RootWalk {
    roots: Vec<String>,
    next: usize,
    reports: Vec<StorageRoot>,
    over: bool,
}

impl RootWalk {
    /// The roots to walk, in order.
    pub closed spec fn root_list(&self) -> Seq<Seq<char>> {
        self.roots@.map_values(|r: String| r@)
    }

    /// How many roots were handed out.
    pub closed spec fn handed_out(&self) -> int {
        self.next as int
    }

    /// The reports of the walked roots.
    pub closed spec fn report_list(&self) -> Seq<StorageRoot> {
        self.reports@
    }

    /// No more roots are handed out.
    pub closed spec fn is_over(&self) -> bool {
        self.over
    }

    /// At most one report per root handed out.
    pub closed spec fn wf(&self) -> bool {
        &&& self.next <= self.roots@.len()
        &&& self.reports@.len() <= self.next
    }

    /// A walk of `roots` before its first root.
    pub fn new(roots: Vec<String>) -> (res: RootWalk)
        ensures
            res.wf(),
            res.root_list() == roots@.map_values(|r: String| r@),
            res.handed_out() == 0,
            res.report_list() == Seq::<StorageRoot>::empty(),
            !res.is_over(),
    {
        RootWalk { roots, next: 0, reports: Vec::new(), over: false }
    }

    /// The next root to walk. Before each root a cancel request ends the
    /// walk, and the scanner records it; the end of the list ends it too.
    pub fn next_root(&mut self, scanner: &mut InventoryScanner, cancel_requested: bool) -> (res: Option<String>)
        requires
            old(self).wf(),
            old(scanner).wf(),
        ensures
            final(self).wf(),
            final(scanner).wf(),
            final(self).root_list() == old(self).root_list(),
            final(self).report_list() == old(self).report_list(),
            old(self).is_over() || old(self).handed_out() >= old(self).root_list().len() ==> {
                &&& res is None
                &&& final(self).is_over()
                &&& final(self).handed_out() == old(self).handed_out()
                &&& final(scanner).was_cancelled() == old(scanner).was_cancelled()
            },
            !old(self).is_over() && old(self).handed_out() < old(self).root_list().len()
                ==> if cancel_requested {
                &&& res is None
                &&& final(self).is_over()
                &&& final(self).handed_out() == old(self).handed_out()
                &&& final(scanner).was_cancelled()
            } else {
                &&& res matches Some(r) && r@ == old(self).root_list()[old(self).handed_out()]
                &&& !final(self).is_over()
                &&& final(self).handed_out() == old(self).handed_out() + 1
                &&& final(scanner).was_cancelled() == old(scanner).was_cancelled()
            },
            final(scanner).items() == old(scanner).items(),
            final(scanner).kilobytes() == old(scanner).kilobytes(),
            final(scanner).error_count() == old(scanner).error_count(),
            final(scanner).counted() == old(scanner).counted(),
            final(scanner).candidate_views() == old(scanner).candidate_views(),
            final(scanner).top_level_views() == old(scanner).top_level_views(),
            final(scanner).index() == old(scanner).index(),
            final(scanner).kept_error_paths() == old(scanner).kept_error_paths(),
    {
        if self.over || self.next >= self.roots.len() {
            self.over = true;
            return None;
        }
        if scanner.check_cancel(cancel_requested) {
            self.over = true;
            return None;
        }
        let root = self.roots[self.next].clone();
        self.next = self.next + 1;
        Some(root)
    }

    /// The reports of the walked roots.
    pub fn reports(&self) -> (res: &Vec<StorageRoot>)
        ensures
            res@ == self.report_list(),
    {
        &self.reports
    }

    /// The report of the root handed out last.
    pub fn push_report(&mut self, report: StorageRoot)
        requires
            old(self).wf(),
            old(self).report_list().len() < old(self).handed_out(),
        ensures
            final(self).wf(),
            final(self).report_list() == old(self).report_list().push(report),
            final(self).root_list() == old(self).root_list(),
            final(self).handed_out() == old(self).handed_out(),
            final(self).is_over() == old(self).is_over(),
    {
        self.reports.push(report);
    }
}

/// A walk cancelled before its first root reports no root, whatever comes
/// after: no root was handed out, and each report needs one.
pub proof fn lemma_no_root_before_the_first(walk: RootWalk)
    requires
        walk.wf(),
        walk.handed_out() == 0,
    ensures
        walk.report_list().len() == 0,
{
}

impl InventoryScanner {
    /// Assembles the report from the walk and the volume as it was read:
    /// the volume or the error that kept it from being read, never both;
    /// its snapshots only when it was read.
    pub fn finish_walk(
        self,
        walk: RootWalk,
        volume: Result<VolumeStats, String>,
        fallback_device: Option<u64>,
        snapshots: Vec<String>,
    ) -> (res: StorageInventory)
        requires
            self.wf(),
            walk.wf(),
            measured_on_volume(walk.report_list(), accounting_device(volume, fallback_device))
                <= u64::MAX,
        ensures
            res.volume.is_some() != res.volume_error.is_some(),
            match volume {
                Ok(v) => res.volume == Some(v) && res.local_snapshots@ == snapshots@,
                Err(e) => res.volume_error == Some(e) && res.local_snapshots@.len() == 0,
            },
            res.roots@ == walk.report_list(),
            res.scanned_kb == self.kilobytes(),
            res.scanned_items == self.items(),
            res.scan_errors == self.error_count(),
            res.scan_error_paths@.map_values(|p: String| p@) == self.kept_error_paths(),
            res.complete == (!self.was_cancelled() && self.error_count() == 0),
            res.scanned_on_volume_kb == measured_on_volume(
                walk.report_list(),
                accounting_device(volume, fallback_device),
            ),
            res.unaccounted_kb == match volume {
                Ok(v) => sat_sub(v.used_kb as int, res.scanned_on_volume_kb as int),
                Err(_) => 0,
            },
            res.inventory_overage_kb == match volume {
                Ok(v) => sat_sub(res.scanned_on_volume_kb as int, v.used_kb as int),
                Err(_) => 0,
            },
            item_views(res.top_level@) == merge_sort(self.top_level_views(), report_order()).take(
                min(self.top_level_views().len() as int, MAX_TOP_LEVEL_ITEMS as int),
            ),
            item_views(res.largest@) == merge_sort(self.candidate_views(), report_order()).take(
                min(self.candidate_views().len() as int, 20),
            ),
            res.children@.len() == self.index().len(),
            forall|i: int|
                #![trigger res.children@[i]]
                0 <= i < res.children@.len() ==> res.children@[i].0 == self.index()[i].0
                    && res.children@[i].1 == merge_sort(self.index()[i].1, report_order()),
    {
        let device = match &volume {
            Ok(v) => Some(v.device),
            Err(_) => fallback_device,
        };
        let (stats, error, kept) = match volume {
            Ok(v) => (Some(v), None, snapshots),
            Err(e) => (None, Some(e), Vec::new()),
        };
        self.finish(walk.reports, stats, error, device, kept)
    }
}

} // verus!
