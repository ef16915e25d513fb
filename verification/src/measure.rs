//! Measuring one cache location: its allocated space, counted once per
//! (device, inode), in slices of bounded work so that the screen stays live
//! between them. The caller reads the directories and hands each
//! observation over; the measure decides what is counted, when to descend,
//! and what the location's status becomes.
use vstd::prelude::*;
use std::collections::HashSet;
use crate::scanner::{inode_key, EntryMeta};
use crate::session::EntryStatus;
use crate::storage::{blocks_to_kb, StorageItemKind};

verus! {

broadcast use vstd::std_specs::hash::group_hash_axioms;

/// A slice handles at most this many directory entries...
pub const MAX_ITEMS_PER_SLICE: usize = 256;

/// ...and stops taking new ones after this many milliseconds.
pub const MAX_SLICE_MS: u64 = 8;

/// Whether a slice that has handled `done` entries in `elapsed_ms`
/// milliseconds takes another one.
pub fn slice_continues(done: usize, elapsed_ms: u64) -> (res: bool)
    ensures
        res == (done < MAX_ITEMS_PER_SLICE && elapsed_ms < MAX_SLICE_MS),
{
    done < MAX_ITEMS_PER_SLICE && elapsed_ms < MAX_SLICE_MS
}

/// The state of a measure.
pub struct CacheMeasure {
    seen: HashSet<u128>,
    allocated_blocks: u64,
    inspected_items: u64,
    errors: u64,
    open_dirs: usize,
}

/// What a measure holds: the (device, inode) pairs counted, their
/// allocated 512-byte blocks (saturated), the entries looked at, the errors
/// met, and the directories still being read.
pub struct MeasureView {
    pub counted: Set<u128>,
    pub blocks: u64,
    pub items: u64,
    pub errors: u64,
    pub open_dirs: usize,
}

impl View for CacheMeasure {
    type V = MeasureView;

    closed spec fn view(&self) -> MeasureView {
        MeasureView {
            counted: self.seen@,
            blocks: self.allocated_blocks,
            items: self.inspected_items,
            errors: self.errors,
            open_dirs: self.open_dirs,
        }
    }
}

/// The measure after looking at one entry, and whether to read it as a
/// directory: an entry whose metadata could not be read is an error; a
/// (device, inode) pair met before adds nothing; a new one adds its blocks,
/// and a new directory is read in turn.
pub open spec fn inspected(m: MeasureView, meta: Option<EntryMeta>) -> (MeasureView, bool) {
    let looked = MeasureView { items: (m.items + 1) as u64, ..m };
    match meta {
        None => (MeasureView { errors: (m.errors + 1) as u64, ..looked }, false),
        Some(e) => {
            let key = inode_key(e.device, e.inode);
            if m.counted.contains(key) {
                (looked, false)
            } else {
                (
                    MeasureView {
                        counted: m.counted.insert(key),
                        blocks: if m.blocks + e.blocks > u64::MAX {
                            u64::MAX
                        } else {
                            (m.blocks + e.blocks) as u64
                        },
                        ..looked
                    },
                    e.kind == StorageItemKind::Directory,
                )
            }
        },
    }
}

impl CacheMeasure {
    /// The invariant: the counted pairs form a finite set.
    pub closed spec fn wf(&self) -> bool {
        self.seen@.finite()
    }

    /// A measure of the location whose own metadata is `root` (if it could
    /// be read) and whose listing could be opened when `root_listed`.
    pub fn new(root: Option<EntryMeta>, root_listed: bool) -> (res: CacheMeasure)
        ensures
            res.wf(),
            res@ == (MeasureView {
                counted: match root {
                    Some(e) => Set::empty().insert(inode_key(e.device, e.inode)),
                    None => Set::empty(),
                },
                blocks: match root {
                    Some(e) => e.blocks,
                    None => 0,
                },
                items: 0,
                errors: (if root is None {
                    1int
                } else {
                    0int
                } + if root_listed {
                    0int
                } else {
                    1int
                }) as u64,
                open_dirs: if root_listed {
                    1
                } else {
                    0
                },
            }),
    {
        let mut seen: HashSet<u128> = HashSet::new();
        let mut blocks: u64 = 0;
        let mut errors: u64 = 0;
        match root {
            Some(e) => {
                let key: u128 = (e.device as u128) * 0x1_0000_0000_0000_0000u128 + (e.inode as u128);
                assert(key == inode_key(e.device, e.inode));
                seen.insert(key);
                blocks = e.blocks;
            },
            None => {
                errors = 1;
            },
        }
        let open_dirs: usize = if root_listed {
            1
        } else {
            errors = errors + 1;
            0
        };
        proof {
            assert(seen@ =~= match root {
                Some(e) => Set::empty().insert(inode_key(e.device, e.inode)),
                None => Set::<u128>::empty(),
            });
        }
        CacheMeasure { seen, allocated_blocks: blocks, inspected_items: 0, errors, open_dirs }
    }

    /// Looks at one directory entry; returns whether to read it as a
    /// directory.
    pub fn inspect(&mut self, meta: Option<EntryMeta>) -> (res: bool)
        requires
            old(self).wf(),
            old(self)@.items < u64::MAX,
            old(self)@.errors < u64::MAX,
        ensures
            final(self).wf(),
            (final(self)@, res) == inspected(old(self)@, meta),
    {
        self.inspected_items = self.inspected_items + 1;
        let e = match meta {
            Some(e) => e,
            None => {
                self.errors = self.errors + 1;
                return false;
            },
        };
        let key: u128 = (e.device as u128) * 0x1_0000_0000_0000_0000u128 + (e.inode as u128);
        assert(key == inode_key(e.device, e.inode));
        let ghost before = self.seen@;
        let first_visit = self.seen.insert(key);
        if !first_visit {
            assert(self.seen@ =~= before);
            return false;
        }
        self.allocated_blocks = self.allocated_blocks.saturating_add(e.blocks);
        e.kind == StorageItemKind::Directory
    }

    /// Reading the next entry of a directory failed.
    pub fn read_failed(&mut self)
        requires
            old(self)@.errors < u64::MAX,
        ensures
            final(self).wf() == old(self).wf(),
            final(self)@ == (MeasureView { errors: (old(self)@.errors + 1) as u64, ..old(self)@ }),
    {
        self.errors = self.errors + 1;
    }

    /// A directory that `inspect` asked for was opened for reading, or
    /// could not be.
    pub fn directory_opened(&mut self, ok: bool)
        requires
            ok ==> old(self)@.open_dirs < usize::MAX,
            !ok ==> old(self)@.errors < u64::MAX,
        ensures
            final(self).wf() == old(self).wf(),
            final(self)@ == (if ok {
                MeasureView { open_dirs: (old(self)@.open_dirs + 1) as usize, ..old(self)@ }
            } else {
                MeasureView { errors: (old(self)@.errors + 1) as u64, ..old(self)@ }
            }),
    {
        if ok {
            self.open_dirs = self.open_dirs + 1;
        } else {
            self.errors = self.errors + 1;
        }
    }

    /// The directory read last has no more entries.
    pub fn directory_done(&mut self)
        requires
            old(self)@.open_dirs > 0,
        ensures
            final(self).wf() == old(self).wf(),
            final(self)@ == (MeasureView { open_dirs: (old(self)@.open_dirs - 1) as usize, ..old(self)@ }),
    {
        self.open_dirs = self.open_dirs - 1;
    }

    /// Whether every directory has been read.
    pub fn finished(&self) -> (res: bool)
        ensures
            res == (self@.open_dirs == 0),
    {
        self.open_dirs == 0
    }

    /// The entries looked at so far.
    pub fn inspected_items(&self) -> (res: u64)
        ensures
            res == self@.items,
    {
        self.inspected_items
    }

    /// The errors met so far.
    pub fn errors(&self) -> (res: u64)
        ensures
            res == self@.errors,
    {
        self.errors
    }

    /// The allocated space counted so far, in kilobytes rounded up.
    pub fn size_kb(&self) -> (res: u64)
        ensures
            res as int == (if self@.blocks == u64::MAX {
                self@.blocks as int
            } else {
                self@.blocks as int + 1
            }) / 2,
    {
        blocks_to_kb(self.allocated_blocks)
    }

    /// The status the location gets: the one its rules gave it, unless an
    /// error left the measure incomplete.
    pub fn status(&self, found: EntryStatus) -> (res: EntryStatus)
        ensures
            res == (if self@.errors == 0 {
                found
            } else {
                EntryStatus::ScanError
            }),
    {
        if self.errors == 0 {
            found
        } else {
            EntryStatus::ScanError
        }
    }
}

/// A (device, inode) pair met again adds no space and is not read again,
/// so a hard link is counted once.
pub proof fn lemma_counted_once(m: MeasureView, meta: EntryMeta)
    requires
        m.counted.contains(inode_key(meta.device, meta.inode)),
    ensures
        inspected(m, Some(meta)).0.blocks == m.blocks,
        inspected(m, Some(meta)).0.counted == m.counted,
        !inspected(m, Some(meta)).1,
{
}

} // verus!
