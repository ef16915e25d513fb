//! The folders offered for moving to another disk: large directories in the
//! account's home or the temporary folder, never one inside another.
use vstd::prelude::*;
use crate::path::{path_eq, path_starts_with, paths_equal, starts_with_path};
use crate::storage::{item_views, ItemView, StorageInventory, StorageItem, StorageItemKind};

verus! {

/// At most this many folders are offered.
pub const MAX_RELOCATION_SOURCES: usize = 20;

/// The list the sources are taken from: the largest items, or the top-level
/// items when the walk kept no largest items.
pub open spec fn source_pool(inventory: StorageInventory) -> Seq<StorageItem> {
    if inventory.largest@.len() == 0 {
        inventory.top_level@
    } else {
        inventory.largest@
    }
}

/// The items the sources are taken from.
pub fn relocation_pool(inventory: &StorageInventory) -> (res: &Vec<StorageItem>)
    ensures
        res@ == source_pool(*inventory),
{
    if inventory.largest.len() == 0 {
        &inventory.top_level
    } else {
        &inventory.largest
    }
}

/// `path` lies strictly inside `root`.
pub open spec fn strictly_inside(path: Seq<char>, root: Seq<char>) -> bool {
    path_starts_with(path, root) && !path_eq(path, root)
}

/// An item may be moved from `path`: a non-empty directory strictly inside
/// the home or the temporary folder.
pub open spec fn movable(item: ItemView, path: Seq<char>, home: Seq<char>, temp: Seq<char>) -> bool {
    item.kind == StorageItemKind::Directory && item.size_kb > 0 && (strictly_inside(path, home)
        || strictly_inside(path, temp))
}

/// `path` lies in (or is) one of the chosen folders.
pub open spec fn covered(chosen: Seq<ItemView>, path: Seq<char>) -> bool {
    exists|i: int| 0 <= i < chosen.len() && path_starts_with(path, #[trigger] chosen[i].path)
}

/// The sources chosen among the first `n` items, in order: an item whose
/// resolved path is known, movable and not inside an earlier source is
/// added under its resolved path, until `MAX_RELOCATION_SOURCES` are chosen.
pub open spec fn sources_among(
    items: Seq<ItemView>,
    resolved: Seq<Option<Seq<char>>>,
    home: Seq<char>,
    temp: Seq<char>,
    n: int,
) -> Seq<ItemView>
    decreases n,
{
    if n <= 0 {
        Seq::empty()
    } else {
        let before = sources_among(items, resolved, home, temp, n - 1);
        if before.len() >= MAX_RELOCATION_SOURCES {
            before
        } else {
            match resolved[n - 1] {
                Some(path) => if movable(items[n - 1], path, home, temp) && !covered(before, path) {
                    before.push(ItemView { path, ..items[n - 1] })
                } else {
                    before
                },
                None => before,
            }
        }
    }
}

/// The views of optional strings.
pub open spec fn opt_views(s: Seq<Option<String>>) -> Seq<Option<Seq<char>>> {
    s.map_values(
        |o: Option<String>|
            match o {
                Some(t) => Some(t@),
                None => None,
            },
    )
}

/// Whether `path` lies in one of the chosen folders.
fn is_covered(chosen: &Vec<StorageItem>, path: &str) -> (res: bool)
    ensures
        res == covered(item_views(chosen@), path@),
{
    let mut i: usize = 0;
    while i < chosen.len()
        invariant
            i <= chosen@.len(),
            forall|j: int|
                0 <= j < i ==> !path_starts_with(path@, #[trigger] item_views(chosen@)[j].path),
        decreases chosen@.len() - i,
    {
        if starts_with_path(path, chosen[i].path.as_str()) {
            assert(item_views(chosen@)[i as int].path == chosen@[i as int].path@);
            return true;
        }
        i = i + 1;
    }
    false
}

/// Chooses the folders to offer for moving. `resolved[i]` is where item `i`
/// really lives (its canonical path, seen through the public root when it
/// sits on the data volume), if it could be resolved; `home` and `temp` are
/// the canonical home and temporary folder.
pub fn select_relocation_sources(
    items: &Vec<StorageItem>,
    resolved: &Vec<Option<String>>,
    home: &str,
    temp: &str,
) -> (res: Vec<StorageItem>)
    requires
        resolved@.len() == items@.len(),
    ensures
        item_views(res@) == sources_among(
            item_views(items@),
            opt_views(resolved@),
            home@,
            temp@,
            items@.len() as int,
        ),
{
    let ghost iv = item_views(items@);
    let ghost rv = opt_views(resolved@);
    let mut selected: Vec<StorageItem> = Vec::new();
    let mut i: usize = 0;
    while i < items.len()
        invariant
            i <= items@.len(),
            resolved@.len() == items@.len(),
            iv == item_views(items@),
            rv == opt_views(resolved@),
            item_views(selected@) == sources_among(iv, rv, home@, temp@, i as int),
            selected@.len() <= MAX_RELOCATION_SOURCES,
        decreases items@.len() - i,
    {
        if selected.len() >= MAX_RELOCATION_SOURCES {
            proof {
                lemma_sources_stop(iv, rv, home@, temp@, i as int, items@.len() as int);
            }
            return selected;
        }
        let item = &items[i];
        assert(iv[i as int] == item@);
        if let Some(path) = &resolved[i] {
            assert(rv[i as int] == Some(path@));
            let in_home = starts_with_path(path.as_str(), home) && !paths_equal(path.as_str(), home);
            let in_temp = starts_with_path(path.as_str(), temp) && !paths_equal(path.as_str(), temp);
            if item.kind == StorageItemKind::Directory && item.size_kb > 0 && (in_home || in_temp)
                && !is_covered(&selected, path.as_str()) {
                let ghost before = item_views(selected@);
                let candidate = StorageItem {
                    path: crate::text::owned(path.as_str()),
                    size_kb: item.size_kb,
                    kind: item.kind,
                    category: item.category,
                };
                selected.push(candidate);
                assert(item_views(selected@) =~= before.push(ItemView { path: path@, ..iv[i as int] }));
            }
        } else {
            assert(rv[i as int] is None);
        }
        i = i + 1;
    }
    selected
}

proof fn lemma_sources_len(
    items: Seq<ItemView>,
    resolved: Seq<Option<Seq<char>>>,
    home: Seq<char>,
    temp: Seq<char>,
    n: int,
)
    ensures
        sources_among(items, resolved, home, temp, n).len() <= MAX_RELOCATION_SOURCES,
    decreases n,
{
    if n > 0 {
        lemma_sources_len(items, resolved, home, temp, n - 1);
    }
}

proof fn lemma_sources_stop(
    items: Seq<ItemView>,
    resolved: Seq<Option<Seq<char>>>,
    home: Seq<char>,
    temp: Seq<char>,
    i: int,
    n: int,
)
    requires
        0 <= i <= n,
        sources_among(items, resolved, home, temp, i).len() >= MAX_RELOCATION_SOURCES,
    ensures
        sources_among(items, resolved, home, temp, n) == sources_among(
            items,
            resolved,
            home,
            temp,
            i,
        ),
    decreases n - i,
{
    if n > i {
        lemma_sources_stop(items, resolved, home, temp, i, n - 1);
    }
}

/// At most `MAX_RELOCATION_SOURCES` folders are offered, each a non-empty
/// directory strictly inside the home or the temporary folder, and none
/// lies inside a folder offered before it.
pub proof fn lemma_sources_are_disjoint(
    items: Seq<ItemView>,
    resolved: Seq<Option<Seq<char>>>,
    home: Seq<char>,
    temp: Seq<char>,
    n: int,
)
    ensures
        sources_among(items, resolved, home, temp, n).len() <= MAX_RELOCATION_SOURCES,
        forall|k: int|
            0 <= k < sources_among(items, resolved, home, temp, n).len() ==> movable(
                #[trigger] sources_among(items, resolved, home, temp, n)[k],
                sources_among(items, resolved, home, temp, n)[k].path,
                home,
                temp,
            ),
        forall|a: int, b: int|
            0 <= a < b < sources_among(items, resolved, home, temp, n).len() ==> !path_starts_with(
                #[trigger] sources_among(items, resolved, home, temp, n)[b].path,
                #[trigger] sources_among(items, resolved, home, temp, n)[a].path,
            ),
    decreases n,
{
    lemma_sources_len(items, resolved, home, temp, n);
    if n > 0 {
        lemma_sources_are_disjoint(items, resolved, home, temp, n - 1);
        let before = sources_among(items, resolved, home, temp, n - 1);
        let after = sources_among(items, resolved, home, temp, n);
        if after.len() > before.len() {
            assert forall|a: int, b: int| 0 <= a < b < after.len() implies !path_starts_with(
                #[trigger] after[b].path,
                #[trigger] after[a].path,
            ) by {
                if b == after.len() - 1 {
                    assert(after[a] == before[a]);
                    assert(!covered(before, after[b].path));
                } else {
                    assert(after[a] == before[a]);
                    assert(after[b] == before[b]);
                }
            }
            assert forall|k: int| 0 <= k < after.len() implies movable(
                #[trigger] after[k],
                after[k].path,
                home,
                temp,
            ) by {
                if k < before.len() {
                    assert(after[k] == before[k]);
                }
            }
        }
    }
}

} // verus!
