//! Browsing a measured inventory: the folder list under the cursor, moving
//! into folders and back, the storage tabs, and the keys of the storage
//! views.
use vstd::prelude::*;
use crate::shell::Code;
use crate::sort::merge_sort;
use crate::storage::{
    item_views, lookup, report_order, sort_items, ItemView, StorageInventory, StorageItem,
    StorageItemKind, StorageRoot,
};

verus! {

/// The views of the storage screen.
#[derive(PartialEq, Eq, Structural, Clone, Copy, Debug)]
pub enum StorageTab {
    Explore,
    Heatmap,
    Decisions,
    Coverage,
}

/// What the program must do after a key on a storage view.
#[derive(PartialEq, Eq, Structural, Clone, Copy, Debug)]
pub enum ExplorerEffect {
    Nothing,
    RestartScan,
    OpenRelocationSources,
    RevealCurrent,
    /// Open the Full Disk Access settings and report how that went.
    OpenAccessSettings,
    /// Leave the storage view for the top of the report.
    ReturnToReview,
}

/// The browsing state of the storage screen.
pub struct Explorer {
    pub tab: StorageTab,
    /// The folder being listed; `None` lists the roots' contents.
    pub path: Option<String>,
    pub cursor: usize,
    /// Where each opened folder was opened from.
    pub history: Vec<(Option<String>, usize)>,
    /// The details of the item under the cursor are shown.
    pub details: bool,
    pub dialog_scroll: u16,
    pub dialog_max_scroll: u16,
    pub coverage_scroll: u16,
    pub coverage_max_scroll: u16,
    /// The entry under the cursor of the decisions list.
    pub entry_cursor: usize,
    pub status_message: Option<String>,
    pub quit: bool,
}

/// The content of the browsing state.
pub struct ExplorerView {
    pub tab: StorageTab,
    pub path: Option<Seq<char>>,
    pub cursor: usize,
    pub history: Seq<(Option<Seq<char>>, usize)>,
    pub details: bool,
    pub dialog_scroll: u16,
    pub dialog_max_scroll: u16,
    pub coverage_scroll: u16,
    pub coverage_max_scroll: u16,
    pub entry_cursor: usize,
    pub status_message: Option<Seq<char>>,
    pub quit: bool,
}

/// The view of a history step.
pub open spec fn step_view(h: (Option<String>, usize)) -> (Option<Seq<char>>, usize) {
    (crate::session::opt_view(h.0), h.1)
}

impl View for Explorer {
    type V = ExplorerView;

    open spec fn view(&self) -> ExplorerView {
        ExplorerView {
            tab: self.tab,
            path: crate::session::opt_view(self.path),
            cursor: self.cursor,
            history: self.history@.map_values(|h: (Option<String>, usize)| step_view(h)),
            details: self.details,
            dialog_scroll: self.dialog_scroll,
            dialog_max_scroll: self.dialog_max_scroll,
            coverage_scroll: self.coverage_scroll,
            coverage_max_scroll: self.coverage_max_scroll,
            entry_cursor: self.entry_cursor,
            status_message: crate::session::opt_view(self.status_message),
            quit: self.quit,
        }
    }
}

// ---------------------------------------------------------------------------
// The list
// ---------------------------------------------------------------------------

/// The children of every root, in the order of the roots.
pub open spec fn root_items(idx: Seq<(Seq<char>, Seq<ItemView>)>, roots: Seq<StorageRoot>) -> Seq<
    ItemView,
>
    decreases roots.len(),
{
    if roots.len() == 0 {
        Seq::empty()
    } else {
        root_items(idx, roots.drop_last()) + match lookup(idx, roots.last().path@) {
            Some(v) => v,
            None => Seq::empty(),
        }
    }
}

/// The items listed: the children of the open folder as the index holds
/// them; at the top, the children of all roots (and the top-level items when
/// the report has no index), largest first.
pub open spec fn listing(
    idx: Seq<(Seq<char>, Seq<ItemView>)>,
    roots: Seq<StorageRoot>,
    top: Seq<ItemView>,
    path: Option<Seq<char>>,
) -> Seq<ItemView> {
    match path {
        Some(p) => match lookup(idx, p) {
            Some(v) => v,
            None => Seq::empty(),
        },
        None => merge_sort(
            root_items(idx, roots) + if idx.len() == 0 {
                top
            } else {
                Seq::empty()
            },
            report_order(),
        ),
    }
}

/// The items listed for an inventory.
pub open spec fn inventory_listing(inv: StorageInventory, path: Option<Seq<char>>) -> Seq<ItemView> {
    listing(inv.children@, inv.roots@, item_views(inv.top_level@), path)
}

/// Appends copies of the items of `v` to `out`.
fn append_items(out: &mut Vec<StorageItem>, v: &Vec<StorageItem>)
    ensures
        item_views(final(out)@) == item_views(old(out)@) + item_views(v@),
{
    let mut i: usize = 0;
    while i < v.len()
        invariant
            i <= v@.len(),
            item_views(out@) == item_views(old(out)@) + item_views(v@.take(i as int)),
        decreases v@.len() - i,
    {
        let ghost before = item_views(out@);
        out.push(v[i].duplicate());
        assert(item_views(v@.take(i + 1)) =~= item_views(v@.take(i as int)).push(v@[i as int]@));
        assert(item_views(out@) =~= before.push(v@[i as int]@));
        i = i + 1;
    }
    assert(v@.take(v@.len() as int) =~= v@);
}

/// The items the explorer lists for `path`.
pub fn explorer_items(inventory: &StorageInventory, path: &Option<String>) -> (res: Vec<StorageItem>)
    ensures
        item_views(res@) == inventory_listing(*inventory, crate::session::opt_view(*path)),
{
    let mut out: Vec<StorageItem> = Vec::new();
    match path {
        Some(p) => {
            if let Some(v) = inventory.children.get(p.as_str()) {
                append_items(&mut out, v);
            }
            assert(item_views(out@) =~= inventory_listing(*inventory, crate::session::opt_view(*path)));
            out
        },
        None => {
            let ghost idx = inventory.children@;
            let ghost roots = inventory.roots@;
            let mut i: usize = 0;
            while i < inventory.roots.len()
                invariant
                    i <= roots.len(),
                    roots == inventory.roots@,
                    idx == inventory.children@,
                    item_views(out@) == root_items(idx, roots.take(i as int)),
                decreases roots.len() - i,
            {
                assert(roots.take(i + 1).drop_last() =~= roots.take(i as int));
                let ghost before = item_views(out@);
                if let Some(v) = inventory.children.get(inventory.roots[i].path.as_str()) {
                    append_items(&mut out, v);
                } else {
                    assert(item_views(out@) =~= before + Seq::<ItemView>::empty());
                }
                i = i + 1;
            }
            assert(roots.take(roots.len() as int) =~= roots);
            if inventory.children.len() == 0 {
                append_items(&mut out, &inventory.top_level);
            } else {
                assert(item_views(out@) =~= item_views(out@) + Seq::<ItemView>::empty());
            }
            sort_items(out)
        },
    }
}

// ---------------------------------------------------------------------------
// Moving through folders and tabs
// ---------------------------------------------------------------------------

/// Opening the item under the cursor: a folder is entered, remembering
/// where it was opened from; another item shows its details.
pub open spec fn consumer_opened(e: ExplorerView, items: Seq<ItemView>) -> ExplorerView {
    let e1 = ExplorerView { details: false, ..e };
    if e.cursor >= items.len() {
        e1
    } else if items[e.cursor as int].kind != StorageItemKind::Directory {
        ExplorerView { details: true, dialog_scroll: 0, ..e1 }
    } else {
        ExplorerView {
            history: e.history.push((e.path, e.cursor)),
            path: Some(items[e.cursor as int].path),
            cursor: 0,
            status_message: None,
            ..e1
        }
    }
}

/// Going back to where the open folder was opened from, or to the top.
pub open spec fn went_back(e: ExplorerView) -> ExplorerView {
    if e.history.len() > 0 {
        ExplorerView {
            path: e.history.last().0,
            cursor: e.history.last().1,
            history: e.history.drop_last(),
            status_message: None,
            ..e
        }
    } else {
        ExplorerView { path: None, cursor: 0, status_message: None, ..e }
    }
}

/// The first entry at `p`, else the first entry inside it.
pub open spec fn entry_for(entries: Seq<Seq<char>>, p: Seq<char>) -> Option<int> {
    match first_where(entries, p, false, 0) {
        Some(i) => Some(i),
        None => first_where(entries, p, true, 0),
    }
}

/// The first entry from `i` on that equals `p` (or lies inside it).
pub open spec fn first_where(entries: Seq<Seq<char>>, p: Seq<char>, inside: bool, i: int) -> Option<
    int,
>
    decreases entries.len() - i,
{
    if i < 0 || i >= entries.len() {
        None
    } else if (if inside {
        crate::path::path_starts_with(entries[i], p)
    } else {
        crate::path::path_eq(entries[i], p)
    }) {
        Some(i)
    } else {
        first_where(entries, p, inside, i + 1)
    }
}

/// Switching to a tab: from the decisions to the explorer the entry's
/// folder is opened when the index lists it; from the explorer or heatmap
/// to the decisions the entry of the item under the cursor is selected.
pub open spec fn tab_switched(
    e: ExplorerView,
    tab: StorageTab,
    inv: StorageInventory,
    entries: Seq<Seq<char>>,
) -> ExplorerView {
    let e1 = if tab == StorageTab::Explore && e.tab == StorageTab::Decisions && e.entry_cursor
        < entries.len() && lookup(inv.children@, entries[e.entry_cursor as int]) is Some {
        ExplorerView {
            history: e.history.push((e.path, e.cursor)),
            path: Some(entries[e.entry_cursor as int]),
            cursor: 0,
            ..e
        }
    } else {
        e
    };
    let items = inventory_listing(inv, e1.path);
    let e2 = if tab == StorageTab::Decisions && (e.tab == StorageTab::Explore || e.tab
        == StorageTab::Heatmap) && e1.cursor < items.len() && entry_for(
        entries,
        items[e1.cursor as int].path,
    ) is Some {
        ExplorerView {
            entry_cursor: entry_for(entries, items[e1.cursor as int].path)->0 as usize,
            ..e1
        }
    } else {
        e1
    };
    ExplorerView { details: false, tab, status_message: None, ..e2 }
}

/// The tab after `tab` in the order explorer, heatmap, decisions,
/// coverage, going round; or before it.
pub open spec fn next_tab(tab: StorageTab, back: bool) -> StorageTab {
    let i: int = match tab {
        StorageTab::Explore => 0,
        StorageTab::Heatmap => 1,
        StorageTab::Decisions => 2,
        StorageTab::Coverage => 3,
    };
    let j = (i + if back {
        3int
    } else {
        1int
    }) % 4;
    if j == 0 {
        StorageTab::Explore
    } else if j == 1 {
        StorageTab::Heatmap
    } else if j == 2 {
        StorageTab::Decisions
    } else {
        StorageTab::Coverage
    }
}

/// `v + by`, at most `max`.
pub open spec fn raised(v: u16, by: u16, max: u16) -> u16 {
    let r = if v + by > u16::MAX {
        u16::MAX as int
    } else {
        v + by
    };
    if r < max {
        r as u16
    } else {
        max
    }
}

/// `v - by`, at least zero.
pub open spec fn lowered(v: u16, by: u16) -> u16 {
    if v < by {
        0
    } else {
        (v - by) as u16
    }
}

/// A key moving in the open details.
pub open spec fn details_scroll_key(code: Code) -> bool {
    code == Code::Up || code == Code::Down || code == Code::PageUp || code == Code::PageDown
        || code == Code::Home || code == Code::End || code == Code::Char('j') || code
        == Code::Char('k')
}

/// The movement keys of a storage view that is not the decisions list:
/// scrolling the open details, scrolling the coverage tab, moving the
/// cursor, opening a folder or its details, going back, revealing.
pub open spec fn move_step(e: ExplorerView, inv: StorageInventory, code: Code) -> (ExplorerView, ExplorerEffect) {
    let items = inventory_listing(inv, e.path);
    let last: usize = if items.len() == 0 {
        0
    } else {
        (items.len() - 1) as usize
    };
    if e.details && details_scroll_key(code) {
        (
            ExplorerView {
                dialog_scroll: if code == Code::Up || code == Code::Char('k') {
                    lowered(e.dialog_scroll, 1)
                } else if code == Code::Down || code == Code::Char('j') {
                    raised(e.dialog_scroll, 1, e.dialog_max_scroll)
                } else if code == Code::PageUp {
                    lowered(e.dialog_scroll, 8)
                } else if code == Code::PageDown {
                    raised(e.dialog_scroll, 8, e.dialog_max_scroll)
                } else if code == Code::Home {
                    0
                } else {
                    e.dialog_max_scroll
                },
                ..e
            },
            ExplorerEffect::Nothing,
        )
    } else if e.tab == StorageTab::Coverage {
        if code == Code::Char('p') {
            (e, ExplorerEffect::OpenAccessSettings)
        } else {
            (
                ExplorerView {
                    coverage_scroll: if code == Code::Down || code == Code::Char('j') {
                        raised(e.coverage_scroll, 1, e.coverage_max_scroll)
                    } else if code == Code::Up || code == Code::Char('k') {
                        lowered(e.coverage_scroll, 1)
                    } else if code == Code::PageDown {
                        raised(e.coverage_scroll, 8, e.coverage_max_scroll)
                    } else if code == Code::PageUp {
                        lowered(e.coverage_scroll, 8)
                    } else if code == Code::Home {
                        0
                    } else {
                        e.coverage_scroll
                    },
                    ..e
                },
                ExplorerEffect::Nothing,
            )
        }
    } else if code == Code::Down || code == Code::Char('j') {
        (
            ExplorerView {
                cursor: if e.cursor + 1 < last {
                    (e.cursor + 1) as usize
                } else {
                    last
                },
                ..e
            },
            ExplorerEffect::Nothing,
        )
    } else if code == Code::Up || code == Code::Char('k') {
        (
            ExplorerView {
                cursor: if e.cursor == 0 {
                    0
                } else {
                    (e.cursor - 1) as usize
                },
                ..e
            },
            ExplorerEffect::Nothing,
        )
    } else if code == Code::PageDown {
        (
            ExplorerView {
                cursor: if e.cursor + 10 < last {
                    (e.cursor + 10) as usize
                } else {
                    last
                },
                ..e
            },
            ExplorerEffect::Nothing,
        )
    } else if code == Code::PageUp {
        (
            ExplorerView {
                cursor: if e.cursor < 10 {
                    0
                } else {
                    (e.cursor - 10) as usize
                },
                ..e
            },
            ExplorerEffect::Nothing,
        )
    } else if code == Code::Home {
        (ExplorerView { cursor: 0, ..e }, ExplorerEffect::Nothing)
    } else if code == Code::End {
        (ExplorerView { cursor: last, ..e }, ExplorerEffect::Nothing)
    } else if code == Code::Enter || code == Code::Right {
        (consumer_opened(e, items), ExplorerEffect::Nothing)
    } else if code == Code::Backspace || code == Code::Left {
        (went_back(e), ExplorerEffect::Nothing)
    } else if code == Code::Char('i') {
        (ExplorerView { details: !e.details, dialog_scroll: 0, ..e }, ExplorerEffect::Nothing)
    } else if code == Code::Char('o') || code == Code::Char('O') {
        (e, ExplorerEffect::RevealCurrent)
    } else {
        (e, ExplorerEffect::Nothing)
    }
}

/// A key on a storage view with a measured inventory; `None` when the key
/// is left to the decisions list.
pub open spec fn storage_nav_step(
    e: ExplorerView,
    inv: StorageInventory,
    entries: Seq<Seq<char>>,
    analysis_only: bool,
    code: Code,
) -> Option<(ExplorerView, ExplorerEffect)> {
    if code == Code::Char('e') {
        Some((tab_switched(e, StorageTab::Explore, inv, entries), ExplorerEffect::Nothing))
    } else if code == Code::Char('h') {
        Some((tab_switched(e, StorageTab::Heatmap, inv, entries), ExplorerEffect::Nothing))
    } else if code == Code::Char('f') {
        Some((tab_switched(e, StorageTab::Decisions, inv, entries), ExplorerEffect::Nothing))
    } else if code == Code::Char('v') {
        Some((tab_switched(e, StorageTab::Coverage, inv, entries), ExplorerEffect::Nothing))
    } else if code == Code::Char(']') || code == Code::Char('[') {
        Some(
            (
                tab_switched(e, next_tab(e.tab, code == Code::Char('[')), inv, entries),
                ExplorerEffect::Nothing,
            ),
        )
    } else if e.tab == StorageTab::Decisions {
        None
    } else if code == Code::Char('r') {
        Some((e, ExplorerEffect::RestartScan))
    } else if code == Code::Char('q') {
        Some((ExplorerView { quit: true, ..e }, ExplorerEffect::Nothing))
    } else if (code == Code::Char('m') || code == Code::Char('M')) && !analysis_only {
        Some((e, ExplorerEffect::OpenRelocationSources))
    } else if (code == Code::Esc || code == Code::Backspace || code == Code::Left) && e.details {
        Some((ExplorerView { details: false, ..e }, ExplorerEffect::Nothing))
    } else if code == Code::Esc && (e.tab == StorageTab::Explore || e.tab == StorageTab::Heatmap)
        && e.path is Some {
        Some((went_back(e), ExplorerEffect::Nothing))
    } else if code == Code::Esc {
        Some(
            (
                ExplorerView { path: None, cursor: 0, history: Seq::empty(), ..e },
                ExplorerEffect::ReturnToReview,
            ),
        )
    } else {
        Some(move_step(e, inv, code))
    }
}

// ---------------------------------------------------------------------------
// The browsing state
// ---------------------------------------------------------------------------

/// The first entry from position `from` on that equals `p` (or lies in it).
fn find_entry_from(entries: &Vec<String>, p: &str, inside: bool, from: usize) -> (res: Option<usize>)
    ensures
        match res {
            Some(i) => first_where(crate::storage::string_views(entries@), p@, inside, from as int)
                == Some(i as int),
            None => first_where(crate::storage::string_views(entries@), p@, inside, from as int)
                is None,
        },
    decreases entries@.len() - from,
{
    let ghost ev = crate::storage::string_views(entries@);
    if from >= entries.len() {
        return None;
    }
    assert(ev[from as int] == entries@[from as int]@);
    let hit = if inside {
        crate::path::starts_with_path(entries[from].as_str(), p)
    } else {
        crate::path::paths_equal(entries[from].as_str(), p)
    };
    if hit {
        Some(from)
    } else {
        find_entry_from(entries, p, inside, from + 1)
    }
}

/// The entry for a listed path.
fn find_entry(entries: &Vec<String>, p: &str) -> (res: Option<usize>)
    ensures
        match res {
            Some(i) => entry_for(crate::storage::string_views(entries@), p@) == Some(i as int),
            None => entry_for(crate::storage::string_views(entries@), p@) is None,
        },
{
    match find_entry_from(entries, p, false, 0) {
        Some(i) => Some(i),
        None => find_entry_from(entries, p, true, 0),
    }
}

impl Explorer {
    /// The browsing state at the top of the explorer tab.
    pub fn new() -> (res: Explorer)
        ensures
            res@ == (ExplorerView {
                tab: StorageTab::Explore,
                path: None,
                cursor: 0,
                history: Seq::empty(),
                details: false,
                dialog_scroll: 0,
                dialog_max_scroll: 0,
                coverage_scroll: 0,
                coverage_max_scroll: 0,
                entry_cursor: 0,
                status_message: None,
                quit: false,
            }),
    {
        let res = Explorer {
            tab: StorageTab::Explore,
            path: None,
            cursor: 0,
            history: Vec::new(),
            details: false,
            dialog_scroll: 0,
            dialog_max_scroll: 0,
            coverage_scroll: 0,
            coverage_max_scroll: 0,
            entry_cursor: 0,
            status_message: None,
            quit: false,
        };
        assert(res@.history =~= Seq::<(Option<Seq<char>>, usize)>::empty());
        res
    }

    /// A copy of the open folder's path.
    fn path_copy(&self) -> (res: Option<String>)
        ensures
            crate::session::opt_view(res) == crate::session::opt_view(self.path),
    {
        match &self.path {
            Some(p) => Some(crate::text::owned(p.as_str())),
            None => None,
        }
    }

    /// Remembers the open folder and cursor, and opens `path`.
    fn enter_folder(&mut self, path: String)
        ensures
            final(self)@ == (ExplorerView {
                history: old(self)@.history.push((old(self)@.path, old(self)@.cursor)),
                path: Some(path@),
                cursor: 0,
                ..old(self)@
            }),
    {
        let ghost before = self@.history;
        let step = (self.path_copy(), self.cursor);
        let ghost sv = step_view(step);
        self.history.push(step);
        assert(self.history@.map_values(|h: (Option<String>, usize)| step_view(h)) =~= before.push(sv));
        self.path = Some(path);
        self.cursor = 0;
    }

    /// Opens the item under the cursor.
    pub fn open_consumer(&mut self, inventory: &StorageInventory)
        ensures
            final(self)@ == consumer_opened(
                old(self)@,
                inventory_listing(*inventory, old(self)@.path),
            ),
    {
        self.details = false;
        let items = explorer_items(inventory, &self.path);
        if self.cursor >= items.len() {
            return;
        }
        assert(item_views(items@)[self.cursor as int] == items@[self.cursor as int]@);
        if items[self.cursor].kind != StorageItemKind::Directory {
            self.details = true;
            self.dialog_scroll = 0;
            return;
        }
        let path = crate::text::owned(items[self.cursor].path.as_str());
        self.enter_folder(path);
        self.status_message = None;
    }

    /// Goes back to where the open folder was opened from.
    pub fn explorer_back(&mut self)
        ensures
            final(self)@ == went_back(old(self)@),
    {
        let ghost before = self@.history;
        match self.history.pop() {
            Some((path, cursor)) => {
                assert(self.history@.map_values(|h: (Option<String>, usize)| step_view(h)) =~= before.drop_last());
                self.path = path;
                self.cursor = cursor;
            },
            None => {
                self.path = None;
                self.cursor = 0;
            },
        }
        self.status_message = None;
    }

    /// Switches the storage view to `tab`; `entries` are the paths of the
    /// decisions list.
    pub fn switch_storage_tab(
        &mut self,
        tab: StorageTab,
        inventory: &StorageInventory,
        entries: &Vec<String>,
    )
        ensures
            final(self)@ == tab_switched(
                old(self)@,
                tab,
                *inventory,
                crate::storage::string_views(entries@),
            ),
    {
        let ghost ev = crate::storage::string_views(entries@);
        if tab == StorageTab::Explore && self.tab == StorageTab::Decisions && self.entry_cursor
            < entries.len() {
            assert(ev[self.entry_cursor as int] == entries@[self.entry_cursor as int]@);
            if inventory.children.get(entries[self.entry_cursor].as_str()).is_some() {
                let path = crate::text::owned(entries[self.entry_cursor].as_str());
                self.enter_folder(path);
            }
        }
        let ghost e1 = self@;
        if tab == StorageTab::Decisions && (self.tab == StorageTab::Explore || self.tab
            == StorageTab::Heatmap) {
            let items = explorer_items(inventory, &self.path);
            if self.cursor < items.len() {
                assert(item_views(items@)[self.cursor as int] == items@[self.cursor as int]@);
                if let Some(index) = find_entry(entries, items[self.cursor].path.as_str()) {
                    self.entry_cursor = index;
                }
            }
        }
        self.details = false;
        self.tab = tab;
        self.status_message = None;
    }
}

impl Explorer {
    /// The number of the last listed item, or zero.
    fn last_index(&self, inventory: &StorageInventory) -> (res: usize)
        ensures
            res == (if inventory_listing(*inventory, self@.path).len() == 0 {
                0
            } else {
                (inventory_listing(*inventory, self@.path).len() - 1) as usize
            }),
    {
        let items = explorer_items(inventory, &self.path);
        if items.len() == 0 {
            0
        } else {
            items.len() - 1
        }
    }

    /// The tab after the current one, or before it.
    fn tab_after(&self, back: bool) -> (res: StorageTab)
        ensures
            res == next_tab(self.tab, back),
    {
        let i: usize = match self.tab {
            StorageTab::Explore => 0,
            StorageTab::Heatmap => 1,
            StorageTab::Decisions => 2,
            StorageTab::Coverage => 3,
        };
        let j = (i + if back {
            3
        } else {
            1
        }) % 4;
        if j == 0 {
            StorageTab::Explore
        } else if j == 1 {
            StorageTab::Heatmap
        } else if j == 2 {
            StorageTab::Decisions
        } else {
            StorageTab::Coverage
        }
    }

    /// A key on a storage view; `None` when the key is left to the decisions
    /// list. `entries` are the paths of the decisions list.
    #[verifier::rlimit(60)]
    pub fn handle_storage_navigation(
        &mut self,
        inventory: &StorageInventory,
        entries: &Vec<String>,
        analysis_only: bool,
        code: Code,
    ) -> (res: Option<ExplorerEffect>)
        ensures
            match storage_nav_step(
                old(self)@,
                *inventory,
                crate::storage::string_views(entries@),
                analysis_only,
                code,
            ) {
                Some((t, effect)) => final(self)@ == t && res == Some(effect),
                None => final(self)@ == old(self)@ && res is None,
            },
    {
        if code == Code::Char('e') || code == Code::Char('h') || code == Code::Char('f') || code
            == Code::Char('v') || code == Code::Char(']') || code == Code::Char('[') {
            let tab = if code == Code::Char('e') {
                StorageTab::Explore
            } else if code == Code::Char('h') {
                StorageTab::Heatmap
            } else if code == Code::Char('f') {
                StorageTab::Decisions
            } else if code == Code::Char('v') {
                StorageTab::Coverage
            } else {
                self.tab_after(code == Code::Char('['))
            };
            self.switch_storage_tab(tab, inventory, entries);
            return Some(ExplorerEffect::Nothing);
        }
        if self.tab == StorageTab::Decisions {
            return None;
        }
        if code == Code::Char('r') {
            return Some(ExplorerEffect::RestartScan);
        }
        if code == Code::Char('q') {
            self.quit = true;
            return Some(ExplorerEffect::Nothing);
        }
        if (code == Code::Char('m') || code == Code::Char('M')) && !analysis_only {
            return Some(ExplorerEffect::OpenRelocationSources);
        }
        if (code == Code::Esc || code == Code::Backspace || code == Code::Left) && self.details {
            self.details = false;
            return Some(ExplorerEffect::Nothing);
        }
        if code == Code::Esc && (self.tab == StorageTab::Explore || self.tab == StorageTab::Heatmap)
            && self.path.is_some() {
            self.explorer_back();
            return Some(ExplorerEffect::Nothing);
        }
        if code == Code::Esc {
            self.path = None;
            self.cursor = 0;
            self.history = Vec::new();
            assert(self@.history =~= Seq::<(Option<Seq<char>>, usize)>::empty());
            return Some(ExplorerEffect::ReturnToReview);
        }
        self.move_in_view(inventory, code)
    }

    /// The movement keys of a storage view that is not the decisions list.
    #[verifier::rlimit(60)]
    fn move_in_view(&mut self, inventory: &StorageInventory, code: Code) -> (res: Option<
        ExplorerEffect,
    >)
        requires
            old(self).tab != StorageTab::Decisions,
            !(code == Code::Char('e') || code == Code::Char('h') || code == Code::Char('f')
                || code == Code::Char('v') || code == Code::Char(']') || code == Code::Char('[')
                || code == Code::Char('r') || code == Code::Char('q') || code == Code::Esc),
            !((code == Code::Backspace || code == Code::Left) && old(self).details),
        ensures
            res == Some(move_step(old(self)@, *inventory, code).1),
            final(self)@ == move_step(old(self)@, *inventory, code).0,
    {
        if self.details && (code == Code::Up || code == Code::Down || code == Code::PageUp || code
            == Code::PageDown || code == Code::Home || code == Code::End || code == Code::Char('j')
            || code == Code::Char('k')) {
            let d = self.dialog_scroll;
            let max = self.dialog_max_scroll;
            self.dialog_scroll = if code == Code::Up || code == Code::Char('k') {
                if d < 1 {
                    0
                } else {
                    d - 1
                }
            } else if code == Code::Down || code == Code::Char('j') {
                let r: u16 = if d == u16::MAX {
                    u16::MAX
                } else {
                    d + 1
                };
                if r < max {
                    r
                } else {
                    max
                }
            } else if code == Code::PageUp {
                if d < 8 {
                    0
                } else {
                    d - 8
                }
            } else if code == Code::PageDown {
                let r: u16 = if d > u16::MAX - 8 {
                    u16::MAX
                } else {
                    d + 8
                };
                if r < max {
                    r
                } else {
                    max
                }
            } else if code == Code::Home {
                0
            } else {
                max
            };
            return Some(ExplorerEffect::Nothing);
        }
        if self.tab == StorageTab::Coverage {
            if code == Code::Char('p') {
                return Some(ExplorerEffect::OpenAccessSettings);
            }
            let c = self.coverage_scroll;
            let max = self.coverage_max_scroll;
            self.coverage_scroll = if code == Code::Down || code == Code::Char('j') {
                let r: u16 = if c == u16::MAX {
                    u16::MAX
                } else {
                    c + 1
                };
                if r < max {
                    r
                } else {
                    max
                }
            } else if code == Code::Up || code == Code::Char('k') {
                if c < 1 {
                    0
                } else {
                    c - 1
                }
            } else if code == Code::PageDown {
                let r: u16 = if c > u16::MAX - 8 {
                    u16::MAX
                } else {
                    c + 8
                };
                if r < max {
                    r
                } else {
                    max
                }
            } else if code == Code::PageUp {
                if c < 8 {
                    0
                } else {
                    c - 8
                }
            } else if code == Code::Home {
                0
            } else {
                c
            };
            return Some(ExplorerEffect::Nothing);
        }
        if code == Code::Down || code == Code::Char('j') {
            let last = self.last_index(inventory);
            self.cursor = if self.cursor < last && self.cursor + 1 < last {
                self.cursor + 1
            } else {
                last
            };
            Some(ExplorerEffect::Nothing)
        } else if code == Code::Up || code == Code::Char('k') {
            self.cursor = if self.cursor == 0 {
                0
            } else {
                self.cursor - 1
            };
            Some(ExplorerEffect::Nothing)
        } else if code == Code::PageDown {
            let last = self.last_index(inventory);
            self.cursor = if self.cursor < last && last - self.cursor > 10 {
                self.cursor + 10
            } else {
                last
            };
            Some(ExplorerEffect::Nothing)
        } else if code == Code::PageUp {
            self.cursor = if self.cursor < 10 {
                0
            } else {
                self.cursor - 10
            };
            Some(ExplorerEffect::Nothing)
        } else if code == Code::Home {
            self.cursor = 0;
            Some(ExplorerEffect::Nothing)
        } else if code == Code::End {
            self.cursor = self.last_index(inventory);
            Some(ExplorerEffect::Nothing)
        } else if code == Code::Enter || code == Code::Right {
            self.open_consumer(inventory);
            Some(ExplorerEffect::Nothing)
        } else if code == Code::Backspace || code == Code::Left {
            self.explorer_back();
            Some(ExplorerEffect::Nothing)
        } else if code == Code::Char('i') {
            self.details = !self.details;
            self.dialog_scroll = 0;
            Some(ExplorerEffect::Nothing)
        } else if code == Code::Char('o') || code == Code::Char('O') {
            Some(ExplorerEffect::RevealCurrent)
        } else {
            Some(ExplorerEffect::Nothing)
        }
    }
}

// ---------------------------------------------------------------------------
// Laws
// ---------------------------------------------------------------------------

/// Opening a folder and going back returns to the same folder, cursor and
/// history.
pub proof fn lemma_open_then_back(e: ExplorerView, items: Seq<ItemView>)
    requires
        e.cursor < items.len(),
        items[e.cursor as int].kind == StorageItemKind::Directory,
    ensures
        went_back(consumer_opened(e, items)).path == e.path,
        went_back(consumer_opened(e, items)).cursor == e.cursor,
        went_back(consumer_opened(e, items)).history == e.history,
        consumer_opened(e, items).path == Some(items[e.cursor as int].path),
{
    assert(e.history.push((e.path, e.cursor)).drop_last() =~= e.history);
}

/// At the top, the explorer lists the roots' contents largest first, equal
/// sizes in path order, and nothing else.
pub proof fn lemma_top_listing_order(inv: StorageInventory)
    ensures
        vstd::relations::sorted_by(inventory_listing(inv, None), report_order()),
        inventory_listing(inv, None).to_multiset() == (root_items(inv.children@, inv.roots@)
            + if inv.children@.len() == 0 {
            item_views(inv.top_level@)
        } else {
            Seq::empty()
        }).to_multiset(),
{
    <StorageItem as crate::sort::SortKey>::lemma_key_le_preorder();
    assert(report_order() =~= (|a: ItemView, b: ItemView| <StorageItem as crate::sort::SortKey>::key_le(a, b)));
    crate::sort::lemma_merge_sort(
        root_items(inv.children@, inv.roots@) + if inv.children@.len() == 0 {
            item_views(inv.top_level@)
        } else {
            Seq::empty()
        },
        report_order(),
    );
}

} // verus!
