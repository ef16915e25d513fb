//! The read-only inventory of a volume: its accounting, the items the walk
//! found, how each path is classified, and the breakdown of where the space
//! went.
use vstd::prelude::*;
use vstd::relations::{transitive, strongly_connected, sorted_by};
use crate::text::{
    ascii_lowercase, chars_eq, chars_of, contains_chars, contains_seq, first_occurrence, lower_ascii,
    occurs_at, starts_with,
    starts_with_chars,
};
use crate::path::{
    Comp, Component, comps_view, components, extension, path_components, path_lt, comps_lt,
    lemma_comps_lt_asym, lemma_comps_lt_total, lemma_comps_lt_trans, path_less, last_dot,
    file_name,
};
use crate::sort::SortKey;

verus! {

/// Filesystem capacity as `df` reports it for the volume that holds the
/// selected location.
pub struct VolumeStats {
    pub accounting_path: String,
    pub filesystem: String,
    pub capacity_kb: u64,
    pub used_kb: u64,
    pub free_kb: u64,
    /// Free space in the whole APFS container when `diskutil` reports it.
    /// The container pool is shared across the volume group, so this explains
    /// space that the per-volume `df` numbers cannot.
    pub container_free_kb: Option<u64>,
    pub device: u64,
}

/// `a - b`, or zero when `b` is larger (`u64::saturating_sub`).
pub open spec fn sat_sub(a: int, b: int) -> int {
    if a >= b {
        a - b
    } else {
        0
    }
}

impl VolumeStats {
    /// Space used on the whole disk: the shared container's use when its free
    /// space is known, else the volume's own use.
    pub open spec fn spec_disk_used_kb(&self) -> int {
        match self.container_free_kb {
            Some(free) => sat_sub(self.capacity_kb as int, free as int),
            None => self.used_kb as int,
        }
    }

    /// APFS volumes share a container. Keep per-volume usage for reconciling
    /// the walk, but use the shared pool for the disk fullness indicator.
    pub fn disk_used_kb(&self) -> (res: u64)
        ensures
            res == self.spec_disk_used_kb(),
    {
        match self.container_free_kb {
            Some(free) => self.capacity_kb.saturating_sub(free),
            None => self.used_kb,
        }
    }

    /// Free space on the whole disk: the container's when known.
    pub fn disk_free_kb(&self) -> (res: u64)
        ensures
            res == match self.container_free_kb {
                Some(free) => free,
                None => self.free_kb,
            },
    {
        match self.container_free_kb {
            Some(free) => free,
            None => self.free_kb,
        }
    }

    /// Space that other volumes of the container use.
    pub fn other_volume_kb(&self) -> (res: u64)
        ensures
            res == sat_sub(self.spec_disk_used_kb(), self.used_kb as int),
    {
        self.disk_used_kb().saturating_sub(self.used_kb)
    }
}

/// What the walk found at a path.
#[derive(PartialEq, Eq, Structural, Clone, Copy, Debug)]
pub enum StorageItemKind {
    Directory,
    File,
    Symlink,
}

/// A conservative display classification. It is a navigation aid, not a
/// deletion recommendation; all inventory items remain review-only.
#[derive(PartialEq, Eq, Structural, Clone, Copy, Debug)]
pub enum StorageCategory {
    PersonalData,
    ApplicationData,
    DeveloperData,
    Applications,
    SystemData,
    TemporaryData,
    Other,
}

/// The sentence that describes a category.
pub open spec fn category_description(c: StorageCategory) -> Seq<char> {
    match c {
        StorageCategory::PersonalData => "your own files: documents, media, projects"@,
        StorageCategory::ApplicationData => "data that apps keep for you"@,
        StorageCategory::DeveloperData => "developer tools, SDKs, simulators, and build data"@,
        StorageCategory::Applications => "installed apps"@,
        StorageCategory::SystemData => "macOS-managed data"@,
        StorageCategory::TemporaryData => "temporary files"@,
        StorageCategory::Other => "files outside the usual locations"@,
    }
}

/// The advice for a large folder of a category.
pub open spec fn category_advice(c: StorageCategory) -> Seq<char> {
    match c {
        StorageCategory::PersonalData => "These are your files. Open the folder to see what is large; move or archive what you no longer need."@,
        StorageCategory::ApplicationData => "Reduce it from inside the app that owns it. Deleting app data directly can lose settings or content."@,
        StorageCategory::DeveloperData => "Usually reduced from the tool that created it, for example Xcode or a package manager."@,
        StorageCategory::Applications => "Uninstall apps you no longer use."@,
        StorageCategory::SystemData => "macOS manages this space. Diskray never changes it."@,
        StorageCategory::TemporaryData => "macOS and apps usually clean this up themselves."@,
        StorageCategory::Other => "Open the folder to see what is large before deciding anything."@,
    }
}

/// The short verdict of a category.
pub open spec fn category_verdict(c: StorageCategory) -> Seq<char> {
    match c {
        StorageCategory::PersonalData => "Your files"@,
        StorageCategory::ApplicationData => "App data"@,
        StorageCategory::DeveloperData => "Developer data"@,
        StorageCategory::Applications => "Apps"@,
        StorageCategory::SystemData => "macOS"@,
        StorageCategory::TemporaryData => "Temporary"@,
        StorageCategory::Other => "Other"@,
    }
}

/// The heading of a category.
pub open spec fn category_label(c: StorageCategory) -> Seq<char> {
    match c {
        StorageCategory::PersonalData => "PERSONAL DATA"@,
        StorageCategory::ApplicationData => "APP DATA"@,
        StorageCategory::DeveloperData => "DEVELOPER DATA"@,
        StorageCategory::Applications => "APPLICATIONS"@,
        StorageCategory::SystemData => "SYSTEM DATA"@,
        StorageCategory::TemporaryData => "TEMPORARY DATA"@,
        StorageCategory::Other => "OTHER"@,
    }
}

/// No ASCII lowercase letter: the text is its own ASCII uppercase.
pub open spec fn upper_case(s: Seq<char>) -> bool {
    forall|i: int| 0 <= i < s.len() ==> !('a' <= #[trigger] s[i] && s[i] <= 'z')
}

proof fn reveal_category_labels()
    ensures
        category_label(StorageCategory::PersonalData) == seq!['P', 'E', 'R', 'S', 'O', 'N', 'A', 'L', ' ', 'D', 'A', 'T', 'A'],
        category_label(StorageCategory::ApplicationData) == seq!['A', 'P', 'P', ' ', 'D', 'A', 'T', 'A'],
        category_label(StorageCategory::DeveloperData) == seq!['D', 'E', 'V', 'E', 'L', 'O', 'P', 'E', 'R', ' ', 'D', 'A', 'T', 'A'],
        category_label(StorageCategory::Applications) == seq!['A', 'P', 'P', 'L', 'I', 'C', 'A', 'T', 'I', 'O', 'N', 'S'],
        category_label(StorageCategory::SystemData) == seq!['S', 'Y', 'S', 'T', 'E', 'M', ' ', 'D', 'A', 'T', 'A'],
        category_label(StorageCategory::TemporaryData) == seq!['T', 'E', 'M', 'P', 'O', 'R', 'A', 'R', 'Y', ' ', 'D', 'A', 'T', 'A'],
        category_label(StorageCategory::Other) == seq!['O', 'T', 'H', 'E', 'R'],
{
    reveal_strlit("PERSONAL DATA");
    reveal_strlit("APP DATA");
    reveal_strlit("DEVELOPER DATA");
    reveal_strlit("APPLICATIONS");
    reveal_strlit("SYSTEM DATA");
    reveal_strlit("TEMPORARY DATA");
    reveal_strlit("OTHER");
}

/// Category headings are upper case, not empty, and tell the categories
/// apart.
pub proof fn lemma_category_labels(a: StorageCategory, b: StorageCategory)
    ensures
        category_label(a).len() > 0,
        upper_case(category_label(a)),
        a != b ==> category_label(a) != category_label(b),
{
    reveal_category_labels();
    if a != b {
        let (la, lb) = (category_label(a), category_label(b));
        if la.len() == lb.len() {
            assert(la[0] != lb[0]);
        }
    }
}

impl StorageCategory {
    /// One plain sentence about what this kind of folder usually holds.
    pub fn description(self) -> (res: &'static str)
        ensures
            res@ == category_description(self),
    {
        match self {
            Self::PersonalData => "your own files: documents, media, projects",
            Self::ApplicationData => "data that apps keep for you",
            Self::DeveloperData => "developer tools, SDKs, simulators, and build data",
            Self::Applications => "installed apps",
            Self::SystemData => "macOS-managed data",
            Self::TemporaryData => "temporary files",
            Self::Other => "files outside the usual locations",
        }
    }

    /// What to do about a large folder of this kind.
    pub fn advice(self) -> (res: &'static str)
        ensures
            res@ == category_advice(self),
    {
        match self {
            Self::PersonalData => {
                "These are your files. Open the folder to see what is large; move or archive what you no longer need."
            },
            Self::ApplicationData => {
                "Reduce it from inside the app that owns it. Deleting app data directly can lose settings or content."
            },
            Self::DeveloperData => {
                "Usually reduced from the tool that created it, for example Xcode or a package manager."
            },
            Self::Applications => "Uninstall apps you no longer use.",
            Self::SystemData => "macOS manages this space. Diskray never changes it.",
            Self::TemporaryData => "macOS and apps usually clean this up themselves.",
            Self::Other => "Open the folder to see what is large before deciding anything.",
        }
    }

    /// A short verdict for lists.
    pub fn verdict(self) -> (res: &'static str)
        ensures
            res@ == category_verdict(self),
    {
        match self {
            Self::PersonalData => "Your files",
            Self::ApplicationData => "App data",
            Self::DeveloperData => "Developer data",
            Self::Applications => "Apps",
            Self::SystemData => "macOS",
            Self::TemporaryData => "Temporary",
            Self::Other => "Other",
        }
    }

    /// The heading of the category.
    pub fn label(self) -> (res: &'static str)
        ensures
            res@ == category_label(self),
    {
        match self {
            Self::PersonalData => "PERSONAL DATA",
            Self::ApplicationData => "APP DATA",
            Self::DeveloperData => "DEVELOPER DATA",
            Self::Applications => "APPLICATIONS",
            Self::SystemData => "SYSTEM DATA",
            Self::TemporaryData => "TEMPORARY DATA",
            Self::Other => "OTHER",
        }
    }
}

// ---------------------------------------------------------------------------
// Classification
// ---------------------------------------------------------------------------

/// The names among the components, in order.
pub open spec fn normal_names(c: Seq<Comp>) -> Seq<Seq<char>>
    decreases c.len(),
{
    if c.len() == 0 {
        Seq::empty()
    } else {
        let r = normal_names(c.drop_last());
        match c.last() {
            Comp::Normal(n) => r.push(n),
            _ => r,
        }
    }
}

/// The parts joined with `sep` between them (`slice::join`).
pub open spec fn join(parts: Seq<Seq<char>>, sep: Seq<char>) -> Seq<char>
    decreases parts.len(),
{
    if parts.len() == 0 {
        Seq::empty()
    } else if parts.len() == 1 {
        parts[0]
    } else {
        join(parts.drop_last(), sep) + sep + parts.last()
    }
}

/// The ASCII-lowercased names of the path's components.
pub open spec fn lower_names(p: Seq<char>) -> Seq<Seq<char>> {
    normal_names(components(p)).map_values(|n: Seq<char>| ascii_lowercase(n))
}

/// The category of a path, decided on its lowercased component names in a
/// fixed order of rules: temporary roots, a `Library` folder, package
/// managers, personal folders, developer data, applications, application
/// support, system roots, trash and caches, then home folders.
pub open spec fn classify(p: Seq<char>) -> StorageCategory {
    let names = lower_names(p);
    let joined = join(names, "/"@);
    if starts_with(joined, "private/tmp"@) || starts_with(joined, "private/var/folders"@)
        || starts_with(joined, "tmp"@) {
        StorageCategory::TemporaryData
    } else if names.len() > 0 && names.last() == "library"@ {
        StorageCategory::ApplicationData
    } else if starts_with(joined, "opt/homebrew"@) || starts_with(joined, "usr/local/cellar"@) {
        StorageCategory::DeveloperData
    } else if names.contains("documents"@) || names.contains("downloads"@) || names.contains(
        "desktop"@,
    ) || names.contains("movies"@) || names.contains("music"@) || names.contains("pictures"@)
        || names.contains("public"@) {
        StorageCategory::PersonalData
    } else if contains_seq(joined, "library/developer"@) || contains_seq(joined, ".npm"@)
        || contains_seq(joined, ".cache"@) || contains_seq(joined, ".gradle"@) || contains_seq(
        joined,
        "deriveddata"@,
    ) || contains_seq(joined, "coresimulator"@) {
        StorageCategory::DeveloperData
    } else if names.contains("applications"@) || extension(p) == Some("app"@) {
        StorageCategory::Applications
    } else if contains_seq(joined, "library/application support"@) || contains_seq(
        joined,
        "library/containers"@,
    ) || contains_seq(joined, "library/group containers"@) || contains_seq(
        joined,
        "library/preferences"@,
    ) {
        StorageCategory::ApplicationData
    } else if names.contains("system"@) || names.contains("private"@) || names.contains("var"@)
        || names.contains("usr"@) || names.contains("bin"@) || names.contains("sbin"@) {
        StorageCategory::SystemData
    } else if names.contains(".trash"@) || names.contains(".trashes"@) || names.contains(
        ".temporaryitems"@,
    ) || names.contains("tmp"@) || names.contains("caches"@) || names.contains("cache"@) {
        StorageCategory::TemporaryData
    } else if names.contains("users"@) {
        StorageCategory::PersonalData
    } else {
        StorageCategory::Other
    }
}

proof fn lemma_join_prefix(n: Seq<Seq<char>>, sep: Seq<char>, k: int)
    requires
        1 <= k <= n.len(),
    ensures
        join(n.take(k), sep).len() <= join(n, sep).len(),
        join(n, sep).subrange(0, join(n.take(k), sep).len() as int) == join(n.take(k), sep),
    decreases n.len(),
{
    if k == n.len() {
        assert(n.take(k) =~= n);
        assert(join(n, sep).subrange(0, join(n, sep).len() as int) =~= join(n, sep));
    } else {
        lemma_join_prefix(n.drop_last(), sep, k);
        assert(n.drop_last().take(k) =~= n.take(k));
        let whole = join(n, sep);
        let front = join(n.drop_last(), sep);
        let pre = join(n.take(k), sep);
        assert(whole == front + sep + n.last());
        assert(whole.subrange(0, pre.len() as int) =~= front.subrange(0, pre.len() as int));
    }
}

/// What the joined names start with when the first two names are `a`
/// and `b`.
proof fn lemma_join_starts(n: Seq<Seq<char>>, sep: Seq<char>)
    requires
        n.len() >= 2,
    ensures
        (n[0] + sep + n[1]).len() <= join(n, sep).len(),
        join(n, sep).subrange(0, (n[0] + sep + n[1]).len() as int) == n[0] + sep + n[1],
        n.len() >= 3 ==> (n[0] + sep + n[1] + sep + n[2]).len() <= join(n, sep).len(),
        n.len() >= 3 ==> join(n, sep).subrange(0, (n[0] + sep + n[1] + sep + n[2]).len() as int)
            == n[0] + sep + n[1] + sep + n[2],
{
    lemma_join_prefix(n, sep, 2);
    assert(n.take(2).drop_last() =~= n.take(1));
    assert(join(n.take(1), sep) == n[0]);
    assert(n.take(2).last() == n[1]);
    assert(join(n.take(2), sep) == n[0] + sep + n[1]);
    if n.len() >= 3 {
        lemma_join_prefix(n, sep, 3);
        assert(n.take(3).drop_last() =~= n.take(2));
        assert(n.take(2).drop_last() =~= n.take(1));
        assert(join(n.take(1), sep) == n[0]);
        assert(n.take(2).last() == n[1]);
        assert(n.take(3).last() == n[2]);
        assert(join(n.take(3), sep) == n[0] + sep + n[1] + sep + n[2]);
    }
}

/// Folders under `/opt/homebrew` or `/usr/local/Cellar` (in any letter
/// case) are developer data, unless they are a `Library` folder; the
/// temporary roots never begin that way.
pub proof fn lemma_package_managers_are_developer_data(p: Seq<char>)
    requires
        lower_names(p).len() >= 2,
        (lower_names(p)[0] == "opt"@ && lower_names(p)[1] == "homebrew"@) || (lower_names(p).len()
            >= 3 && lower_names(p)[0] == "usr"@ && lower_names(p)[1] == "local"@ && lower_names(p)[2]
            == "cellar"@),
        lower_names(p).last() != "library"@,
    ensures
        classify(p) == StorageCategory::DeveloperData,
{
    let n = lower_names(p);
    let j = join(n, "/"@);
    reveal_strlit("/");
    reveal_strlit("opt");
    reveal_strlit("homebrew");
    reveal_strlit("opt/homebrew");
    reveal_strlit("usr");
    reveal_strlit("local");
    reveal_strlit("cellar");
    reveal_strlit("usr/local/cellar");
    reveal_strlit("tmp");
    reveal_strlit("private/tmp");
    reveal_strlit("private/var/folders");
    lemma_join_starts(n, "/"@);
    if n[0] == "opt"@ && n[1] == "homebrew"@ {
        let pre = n[0] + "/"@ + n[1];
        assert(pre =~= "opt/homebrew"@);
        assert(j.subrange(0, pre.len() as int) == pre);
        assert(j.subrange(0, pre.len() as int)[0] == j[0]);
        assert(j[0] == pre[0]);
        assert(starts_with(j, "opt/homebrew"@));
    } else {
        let pre = n[0] + "/"@ + n[1] + "/"@ + n[2];
        assert(pre =~= "usr/local/cellar"@);
        assert(j.subrange(0, pre.len() as int) == pre);
        assert(j.subrange(0, pre.len() as int)[0] == j[0]);
        assert(j[0] == pre[0]);
        assert(starts_with(j, "usr/local/cellar"@));
    }
    assert(!starts_with(j, "tmp"@));
    assert(!starts_with(j, "private/tmp"@));
    assert(!starts_with(j, "private/var/folders"@));
}

proof fn lemma_join_first(n: Seq<Seq<char>>, sep: Seq<char>)
    requires
        n.len() >= 1,
    ensures
        n[0].len() <= join(n, sep).len(),
        join(n, sep).subrange(0, n[0].len() as int) == n[0],
{
    lemma_join_prefix(n, sep, 1);
    assert(join(n.take(1), sep) == n[0]);
}

/// Everything under `/tmp`, `/private/tmp` and `/private/var/folders` (in
/// any letter case) is temporary data.
pub proof fn lemma_temporary_roots(p: Seq<char>)
    requires
        lower_names(p).len() >= 1,
        lower_names(p)[0] == "tmp"@ || (lower_names(p).len() >= 2 && lower_names(p)[0]
            == "private"@ && lower_names(p)[1] == "tmp"@) || (lower_names(p).len() >= 3
            && lower_names(p)[0] == "private"@ && lower_names(p)[1] == "var"@ && lower_names(p)[2]
            == "folders"@),
    ensures
        classify(p) == StorageCategory::TemporaryData,
{
    let n = lower_names(p);
    let j = join(n, "/"@);
    reveal_strlit("/");
    reveal_strlit("tmp");
    reveal_strlit("private");
    reveal_strlit("var");
    reveal_strlit("folders");
    reveal_strlit("private/tmp");
    reveal_strlit("private/var/folders");
    lemma_join_first(n, "/"@);
    if n[0] == "tmp"@ {
        assert(starts_with(j, "tmp"@));
    } else if n[1] == "tmp"@ {
        lemma_join_starts(n, "/"@);
        assert(n[0] + "/"@ + n[1] =~= "private/tmp"@);
        assert(starts_with(j, "private/tmp"@));
    } else {
        lemma_join_starts(n, "/"@);
        assert(n[0] + "/"@ + n[1] + "/"@ + n[2] =~= "private/var/folders"@);
        assert(starts_with(j, "private/var/folders"@));
    }
}

/// Under `/Users` (in any letter case), a `Library` folder is application
/// data, and a folder inside Documents, Downloads, Desktop, Movies, Music,
/// Pictures or Public is personal data.
pub proof fn lemma_home_folders(p: Seq<char>, personal: Seq<char>)
    requires
        lower_names(p).len() >= 1,
        lower_names(p)[0] == "users"@,
    ensures
        lower_names(p).last() == "library"@ ==> classify(p) == StorageCategory::ApplicationData,
        lower_names(p).last() != "library"@ && lower_names(p).contains(personal) && (personal
            == "documents"@ || personal == "downloads"@ || personal == "desktop"@ || personal
            == "movies"@ || personal == "music"@ || personal == "pictures"@ || personal
            == "public"@) ==> classify(p) == StorageCategory::PersonalData,
{
    let n = lower_names(p);
    let j = join(n, "/"@);
    reveal_strlit("users");
    reveal_strlit("tmp");
    reveal_strlit("private/tmp");
    reveal_strlit("private/var/folders");
    reveal_strlit("opt/homebrew");
    reveal_strlit("usr/local/cellar");
    lemma_join_first(n, "/"@);
    assert(j.subrange(0, 5)[0] == j[0]);
    assert(j.subrange(0, 5)[2] == j[2]);
    assert(j[0] == 'u' && j[2] == 'e');
    assert(!starts_with(j, "tmp"@));
    assert(!starts_with(j, "private/tmp"@));
    assert(!starts_with(j, "private/var/folders"@));
    assert(!starts_with(j, "opt/homebrew"@));
    if starts_with(j, "usr/local/cellar"@) {
        assert(j.subrange(0, 16)[2] == j[2]);
    }
}

/// Whether `names` holds `word`.
fn has_name(names: &Vec<Vec<char>>, word: &str) -> (res: bool)
    ensures
        res == names@.map_values(|n: Vec<char>| n@).contains(word@),
{
    let w = chars_of(word);
    let ghost nv = names@.map_values(|n: Vec<char>| n@);
    let mut i: usize = 0;
    while i < names.len()
        invariant
            i <= names@.len(),
            nv == names@.map_values(|n: Vec<char>| n@),
            w@ == word@,
            forall|j: int| 0 <= j < i ==> names@[j]@ != word@,
        decreases names@.len() - i,
    {
        if chars_eq(&names[i], &w) {
            assert(nv[i as int] == word@);
            return true;
        }
        i = i + 1;
    }
    proof {
        if nv.contains(word@) {
            let k = choose|k: int| 0 <= k < nv.len() && nv[k] == word@;
            assert(names@[k]@ == word@);
        }
    }
    false
}

/// Whether `joined` begins with `word`.
fn begins(joined: &Vec<char>, word: &str) -> (res: bool)
    ensures
        res == starts_with(joined@, word@),
{
    let w = chars_of(word);
    starts_with_chars(joined, &w)
}

/// Whether `word` occurs in `joined`.
fn holds(joined: &Vec<char>, word: &str) -> (res: bool)
    ensures
        res == contains_seq(joined@, word@),
{
    let w = chars_of(word);
    contains_chars(joined, &w)
}

/// The lowercased names of the components, in order.
fn lowercase_names(c: &Vec<Component>) -> (res: Vec<Vec<char>>)
    ensures
        res@.map_values(|n: Vec<char>| n@) == normal_names(comps_view(c@)).map_values(
            |n: Seq<char>| ascii_lowercase(n),
        ),
{
    let mut res: Vec<Vec<char>> = Vec::new();
    let mut i: usize = 0;
    while i < c.len()
        invariant
            i <= c@.len(),
            res@.map_values(|n: Vec<char>| n@) == normal_names(comps_view(c@.take(i as int))).map_values(
                |n: Seq<char>| ascii_lowercase(n),
            ),
        decreases c@.len() - i,
    {
        let ghost before = res@;
        proof {
            assert(comps_view(c@.take(i + 1)).drop_last() =~= comps_view(c@.take(i as int)));
            assert(comps_view(c@.take(i + 1)).last() == c@[i as int]@);
        }
        match &c[i] {
            Component::Normal(n) => {
                let lower = lower_ascii(n);
                res.push(lower);
                proof {
                    assert(res@.map_values(|n: Vec<char>| n@) =~= before.map_values(
                        |n: Vec<char>| n@,
                    ).push(ascii_lowercase(n@)));
                }
            },
            _ => {},
        }
        i = i + 1;
    }
    assert(c@.take(c@.len() as int) =~= c@);
    res
}

/// The parts joined with `/`.
fn join_slash(parts: &Vec<Vec<char>>) -> (res: Vec<char>)
    ensures
        res@ == join(parts@.map_values(|n: Vec<char>| n@), "/"@),
{
    let ghost pv = parts@.map_values(|n: Vec<char>| n@);
    let slash = chars_of("/");
    let mut res: Vec<char> = Vec::new();
    let mut i: usize = 0;
    while i < parts.len()
        invariant
            i <= parts@.len(),
            pv == parts@.map_values(|n: Vec<char>| n@),
            slash@ == "/"@,
            res@ == join(pv.take(i as int), "/"@),
        decreases parts@.len() - i,
    {
        proof {
            assert(pv.take(i + 1).drop_last() =~= pv.take(i as int));
        }
        if i > 0 {
            crate::text::append_chars(&mut res, &slash);
        }
        crate::text::append_chars(&mut res, &parts[i]);
        i = i + 1;
        proof {
            if i == 1 {
                assert(res@ =~= pv.take(1)[0]);
            }
        }
    }
    assert(pv.take(parts@.len() as int) =~= pv);
    res
}

/// The extension of the last component, when it is a name.
fn extension_is_app(c: &Vec<Component>, p: Ghost<Seq<char>>) -> (res: bool)
    requires
        comps_view(c@) == components(p@),
    ensures
        res == (extension(p@) == Some("app"@)),
{
    if c.len() == 0 {
        return false;
    }
    match &c[c.len() - 1] {
        Component::Normal(name) => {
            proof {
                assert(comps_view(c@).last() == c@[c@.len() - 1]@);
                assert(file_name(p@) == Some(name@));
            }
            let mut k: usize = name.len();
            assert(name@.take(name@.len() as int) =~= name@);
            while k > 0 && name[k - 1] != '.'
                invariant
                    k <= name@.len(),
                    last_dot(name@) == last_dot(name@.take(k as int)),
                decreases k,
            {
                proof {
                    assert(name@.take(k as int).drop_last() =~= name@.take(k - 1));
                }
                k = k - 1;
            }
            proof {
                assert(name@.take(name@.len() as int) =~= name@);
            }
            if k <= 1 {
                proof {
                    if k == 1 {
                        assert(last_dot(name@.take(1)) == Some(0int));
                    } else {
                        assert(last_dot(name@.take(0)) is None);
                    }
                }
                return false;
            }
            proof {
                assert(last_dot(name@.take(k as int)) == Some(k - 1));
            }
            let tail = crate::text::slice_chars(name, k, name.len());
            let app = chars_of("app");
            proof {
                assert(tail@ =~= name@.skip(k as int));
            }
            chars_eq(&tail, &app)
        },
        _ => {
            proof {
                assert(comps_view(c@).last() == c@[c@.len() - 1]@);
            }
            false
        },
    }
}

/// The category of a path.
pub fn classify_path(path: &str) -> (res: StorageCategory)
    ensures
        res == classify(path@),
{
    let chars = chars_of(path);
    let comps = path_components(&chars);
    let names = lowercase_names(&comps);
    let joined = join_slash(&names);
    let ghost nv = names@.map_values(|n: Vec<char>| n@);
    assert(nv == lower_names(path@));
    if begins(&joined, "private/tmp") || begins(&joined, "private/var/folders") || begins(
        &joined,
        "tmp",
    ) {
        return StorageCategory::TemporaryData;
    }
    if names.len() > 0 {
        let last = &names[names.len() - 1];
        let library = chars_of("library");
        assert(nv.last() == last@);
        if chars_eq(last, &library) {
            return StorageCategory::ApplicationData;
        }
    }
    if begins(&joined, "opt/homebrew") || begins(&joined, "usr/local/cellar") {
        return StorageCategory::DeveloperData;
    }
    if has_name(&names, "documents") || has_name(&names, "downloads") || has_name(
        &names,
        "desktop",
    ) || has_name(&names, "movies") || has_name(&names, "music") || has_name(&names, "pictures")
        || has_name(&names, "public") {
        return StorageCategory::PersonalData;
    }
    if holds(&joined, "library/developer") || holds(&joined, ".npm") || holds(&joined, ".cache")
        || holds(&joined, ".gradle") || holds(&joined, "deriveddata") || holds(
        &joined,
        "coresimulator",
    ) {
        return StorageCategory::DeveloperData;
    }
    if has_name(&names, "applications") || extension_is_app(&comps, Ghost(path@)) {
        return StorageCategory::Applications;
    }
    if holds(&joined, "library/application support") || holds(&joined, "library/containers")
        || holds(&joined, "library/group containers") || holds(&joined, "library/preferences") {
        return StorageCategory::ApplicationData;
    }
    if has_name(&names, "system") || has_name(&names, "private") || has_name(&names, "var")
        || has_name(&names, "usr") || has_name(&names, "bin") || has_name(&names, "sbin") {
        return StorageCategory::SystemData;
    }
    if has_name(&names, ".trash") || has_name(&names, ".trashes") || has_name(
        &names,
        ".temporaryitems",
    ) || has_name(&names, "tmp") || has_name(&names, "caches") || has_name(&names, "cache") {
        return StorageCategory::TemporaryData;
    }
    if has_name(&names, "users") {
        StorageCategory::PersonalData
    } else {
        StorageCategory::Other
    }
}

// ---------------------------------------------------------------------------
// Items
// ---------------------------------------------------------------------------

/// A path found during the read-only inventory.
#[derive(Clone, Debug)]
pub struct StorageItem {
    pub path: String,
    pub size_kb: u64,
    pub kind: StorageItemKind,
    pub category: StorageCategory,
}

/// What an item is, as the contracts read it.
pub ghost struct ItemView {
    pub path: Seq<char>,
    pub size_kb: u64,
    pub kind: StorageItemKind,
    pub category: StorageCategory,
}

impl View for StorageItem {
    type V = ItemView;

    open spec fn view(&self) -> ItemView {
        ItemView {
            path: self.path@,
            size_kb: self.size_kb,
            kind: self.kind,
            category: self.category,
        }
    }
}

/// The views of a list of items.
pub open spec fn item_views(s: Seq<StorageItem>) -> Seq<ItemView> {
    s.map_values(|i: StorageItem| i@)
}

/// Report order: `a` may come before `b` when it is larger, or as large and
/// not after it by path.
pub open spec fn item_le(a: ItemView, b: ItemView) -> bool {
    a.size_kb > b.size_kb || (a.size_kb == b.size_kb && !path_lt(b.path, a.path))
}

/// Report order as a relation.
pub open spec fn report_order() -> spec_fn(ItemView, ItemView) -> bool {
    |a: ItemView, b: ItemView| item_le(a, b)
}

impl StorageItem {
    /// An item of the given size and kind; its category is that of its path.
    pub fn new(path: &str, size_kb: u64, kind: StorageItemKind) -> (res: StorageItem)
        ensures
            res@ == (ItemView { path: path@, size_kb, kind, category: classify(path@) }),
    {
        StorageItem { path: path.to_owned(), size_kb, kind, category: classify_path(path) }
    }

    /// A copy of the item.
    pub fn duplicate(&self) -> (res: StorageItem)
        ensures
            res@ == self@,
    {
        StorageItem {
            path: self.path.clone(),
            size_kb: self.size_kb,
            kind: self.kind,
            category: self.category,
        }
    }
}

impl SortKey for StorageItem {
    open spec fn key_le(a: ItemView, b: ItemView) -> bool {
        item_le(a, b)
    }

    fn le(&self, other: &Self) -> (r: bool) {
        if self.size_kb != other.size_kb {
            self.size_kb > other.size_kb
        } else {
            !path_less(other.path.as_str(), self.path.as_str())
        }
    }

    proof fn lemma_key_le_preorder() {
        assert forall|a: ItemView, b: ItemView, c: ItemView|
            #[trigger] item_le(a, b) && #[trigger] item_le(b, c) implies item_le(a, c) by {
            if a.size_kb == b.size_kb && b.size_kb == c.size_kb {
                lemma_path_le_trans(a.path, b.path, c.path);
            }
        }
        assert forall|a: ItemView, b: ItemView| #[trigger] item_le(a, b) || #[trigger] item_le(b, a) by {
            lemma_comps_lt_total(components(a.path), components(b.path));
            if path_lt(a.path, b.path) {
                lemma_comps_lt_asym(components(a.path), components(b.path));
            }
        }
    }
}

proof fn lemma_path_le_trans(a: Seq<char>, b: Seq<char>, c: Seq<char>)
    requires
        !path_lt(b, a),
        !path_lt(c, b),
    ensures
        !path_lt(c, a),
{
    let (ca, cb, cc) = (components(a), components(b), components(c));
    lemma_comps_lt_total(ca, cb);
    lemma_comps_lt_total(cb, cc);
    if comps_lt(cc, ca) {
        if ca == cb {
        } else if cb == cc {
        } else {
            lemma_comps_lt_trans(ca, cb, cc);
            lemma_comps_lt_asym(ca, cc);
        }
    }
}

/// Sorts items largest first, then by path; items that compare equal keep
/// their order.
pub fn sort_items(v: Vec<StorageItem>) -> (res: Vec<StorageItem>)
    ensures
        item_views(res@) == crate::sort::merge_sort(item_views(v@), report_order()),
{
    let res = crate::sort::sort_vec(v);
    assert(report_order() =~= (|a: ItemView, b: ItemView| <StorageItem as SortKey>::key_le(a, b)));
    assert(item_views(res@) == crate::sort::views(res@));
    assert(item_views(v@) == crate::sort::views(v@));
    res
}

// ---------------------------------------------------------------------------
// The direct-child index
// ---------------------------------------------------------------------------

/// A folder and the items directly inside it.
pub struct ChildEntry {
    pub path: String,
    pub children: Vec<StorageItem>,
}

/// The complete direct-child index used for interactive exploration: for
/// each folder, the items directly inside it. Lookups compare paths by
/// components, as a map keyed by `PathBuf` does.
pub struct ChildIndex {
    entries: Vec<ChildEntry>,
}

/// The view of one entry.
pub open spec fn entry_view(e: ChildEntry) -> (Seq<char>, Seq<ItemView>) {
    (e.path@, item_views(e.children@))
}

/// The children listed for `p`: those of the first entry whose path equals
/// `p`.
pub open spec fn lookup(entries: Seq<(Seq<char>, Seq<ItemView>)>, p: Seq<char>) -> Option<
    Seq<ItemView>,
>
    decreases entries.len(),
{
    if entries.len() == 0 {
        None
    } else if crate::path::path_eq(entries[0].0, p) {
        Some(entries[0].1)
    } else {
        lookup(entries.drop_first(), p)
    }
}

impl View for ChildIndex {
    type V = Seq<(Seq<char>, Seq<ItemView>)>;

    closed spec fn view(&self) -> Seq<(Seq<char>, Seq<ItemView>)> {
        self.entries@.map_values(|e: ChildEntry| entry_view(e))
    }
}

proof fn lemma_lookup_found(s: Seq<(Seq<char>, Seq<ItemView>)>, p: Seq<char>, i: int)
    requires
        0 <= i < s.len(),
        crate::path::path_eq(s[i].0, p),
        forall|j: int| 0 <= j < i ==> !crate::path::path_eq(#[trigger] s[j].0, p),
    ensures
        lookup(s, p) == Some(s[i].1),
    decreases i,
{
    if i > 0 {
        lemma_lookup_found(s.drop_first(), p, i - 1);
    }
}

proof fn lemma_lookup_absent(s: Seq<(Seq<char>, Seq<ItemView>)>, p: Seq<char>)
    requires
        forall|j: int| 0 <= j < s.len() ==> !crate::path::path_eq(#[trigger] s[j].0, p),
    ensures
        lookup(s, p) is None,
    decreases s.len(),
{
    if s.len() > 0 {
        lemma_lookup_absent(s.drop_first(), p);
    }
}

proof fn lemma_lookup_update(
    s: Seq<(Seq<char>, Seq<ItemView>)>,
    i: int,
    v: Seq<ItemView>,
    q: Seq<char>,
)
    requires
        0 <= i < s.len(),
    ensures
        !crate::path::path_eq(s[i].0, q) ==> lookup(s.update(i, (s[i].0, v)), q) == lookup(s, q),
        (crate::path::path_eq(s[i].0, q) && forall|j: int|
            0 <= j < i ==> !crate::path::path_eq(#[trigger] s[j].0, q)) ==> lookup(
            s.update(i, (s[i].0, v)),
            q,
        ) == Some(v),
    decreases i,
{
    if i > 0 {
        lemma_lookup_update(s.drop_first(), i - 1, v, q);
        assert(s.update(i, (s[i].0, v)).drop_first() =~= s.drop_first().update(
            i - 1,
            (s[i].0, v),
        ));
        assert(s.update(i, (s[i].0, v))[0] == s[0]);
    } else {
        assert(s.update(0, (s[0].0, v)).drop_first() =~= s.drop_first());
    }
}

proof fn lemma_lookup_push(s: Seq<(Seq<char>, Seq<ItemView>)>, e: (Seq<char>, Seq<ItemView>), q: Seq<char>)
    ensures
        lookup(s.push(e), q) == (match lookup(s, q) {
            Some(v) => Some(v),
            None => if crate::path::path_eq(e.0, q) {
                Some(e.1)
            } else {
                None
            },
        }),
    decreases s.len(),
{
    if s.len() > 0 {
        lemma_lookup_push(s.drop_first(), e, q);
        assert(s.push(e).drop_first() =~= s.drop_first().push(e));
        assert(s.push(e)[0] == s[0]);
    } else {
        let empty = Seq::<(Seq<char>, Seq<ItemView>)>::empty();
        assert(s.push(e).drop_first() =~= empty);
        assert(lookup(empty, q) is None);
        assert(s.push(e)[0] == e);
        assert(lookup(s, q) is None);
    }
}

impl ChildIndex {
    /// An index with no folders.
    pub fn new() -> (res: ChildIndex)
        ensures
            res@ == Seq::<(Seq<char>, Seq<ItemView>)>::empty(),
    {
        let res = ChildIndex { entries: Vec::new() };
        assert(res@ =~= Seq::<(Seq<char>, Seq<ItemView>)>::empty());
        res
    }

    /// The number of folders listed.
    pub fn len(&self) -> (res: usize)
        ensures
            res == self@.len(),
    {
        self.entries.len()
    }

    /// The folder at position `i` and its children.
    pub fn entry(&self, i: usize) -> (res: (&String, &Vec<StorageItem>))
        requires
            i < self@.len(),
        ensures
            res.0@ == self@[i as int].0,
            item_views(res.1@) == self@[i as int].1,
    {
        let e = &self.entries[i];
        (&e.path, &e.children)
    }

    /// The position of the first folder whose path equals `path`.
    fn position(&self, path: &str) -> (res: Option<usize>)
        ensures
            match res {
                Some(i) => i < self@.len() && crate::path::path_eq(self@[i as int].0, path@)
                    && forall|j: int|
                    0 <= j < i ==> !crate::path::path_eq(#[trigger] self@[j].0, path@),
                None => forall|j: int|
                    0 <= j < self@.len() ==> !crate::path::path_eq(#[trigger] self@[j].0, path@),
            },
    {
        let mut i: usize = 0;
        while i < self.entries.len()
            invariant
                i <= self@.len(),
                self@.len() == self.entries@.len(),
                forall|j: int| 0 <= j < i ==> !crate::path::path_eq(#[trigger] self@[j].0, path@),
            decreases self.entries@.len() - i,
        {
            assert(self@[i as int].0 == self.entries@[i as int].path@);
            if crate::path::paths_equal(self.entries[i].path.as_str(), path) {
                return Some(i);
            }
            i = i + 1;
        }
        None
    }

    /// The items directly inside `path`, if it is listed.
    pub fn get(&self, path: &str) -> (res: Option<&Vec<StorageItem>>)
        ensures
            match res {
                Some(v) => lookup(self@, path@) == Some(item_views(v@)),
                None => lookup(self@, path@) is None,
            },
    {
        match self.position(path) {
            Some(i) => {
                proof {
                    lemma_lookup_found(self@, path@, i as int);
                }
                Some(&self.entries[i].children)
            },
            None => {
                proof {
                    lemma_lookup_absent(self@, path@);
                }
                None
            },
        }
    }

    /// Lists `children` for `path`, replacing what was listed for it.
    pub fn insert(&mut self, path: String, children: Vec<StorageItem>)
        ensures
            lookup(final(self)@, path@) == Some(item_views(children@)),
            forall|q: Seq<char>|
                !crate::path::path_eq(path@, q) ==> #[trigger] lookup(final(self)@, q) == lookup(
                    old(self)@,
                    q,
                ),
    {
        let ghost pv = path@;
        let ghost cv = item_views(children@);
        match self.position(path.as_str()) {
            Some(i) => {
                let ghost before = self@;
                self.entries[i].children = children;
                proof {
                    assert(self@ =~= before.update(i as int, (before[i as int].0, cv)));
                    lemma_lookup_update(before, i as int, cv, pv);
                    assert forall|q: Seq<char>| !crate::path::path_eq(pv, q) implies #[trigger] lookup(
                        self@,
                        q,
                    ) == lookup(before, q) by {
                        lemma_lookup_update(before, i as int, cv, q);
                        if crate::path::path_eq(before[i as int].0, q) {
                            // path equality is an equivalence on components
                            assert(components(before[i as int].0) == components(pv));
                        }
                    }
                }
            },
            None => {
                let ghost before = self@;
                self.entries.push(ChildEntry { path, children });
                proof {
                    assert(self@ =~= before.push((pv, cv)));
                    lemma_lookup_push(before, (pv, cv), pv);
                    lemma_lookup_absent(before, pv);
                    assert forall|q: Seq<char>| !crate::path::path_eq(pv, q) implies #[trigger] lookup(
                        self@,
                        q,
                    ) == lookup(before, q) by {
                        lemma_lookup_push(before, (pv, cv), q);
                    }
                }
            },
        }
    }

    /// Adds a folder with no children yet at the end and returns its position.
    pub fn push_folder(&mut self, path: String) -> (res: usize)
        ensures
            final(self)@ == old(self)@.push((path@, Seq::<ItemView>::empty())),
            res == old(self)@.len(),
    {
        let ghost before = self@;
        let ghost pv = path@;
        let children: Vec<StorageItem> = Vec::new();
        assert(item_views(children@) =~= Seq::<ItemView>::empty());
        self.entries.push(ChildEntry { path, children });
        assert(self@ =~= before.push((pv, Seq::<ItemView>::empty())));
        self.entries.len() - 1
    }

    /// Adds `item` to the children of the folder at position `i`.
    pub fn push_child(&mut self, i: usize, item: StorageItem)
        requires
            i < old(self)@.len(),
        ensures
            final(self)@ == old(self)@.update(
                i as int,
                (old(self)@[i as int].0, old(self)@[i as int].1.push(item@)),
            ),
    {
        let ghost before = self@;
        let ghost iv = item@;
        let mut children: Vec<StorageItem> = Vec::new();
        std::mem::swap(&mut children, &mut self.entries[i].children);
        let ghost cv = children@;
        children.push(item);
        self.entries[i].children = children;
        proof {
            assert(item_views(children@) =~= item_views(cv).push(iv));
            assert(self@ =~= before.update(i as int, (before[i as int].0, before[i as int].1.push(iv))));
        }
    }
}

// ---------------------------------------------------------------------------
// The inventory report
// ---------------------------------------------------------------------------

/// One root of the walk and what was measured under it.
#[derive(Clone, Debug)]
pub struct StorageRoot {
    pub path: String,
    pub size_kb: u64,
    pub device: u64,
    pub scan_errors: u64,
}

/// A measured walk checkpoint, not an estimate of the work remaining.
#[derive(Clone, Debug)]
pub struct ScanProgress {
    pub items: u64,
    pub size_kb: u64,
    pub errors: u64,
    pub path: String,
}

impl Default for ScanProgress {
    fn default() -> (res: ScanProgress)
        ensures
            res.items == 0 && res.size_kb == 0 && res.errors == 0 && res.path@ == Seq::<char>::empty(),
    {
        ScanProgress { items: 0, size_kb: 0, errors: 0, path: String::new() }
    }
}

/// The result of a storage inventory. `used_kb` comes from filesystem
/// accounting, while `scanned_on_volume_kb` is what the directory walk could
/// observe. Their difference is useful: it can point to protected paths,
/// APFS snapshots, purgeable/system-managed data, or a scan that was not
/// complete.
pub struct StorageInventory {
    pub volume: Option<VolumeStats>,
    pub volume_error: Option<String>,
    pub roots: Vec<StorageRoot>,
    pub scanned_kb: u64,
    pub scanned_on_volume_kb: u64,
    pub unaccounted_kb: u64,
    pub inventory_overage_kb: u64,
    /// Dates of the local APFS Time Machine snapshots on the accounted
    /// volume, report-only. Snapshots hold deleted data and are a common
    /// reason a directory walk finds less space than `df` reports as used.
    pub local_snapshots: Vec<String>,
    pub scanned_items: u64,
    pub scan_errors: u64,
    pub scan_error_paths: Vec<String>,
    pub complete: bool,
    pub top_level: Vec<StorageItem>,
    pub largest: Vec<StorageItem>,
    /// Complete direct-child index for interactive exploration; omitted from reports.
    pub children: ChildIndex,
}

impl StorageInventory {
    /// A report for an unexpected worker failure: one root with one error,
    /// nothing measured, marked incomplete. This keeps reports honest instead
    /// of presenting an empty volume as though it had been scanned.
    pub fn unavailable(scan_root: &str, error: String) -> (res: StorageInventory)
        ensures
            res.volume is None,
            res.volume_error matches Some(e) && e@ == error@,
            res.roots@.len() == 1,
            res.roots@[0].path@ == scan_root@,
            res.roots@[0].size_kb == 0,
            res.roots@[0].device == 0,
            res.roots@[0].scan_errors == 1,
            res.scanned_kb == 0,
            res.scanned_on_volume_kb == 0,
            res.unaccounted_kb == 0,
            res.inventory_overage_kb == 0,
            res.local_snapshots@.len() == 0,
            res.scanned_items == 0,
            res.scan_errors == 1,
            res.scan_error_paths@.len() == 1,
            res.scan_error_paths@[0]@ == scan_root@,
            !res.complete,
            res.top_level@.len() == 0,
            res.largest@.len() == 0,
            res.children@.len() == 0,
    {
        let mut roots: Vec<StorageRoot> = Vec::new();
        roots.push(StorageRoot { path: scan_root.to_owned(), size_kb: 0, device: 0, scan_errors: 1 });
        let mut error_paths: Vec<String> = Vec::new();
        error_paths.push(scan_root.to_owned());
        StorageInventory {
            volume: None,
            volume_error: Some(error),
            roots,
            scanned_kb: 0,
            scanned_on_volume_kb: 0,
            unaccounted_kb: 0,
            inventory_overage_kb: 0,
            local_snapshots: Vec::new(),
            scanned_items: 0,
            scan_errors: 1,
            scan_error_paths: error_paths,
            complete: false,
            top_level: Vec::new(),
            largest: Vec::new(),
            children: ChildIndex::new(),
        }
    }

    /// Used space of the accounted volume, or zero without accounting.
    pub fn used_kb(&self) -> (res: u64)
        ensures
            res == match self.volume {
                Some(v) => v.used_kb,
                None => 0,
            },
    {
        match &self.volume {
            Some(volume) => volume.used_kb,
            None => 0,
        }
    }

    /// Free space of the accounted volume, or zero without accounting.
    pub fn free_kb(&self) -> (res: u64)
        ensures
            res == match self.volume {
                Some(v) => v.free_kb,
                None => 0,
            },
    {
        match &self.volume {
            Some(volume) => volume.free_kb,
            None => 0,
        }
    }

    /// Capacity of the accounted volume, or zero without accounting.
    pub fn capacity_kb(&self) -> (res: u64)
        ensures
            res == match self.volume {
                Some(v) => v.capacity_kb,
                None => 0,
            },
    {
        match &self.volume {
            Some(volume) => volume.capacity_kb,
            None => 0,
        }
    }
}

// ---------------------------------------------------------------------------
// Breakdown
// ---------------------------------------------------------------------------

/// Where the measured space went, as folders that mean something: folders
/// are opened while their name is generic (`Library`, `Caches`), while one
/// child holds most of their space, or while they contain a cleanup target,
/// and never past a cleanup target. Items are sorted largest first;
/// macOS-managed space is summed into `macos_kb`.
#[derive(Clone, Debug)]
pub struct Breakdown {
    pub items: Vec<StorageItem>,
    pub macos_kb: u64,
}

/// macOS-managed locations, reported together as one row.
pub open spec fn is_macos_path(p: Seq<char>) -> bool {
    ||| crate::path::path_starts_with(p, "/System"@)
    ||| crate::path::path_starts_with(p, "/usr"@)
    ||| crate::path::path_starts_with(p, "/bin"@)
    ||| crate::path::path_starts_with(p, "/sbin"@)
    ||| crate::path::path_starts_with(p, "/cores"@)
    ||| crate::path::path_starts_with(p, "/private/var/vm"@)
    ||| crate::path::path_ends_with(p, "macOS Install Data"@)
}

/// Whether `path` is a macOS-managed location.
pub fn is_macos_system(path: &str) -> (res: bool)
    ensures
        res == is_macos_path(path@),
{
    crate::path::starts_with_path(path, "/System") || crate::path::starts_with_path(path, "/usr")
        || crate::path::starts_with_path(path, "/bin") || crate::path::starts_with_path(path, "/sbin")
        || crate::path::starts_with_path(path, "/cores") || crate::path::starts_with_path(
        path,
        "/private/var/vm",
    ) || crate::path::ends_with_path(path, "macOS Install Data")
}

/// Folder names that say nothing about what fills them; the breakdown
/// always looks inside these instead of reporting them.
pub open spec fn is_container_name(n: Seq<char>) -> bool {
    ||| n == "Users"@
    ||| n == "Library"@
    ||| n == "Application Support"@
    ||| n == "Containers"@
    ||| n == "Group Containers"@
    ||| n == "Caches"@
    ||| n == "Developer"@
    ||| n == "Xcode"@
    ||| n == "CoreSimulator"@
    ||| n == ".cache"@
    ||| n == ".local"@
    ||| n == "share"@
    ||| n == "Data"@
    ||| n == "private"@
    ||| n == "var"@
    ||| n == "opt"@
}

fn name_is(n: &Vec<char>, word: &str) -> (res: bool)
    ensures
        res == (n@ == word@),
{
    let w = chars_of(word);
    chars_eq(n, &w)
}

fn container_name(n: &Vec<char>) -> (res: bool)
    ensures
        res == is_container_name(n@),
{
    name_is(n, "Users") || name_is(n, "Library") || name_is(n, "Application Support") || name_is(
        n,
        "Containers",
    ) || name_is(n, "Group Containers") || name_is(n, "Caches") || name_is(n, "Developer")
        || name_is(n, "Xcode") || name_is(n, "CoreSimulator") || name_is(n, ".cache") || name_is(
        n,
        ".local",
    ) || name_is(n, "share") || name_is(n, "Data") || name_is(n, "private") || name_is(n, "var")
        || name_is(n, "opt")
}

/// The path's name says nothing about its contents: a container name, or a
/// home folder directly under `/Users`.
pub open spec fn is_generic(p: Seq<char>) -> bool {
    (match file_name(p) {
        Some(n) => is_container_name(n),
        None => false,
    }) || crate::path::parent_is(p, "/Users"@)
}

/// Some target equals `p`.
pub open spec fn is_target(targets: Seq<Seq<char>>, p: Seq<char>) -> bool {
    exists|i: int| 0 <= i < targets.len() && crate::path::path_eq(#[trigger] targets[i], p)
}

/// Some target lies strictly below `p`.
pub open spec fn holds_target(targets: Seq<Seq<char>>, p: Seq<char>) -> bool {
    exists|i: int|
        0 <= i < targets.len() && !crate::path::path_eq(#[trigger] targets[i], p)
            && crate::path::path_starts_with(targets[i], p)
}

/// The largest size among the items (zero for none).
pub open spec fn max_size(s: Seq<ItemView>) -> int
    decreases s.len(),
{
    if s.len() == 0 {
        0
    } else {
        let m = max_size(s.drop_last());
        if s.last().size_kb > m {
            s.last().size_kb as int
        } else {
            m
        }
    }
}

/// Whether the breakdown looks inside `item` rather than reporting it, with
/// `fuel` more levels allowed below it.
pub open spec fn opens(
    idx: Seq<(Seq<char>, Seq<ItemView>)>,
    targets: Seq<Seq<char>>,
    item: ItemView,
    fuel: nat,
) -> bool {
    match lookup(idx, item.path) {
        Some(c) => {
            &&& !is_target(targets, item.path)
            &&& fuel > 0
            &&& item.kind == StorageItemKind::Directory
            &&& c.len() > 0
            &&& (is_generic(item.path) || max_size(c) * 10 >= item.size_kb * 6 || holds_target(
                targets,
                item.path,
            ))
        },
        None => false,
    }
}

/// What the breakdown reports for `item`: the items it lists, in the order
/// it meets them, and the macOS-managed space it sums.
pub open spec fn expand(
    idx: Seq<(Seq<char>, Seq<ItemView>)>,
    targets: Seq<Seq<char>>,
    min_kb: u64,
    item: ItemView,
    fuel: nat,
) -> (Seq<ItemView>, int)
    decreases fuel, 0nat,
{
    if is_macos_path(item.path) {
        (Seq::empty(), item.size_kb as int)
    } else if item.size_kb < min_kb {
        (Seq::empty(), 0)
    } else if opens(idx, targets, item, fuel) {
        expand_list(idx, targets, min_kb, lookup(idx, item.path).unwrap(), (fuel - 1) as nat)
    } else {
        (seq![item], 0)
    }
}

/// A listed folder with a cleanup target somewhere below it is opened:
/// what it reports is what its children report, one level deeper, not the
/// folder as a whole, whatever its name or the share of its largest child.
pub proof fn lemma_target_holder_is_opened(
    idx: Seq<(Seq<char>, Seq<ItemView>)>,
    targets: Seq<Seq<char>>,
    min_kb: u64,
    item: ItemView,
    fuel: nat,
)
    requires
        lookup(idx, item.path) is Some,
        lookup(idx, item.path).unwrap().len() > 0,
        item.kind == StorageItemKind::Directory,
        item.size_kb >= min_kb,
        fuel > 0,
        !is_macos_path(item.path),
        !is_target(targets, item.path),
        holds_target(targets, item.path),
    ensures
        expand(idx, targets, min_kb, item, fuel) == expand_list(
            idx,
            targets,
            min_kb,
            lookup(idx, item.path).unwrap(),
            (fuel - 1) as nat,
        ),
{
}

/// A listed folder that is a generic container (such as `Library` or a
/// home folder), or whose largest child holds at least six tenths of it,
/// is opened too.
pub proof fn lemma_generic_or_dominated_is_opened(
    idx: Seq<(Seq<char>, Seq<ItemView>)>,
    targets: Seq<Seq<char>>,
    min_kb: u64,
    item: ItemView,
    fuel: nat,
)
    requires
        lookup(idx, item.path) is Some,
        lookup(idx, item.path).unwrap().len() > 0,
        item.kind == StorageItemKind::Directory,
        item.size_kb >= min_kb,
        fuel > 0,
        !is_macos_path(item.path),
        !is_target(targets, item.path),
        is_generic(item.path) || max_size(lookup(idx, item.path).unwrap()) * 10 >= item.size_kb
            * 6,
    ensures
        expand(idx, targets, min_kb, item, fuel) == expand_list(
            idx,
            targets,
            min_kb,
            lookup(idx, item.path).unwrap(),
            (fuel - 1) as nat,
        ),
{
}

/// A listed folder of at least `min_kb` that is a cleanup target, or is
/// neither generic, nor dominated by one child, nor holds a target below
/// it, is reported whole.
pub proof fn lemma_plain_folder_is_reported_whole(
    idx: Seq<(Seq<char>, Seq<ItemView>)>,
    targets: Seq<Seq<char>>,
    min_kb: u64,
    item: ItemView,
    fuel: nat,
)
    requires
        item.size_kb >= min_kb,
        !is_macos_path(item.path),
        is_target(targets, item.path) || (lookup(idx, item.path) matches Some(c) && !is_generic(
            item.path,
        ) && max_size(c) * 10 < item.size_kb * 6 && !holds_target(targets, item.path)),
    ensures
        expand(idx, targets, min_kb, item, fuel) == (seq![item], 0int),
{
}

/// What the breakdown reports for a list of items, taken from its end.
pub open spec fn expand_list(
    idx: Seq<(Seq<char>, Seq<ItemView>)>,
    targets: Seq<Seq<char>>,
    min_kb: u64,
    items: Seq<ItemView>,
    fuel: nat,
) -> (Seq<ItemView>, int)
    decreases fuel, items.len(),
{
    if items.len() == 0 {
        (Seq::empty(), 0)
    } else {
        let a = expand(idx, targets, min_kb, items.last(), fuel);
        let b = expand_list(idx, targets, min_kb, items.drop_last(), fuel);
        (a.0 + b.0, a.1 + b.1)
    }
}

/// The breakdown of the top-level items, before sorting.
pub open spec fn breakdown_of(
    idx: Seq<(Seq<char>, Seq<ItemView>)>,
    top: Seq<ItemView>,
    targets: Seq<Seq<char>>,
    min_kb: u64,
) -> (Seq<ItemView>, int) {
    expand_list(idx, targets, min_kb, top, 10)
}

/// The views of a list of strings.
pub open spec fn string_views(s: Seq<String>) -> Seq<Seq<char>> {
    s.map_values(|t: String| t@)
}

pub proof fn lemma_expand_nonneg(
    idx: Seq<(Seq<char>, Seq<ItemView>)>,
    targets: Seq<Seq<char>>,
    min_kb: u64,
    item: ItemView,
    fuel: nat,
)
    ensures
        expand(idx, targets, min_kb, item, fuel).1 >= 0,
    decreases fuel, 0nat,
{
    if !is_macos_path(item.path) && item.size_kb >= min_kb && opens(idx, targets, item, fuel) {
        lemma_expand_list_nonneg(idx, targets, min_kb, lookup(idx, item.path).unwrap(), (fuel - 1) as nat);
    }
}

pub proof fn lemma_expand_list_nonneg(
    idx: Seq<(Seq<char>, Seq<ItemView>)>,
    targets: Seq<Seq<char>>,
    min_kb: u64,
    items: Seq<ItemView>,
    fuel: nat,
)
    ensures
        expand_list(idx, targets, min_kb, items, fuel).1 >= 0,
    decreases fuel, items.len(),
{
    if items.len() > 0 {
        lemma_expand_nonneg(idx, targets, min_kb, items.last(), fuel);
        lemma_expand_list_nonneg(idx, targets, min_kb, items.drop_last(), fuel);
    }
}

/// Whether some target equals `p`.
fn any_target_is(targets: &[String], p: &str) -> (res: bool)
    ensures
        res == is_target(string_views(targets@), p@),
{
    let ghost tv = string_views(targets@);
    let mut i: usize = 0;
    while i < targets.len()
        invariant
            i <= targets@.len(),
            tv == string_views(targets@),
            forall|j: int| 0 <= j < i ==> !crate::path::path_eq(#[trigger] tv[j], p@),
        decreases targets@.len() - i,
    {
        if crate::path::paths_equal(targets[i].as_str(), p) {
            assert(crate::path::path_eq(tv[i as int], p@));
            return true;
        }
        i = i + 1;
    }
    false
}

/// Whether some target lies strictly below `p`.
fn any_target_below(targets: &[String], p: &str) -> (res: bool)
    ensures
        res == holds_target(string_views(targets@), p@),
{
    let ghost tv = string_views(targets@);
    let mut i: usize = 0;
    while i < targets.len()
        invariant
            i <= targets@.len(),
            tv == string_views(targets@),
            forall|j: int|
                0 <= j < i ==> !(!crate::path::path_eq(#[trigger] tv[j], p@)
                    && crate::path::path_starts_with(tv[j], p@)),
        decreases targets@.len() - i,
    {
        let t = targets[i].as_str();
        if !crate::path::paths_equal(t, p) && crate::path::starts_with_path(t, p) {
            assert(!crate::path::path_eq(tv[i as int], p@) && crate::path::path_starts_with(
                tv[i as int],
                p@,
            ));
            return true;
        }
        i = i + 1;
    }
    false
}

/// Whether the name of `p` is generic.
fn generic_path(p: &str) -> (res: bool)
    ensures
        res == is_generic(p@),
{
    let named = match crate::path::file_name_of(p) {
        Some(n) => container_name(&n),
        None => false,
    };
    named || crate::path::parent_is_path(p, "/Users")
}

/// The largest size among the items.
fn largest_size(c: &Vec<StorageItem>) -> (res: u64)
    ensures
        res as int == max_size(item_views(c@)),
{
    let ghost cv = item_views(c@);
    let mut m: u64 = 0;
    let mut i: usize = 0;
    while i < c.len()
        invariant
            i <= c@.len(),
            cv == item_views(c@),
            m as int == max_size(cv.take(i as int)),
        decreases c@.len() - i,
    {
        proof {
            assert(cv.take(i + 1).drop_last() =~= cv.take(i as int));
        }
        if c[i].size_kb > m {
            m = c[i].size_kb;
        }
        i = i + 1;
    }
    assert(cv.take(c@.len() as int) =~= cv);
    m
}

/// Appends the breakdown of `item` to `out` and adds its macOS-managed
/// space to `macos_kb`.
fn expand_into(
    index: &ChildIndex,
    targets: &[String],
    min_kb: u64,
    item: &StorageItem,
    fuel: usize,
    out: &mut Vec<StorageItem>,
    macos_kb: &mut u64,
)
    requires
        *old(macos_kb) + expand(index@, string_views(targets@), min_kb, item@, fuel as nat).1
            <= u64::MAX,
    ensures
        item_views(final(out)@) == item_views(old(out)@) + expand(
            index@,
            string_views(targets@),
            min_kb,
            item@,
            fuel as nat,
        ).0,
        *final(macos_kb) == *old(macos_kb) + expand(
            index@,
            string_views(targets@),
            min_kb,
            item@,
            fuel as nat,
        ).1,
    decreases fuel,
{
    let ghost tv = string_views(targets@);
    let ghost out0 = out@;
    if is_macos_system(item.path.as_str()) {
        *macos_kb = *macos_kb + item.size_kb;
        assert(item_views(out@) =~= item_views(out0) + Seq::<ItemView>::empty());
        return;
    }
    if item.size_kb < min_kb {
        assert(item_views(out@) =~= item_views(out0) + Seq::<ItemView>::empty());
        return;
    }
    let children = index.get(item.path.as_str());
    let open = match children {
        Some(c) => {
            !any_target_is(targets, item.path.as_str()) && fuel > 0 && item.kind
                == StorageItemKind::Directory && c.len() > 0 && (generic_path(item.path.as_str())
                || (largest_size(c) as u128) * 10 >= (item.size_kb as u128) * 6 || any_target_below(
                targets,
                item.path.as_str(),
            ))
        },
        None => false,
    };
    assert(open == opens(index@, tv, item@, fuel as nat));
    if open {
        let c = children.unwrap();
        let ghost cv = item_views(c@);
        let ghost f = (fuel - 1) as nat;
        let ghost total = expand_list(index@, tv, min_kb, cv, f);
        assert(cv.take(cv.len() as int) =~= cv);
        let mut k: usize = c.len();
        while k > 0
            invariant
                k <= c@.len(),
                cv == item_views(c@),
                tv == string_views(targets@),
                f == fuel - 1,
                fuel > 0,
                total == expand_list(index@, tv, min_kb, cv, f),
                *old(macos_kb) + total.1 <= u64::MAX,
                item_views(out@) + expand_list(index@, tv, min_kb, cv.take(k as int), f).0
                    == item_views(out0) + total.0,
                *macos_kb + expand_list(index@, tv, min_kb, cv.take(k as int), f).1 == *old(
                    macos_kb,
                ) + total.1,
            decreases k,
        {
            let ghost before = item_views(out@);
            let ghost pre = cv.take(k as int);
            proof {
                assert(pre.last() == c@[k - 1]@);
                assert(pre.drop_last() =~= cv.take(k - 1));
                lemma_expand_nonneg(index@, tv, min_kb, c@[k - 1]@, f);
                lemma_expand_list_nonneg(index@, tv, min_kb, cv.take(k - 1), f);
            }
            expand_into(index, targets, min_kb, &c[k - 1], fuel - 1, out, macos_kb);
            k = k - 1;
            proof {
                let a = expand(index@, tv, min_kb, pre.last(), f);
                let b = expand_list(index@, tv, min_kb, pre.drop_last(), f);
                assert(item_views(out@) == before + a.0);
                assert(before + a.0 + b.0 =~= before + (a.0 + b.0));
            }
        }
        assert(cv.take(0) =~= Seq::<ItemView>::empty());
        assert(item_views(out@) =~= item_views(out0) + total.0);
    } else {
        let ghost iv = item@;
        out.push(item.duplicate());
        assert(item_views(out@) =~= item_views(out0) + seq![iv]);
    }
}

/// Where the measured space went: the top-level items, opened as the
/// breakdown rules say, sorted largest first.
pub fn breakdown(inventory: &StorageInventory, targets: &[String], min_kb: u64) -> (res: Breakdown)
    requires
        breakdown_of(
            inventory.children@,
            item_views(inventory.top_level@),
            string_views(targets@),
            min_kb,
        ).1 <= u64::MAX,
    ensures
        item_views(res.items@) == crate::sort::merge_sort(
            breakdown_of(
                inventory.children@,
                item_views(inventory.top_level@),
                string_views(targets@),
                min_kb,
            ).0,
            report_order(),
        ),
        res.macos_kb == breakdown_of(
            inventory.children@,
            item_views(inventory.top_level@),
            string_views(targets@),
            min_kb,
        ).1,
{
    let ghost tv = string_views(targets@);
    let ghost idx = inventory.children@;
    let top = &inventory.top_level;
    let ghost cv = item_views(top@);
    let ghost total = expand_list(idx, tv, min_kb, cv, 10);
    let mut out: Vec<StorageItem> = Vec::new();
    let mut macos_kb: u64 = 0;
    assert(cv.take(cv.len() as int) =~= cv);
    let mut k: usize = top.len();
    while k > 0
        invariant
            k <= top@.len(),
            cv == item_views(top@),
            tv == string_views(targets@),
            idx == inventory.children@,
            total == expand_list(idx, tv, min_kb, cv, 10),
            total.1 <= u64::MAX,
            item_views(out@) + expand_list(idx, tv, min_kb, cv.take(k as int), 10).0 == total.0,
            macos_kb + expand_list(idx, tv, min_kb, cv.take(k as int), 10).1 == total.1,
        decreases k,
    {
        let ghost before = item_views(out@);
        let ghost pre = cv.take(k as int);
        proof {
            assert(pre.last() == top@[k - 1]@);
            assert(pre.drop_last() =~= cv.take(k - 1));
            lemma_expand_nonneg(idx, tv, min_kb, top@[k - 1]@, 10);
            lemma_expand_list_nonneg(idx, tv, min_kb, cv.take(k - 1), 10);
        }
        expand_into(&inventory.children, targets, min_kb, &top[k - 1], 10, &mut out, &mut macos_kb);
        k = k - 1;
        proof {
            let a = expand(idx, tv, min_kb, pre.last(), 10);
            let b = expand_list(idx, tv, min_kb, pre.drop_last(), 10);
            assert(before + a.0 + b.0 =~= before + (a.0 + b.0));
        }
    }
    assert(cv.take(0) =~= Seq::<ItemView>::empty());
    assert(item_views(out@) =~= total.0);
    let items = sort_items(out);
    Breakdown { items, macos_kb }
}

// ---------------------------------------------------------------------------
// Parsing the output of the accounting tools
// ---------------------------------------------------------------------------

/// The `df` values a row could fail to hold.
#[derive(PartialEq, Eq, Structural, Clone, Copy, Debug)]
pub enum DfField {
    Capacity,
    Used,
    Available,
}

/// Why the output of `df` could not be read.
#[derive(PartialEq, Eq, Structural, Clone, Copy, Debug)]
pub enum DfError {
    /// No non-blank line follows the header.
    NoRow,
    /// The row has fewer than five fields.
    IncompleteRow,
    /// A size field is not a base-ten number.
    InvalidValue(DfField),
}

impl DfError {
    /// The message that explains the error.
    pub fn message(&self) -> (res: String)
        ensures
            res@ == df_error_message(*self),
    {
        match self {
            DfError::NoRow => "df returned no filesystem row".to_owned(),
            DfError::IncompleteRow => "df returned an incomplete filesystem row".to_owned(),
            DfError::InvalidValue(DfField::Capacity) => "df returned an invalid capacity value".to_owned(),
            DfError::InvalidValue(DfField::Used) => "df returned an invalid used value".to_owned(),
            DfError::InvalidValue(DfField::Available) => "df returned an invalid available value".to_owned(),
        }
    }
}

/// The message of a `df` error.
pub open spec fn df_error_message(e: DfError) -> Seq<char> {
    match e {
        DfError::NoRow => "df returned no filesystem row"@,
        DfError::IncompleteRow => "df returned an incomplete filesystem row"@,
        DfError::InvalidValue(DfField::Capacity) => "df returned an invalid capacity value"@,
        DfError::InvalidValue(DfField::Used) => "df returned an invalid used value"@,
        DfError::InvalidValue(DfField::Available) => "df returned an invalid available value"@,
    }
}

/// The first line that is not blank.
pub open spec fn first_nonblank(ls: Seq<Seq<char>>) -> Option<Seq<char>>
    decreases ls.len(),
{
    if ls.len() == 0 {
        None
    } else if crate::text::trim(ls[0]).len() > 0 {
        Some(ls[0])
    } else {
        first_nonblank(ls.drop_first())
    }
}

/// The fields of the filesystem row of `df -kP` output: the words of the
/// first non-blank line after the header.
pub open spec fn df_row(output: Seq<char>) -> Option<Seq<Seq<char>>> {
    let ls = crate::text::lines(output);
    if ls.len() == 0 {
        None
    } else {
        match first_nonblank(ls.skip(1)) {
            Some(line) => Some(crate::text::words(line)),
            None => None,
        }
    }
}

/// What `df -kP` output says: the filesystem name and its capacity, used and
/// available kilobytes, or why it cannot be read.
pub open spec fn df_reading(output: Seq<char>) -> Result<(Seq<char>, u64, u64, u64), DfError> {
    match df_row(output) {
        None => Err(DfError::NoRow),
        Some(f) => if f.len() < 5 {
            Err(DfError::IncompleteRow)
        } else {
            match (crate::text::parse_u64(f[1]), crate::text::parse_u64(f[2]), crate::text::parse_u64(f[3])) {
                (None, _, _) => Err(DfError::InvalidValue(DfField::Capacity)),
                (Some(_), None, _) => Err(DfError::InvalidValue(DfField::Used)),
                (Some(_), Some(_), None) => Err(DfError::InvalidValue(DfField::Available)),
                (Some(c), Some(u), Some(a)) => Ok((f[0], c, u, a)),
            }
        },
    }
}

/// Reads the filesystem row of `df -kP` output as the statistics of the
/// volume at `accounting_path`; mount paths with spaces after the fixed
/// columns do not matter.
pub fn parse_df_output(output: &str, accounting_path: &str, device: u64) -> (res: Result<VolumeStats, DfError>)
    ensures
        match df_reading(output@) {
            Ok((fs, c, u, a)) => res matches Ok(v) && v.accounting_path@ == accounting_path@
                && v.filesystem@ == fs && v.capacity_kb == c && v.used_kb == u && v.free_kb == a
                && v.container_free_kb is None && v.device == device,
            Err(e) => res == Err::<VolumeStats, DfError>(e),
        },
{
    let text = chars_of(output);
    let ls = crate::text::split_lines(&text);
    let ghost lv = crate::text::lines(output@);
    assert(ls@.map_values(|l: Vec<char>| l@) =~= lv);
    if ls.len() == 0 {
        return Err(DfError::NoRow);
    }
    let line_index = match first_nonblank_from(&ls, 1) {
        Some(r) => r,
        None => {
            return Err(DfError::NoRow);
        },
    };
    assert(first_nonblank(lv.skip(1)) == Some(lv[line_index as int]));
    let fields = crate::text::split_words(&ls[line_index]);
    let ghost fv = crate::text::words(lv[line_index as int]);
    if fields.len() < 5 {
        return Err(DfError::IncompleteRow);
    }
    let capacity = match crate::text::parse_u64_chars(&fields[1]) {
        Some(v) => v,
        None => {
            return Err(DfError::InvalidValue(DfField::Capacity));
        },
    };
    let used = match crate::text::parse_u64_chars(&fields[2]) {
        Some(v) => v,
        None => {
            return Err(DfError::InvalidValue(DfField::Used));
        },
    };
    let free = match crate::text::parse_u64_chars(&fields[3]) {
        Some(v) => v,
        None => {
            return Err(DfError::InvalidValue(DfField::Available));
        },
    };
    Ok(
        VolumeStats {
            accounting_path: accounting_path.to_owned(),
            filesystem: crate::text::string_of(&fields[0]),
            capacity_kb: capacity,
            used_kb: used,
            free_kb: free,
            container_free_kb: None,
            device,
        },
    )
}

/// The index of the first non-blank line at or after `start`.
fn first_nonblank_from(ls: &Vec<Vec<char>>, start: usize) -> (res: Option<usize>)
    requires
        start <= ls@.len(),
    ensures
        match res {
            Some(k) => start <= k < ls@.len() && first_nonblank(
                ls@.map_values(|l: Vec<char>| l@).skip(start as int),
            ) == Some(ls@[k as int]@),
            None => first_nonblank(ls@.map_values(|l: Vec<char>| l@).skip(start as int)) is None,
        },
{
    let ghost v = ls@.map_values(|l: Vec<char>| l@);
    let mut i: usize = start;
    while i < ls.len()
        invariant
            start <= i <= ls@.len(),
            v == ls@.map_values(|l: Vec<char>| l@),
            first_nonblank(v.skip(start as int)) == first_nonblank(v.skip(i as int)),
        decreases ls@.len() - i,
    {
        let t = crate::text::trim_chars(&ls[i]);
        proof {
            assert(v.skip(i as int)[0] == v[i as int]);
            assert(v.skip(i as int).drop_first() =~= v.skip(i + 1));
        }
        if t.len() > 0 {
            return Some(i);
        }
        i = i + 1;
    }
    assert(v.skip(i as int).len() == 0);
    None
}

/// The integer that a `diskutil info -plist` document gives for `key`: the
/// text between the first `<integer>` after `<key>key</key>` and the next
/// `</integer>`, trimmed and read as a number.
pub open spec fn plist_value(plist: Seq<char>, key: Seq<char>) -> Option<u64> {
    let marker = "<key>"@ + key + "</key>"@;
    match crate::text::after_first(plist, marker) {
        Some(v) => match crate::text::after_first(v, "<integer>"@) {
            Some(w) => match crate::text::before_first(w, "</integer>"@) {
                Some(x) => crate::text::parse_u64(crate::text::trim(x)),
                None => None,
            },
            None => None,
        },
        None => None,
    }
}

/// The number written between `<integer>` at index `j` of `plist` and the
/// next `</integer>`.
pub open spec fn integer_at(plist: Seq<char>, j: int) -> Option<u64> {
    match crate::text::before_first(plist.skip(j + 9), "</integer>"@) {
        Some(x) => crate::text::parse_u64(crate::text::trim(x)),
        None => None,
    }
}

/// The value read for `key` is the integer element that first follows the
/// key's first `<key>key</key>` marker: whatever integers stand before
/// the marker, or belong to other keys before it, are never read. With no
/// marker, or no integer after it, nothing is read.
pub proof fn lemma_plist_value_follows_key(plist: Seq<char>, key: Seq<char>, i: int, j: int)
    requires
        occurs_at(plist, "<key>"@ + key + "</key>"@, i),
        forall|k: int| 0 <= k < i ==> !occurs_at(plist, "<key>"@ + key + "</key>"@, k),
        i + ("<key>"@ + key + "</key>"@).len() <= j,
        occurs_at(plist, "<integer>"@, j),
        forall|k: int|
            i + ("<key>"@ + key + "</key>"@).len() <= k < j ==> !occurs_at(plist, "<integer>"@, k),
    ensures
        plist_value(plist, key) == integer_at(plist, j),
{
    let m = "<key>"@ + key + "</key>"@;
    let tag = "<integer>"@;
    reveal_strlit("<integer>");
    assert(tag.len() == 9);
    crate::text::lemma_first_occurrence_at(plist, m, i);
    let e = i + m.len();
    let v = plist.skip(e);
    assert forall|k: int| 0 <= k < j - e implies !occurs_at(v, tag, k) by {
        crate::text::lemma_occurs_after(plist, tag, e, k);
    }
    crate::text::lemma_occurs_after(plist, tag, e, j - e);
    crate::text::lemma_first_occurrence_at(v, tag, j - e);
    assert(v.skip(j - e + 9) =~= plist.skip(j + 9));
}

/// A value is read only when the key's marker occurs, followed by an
/// integer element.
pub proof fn lemma_plist_value_needs_key(plist: Seq<char>, key: Seq<char>)
    ensures
        plist_value(plist, key) is Some ==> exists|i: int, j: int|
            #![trigger occurs_at(plist, "<key>"@ + key + "</key>"@, i), occurs_at(plist, "<integer>"@, j)]
            occurs_at(plist, "<key>"@ + key + "</key>"@, i) && i + ("<key>"@ + key + "</key>"@).len()
                <= j && occurs_at(plist, "<integer>"@, j) && plist_value(plist, key) == integer_at(plist, j),
{
    let m = "<key>"@ + key + "</key>"@;
    let tag = "<integer>"@;
    if plist_value(plist, key) is Some {
        crate::text::lemma_first_occurrence_is_first(plist, m);
        let i = first_occurrence(plist, m).unwrap();
        let e = i + m.len();
        let v = plist.skip(e);
        crate::text::lemma_first_occurrence_is_first(v, tag);
        let t = first_occurrence(v, tag).unwrap();
        crate::text::lemma_occurs_after(plist, tag, e, t);
        let j = e + t;
        reveal_strlit("<integer>");
        assert(v.skip(t + 9) =~= plist.skip(j + 9));
        assert(occurs_at(plist, m, i) && occurs_at(plist, tag, j));
    }
}

/// `<key>key</key>`.
fn key_marker(key: &str) -> (res: Vec<char>)
    ensures
        res@ == "<key>"@ + key@ + "</key>"@,
{
    let mut marker = chars_of("<key>");
    crate::text::append_str(&mut marker, key);
    crate::text::append_str(&mut marker, "</key>");
    marker
}

/// The number between the start of `rest` and its first `</integer>`.
fn integer_before_close(rest: &Vec<char>) -> (res: Option<u64>)
    ensures
        res == match crate::text::before_first(rest@, "</integer>"@) {
            Some(x) => crate::text::parse_u64(crate::text::trim(x)),
            None => None,
        },
{
    let close_tag = chars_of("</integer>");
    match crate::text::find_chars(rest, &close_tag) {
        Some(i) => {
            let inner = crate::text::slice_chars(rest, 0, i);
            assert(inner@ =~= rest@.take(i as int));
            let t = crate::text::trim_chars(&inner);
            crate::text::parse_u64_chars(&t)
        },
        None => None,
    }
}

/// The integer value of `key` in a `diskutil` property list.
pub fn plist_integer(plist: &str, key: &str) -> (res: Option<u64>)
    ensures
        res == plist_value(plist@, key@),
{
    let text = chars_of(plist);
    let marker = key_marker(key);
    let value = match crate::text::chars_after(&text, &marker) {
        Some(v) => v,
        None => {
            return None;
        },
    };
    let open_tag = chars_of("<integer>");
    let rest = match crate::text::chars_after(&value, &open_tag) {
        Some(v) => v,
        None => {
            return None;
        },
    };
    integer_before_close(&rest)
}

/// `tmutil` prints one `YYYY-MM-DD-HHMMSS` date per line when local
/// snapshots exist: seventeen characters, `-` at the fifth, eighth and
/// eleventh, ASCII digits elsewhere.
pub open spec fn is_date_line(line: Seq<char>) -> bool {
    line.len() == 17 && forall|i: int|
        0 <= i < 17 ==> if i == 4 || i == 7 || i == 10 {
            #[trigger] line[i] == '-'
        } else {
            crate::text::is_digit(line[i])
        }
}

/// Whether a line is a snapshot date.
pub fn is_snapshot_date(line: &str) -> (res: bool)
    ensures
        res == is_date_line(line@),
{
    let c = chars_of(line);
    if c.len() != 17 {
        return false;
    }
    let mut i: usize = 0;
    while i < 17
        invariant
            c@ == line@,
            c@.len() == 17,
            i <= 17,
            forall|j: int|
                0 <= j < i ==> if j == 4 || j == 7 || j == 10 {
                    #[trigger] c@[j] == '-'
                } else {
                    crate::text::is_digit(c@[j])
                },
        decreases 17 - i,
    {
        let ok = if i == 4 || i == 7 || i == 10 {
            c[i] == '-'
        } else {
            '0' <= c[i] && c[i] <= '9'
        };
        if !ok {
            return false;
        }
        i = i + 1;
    }
    true
}

/// Text order on strings: `a` may come before `b`.
pub open spec fn text_le(a: Seq<char>, b: Seq<char>) -> bool {
    !crate::path::lex_lt(b, a)
}

impl SortKey for String {
    open spec fn key_le(a: Seq<char>, b: Seq<char>) -> bool {
        text_le(a, b)
    }

    fn le(&self, other: &Self) -> (r: bool) {
        let a = chars_of(self.as_str());
        let b = chars_of(other.as_str());
        !crate::path::chars_lt(&b, &a)
    }

    proof fn lemma_key_le_preorder() {
        assert forall|a: Seq<char>, b: Seq<char>, c: Seq<char>|
            #[trigger] text_le(a, b) && #[trigger] text_le(b, c) implies text_le(a, c) by {
            crate::path::lemma_lex_lt_total(a, b);
            crate::path::lemma_lex_lt_total(b, c);
            if crate::path::lex_lt(c, a) {
                if a == b {
                } else if b == c {
                } else {
                    crate::path::lemma_lex_lt_trans(a, b, c);
                    crate::path::lemma_lex_lt_asym(a, c);
                }
            }
        }
        assert forall|a: Seq<char>, b: Seq<char>| #[trigger] text_le(a, b) || #[trigger] text_le(b, a) by {
            crate::path::lemma_lex_lt_total(a, b);
            if crate::path::lex_lt(a, b) {
                crate::path::lemma_lex_lt_asym(a, b);
            }
        }
    }
}

/// Text order as a relation.
pub open spec fn text_order() -> spec_fn(Seq<char>, Seq<char>) -> bool {
    |a: Seq<char>, b: Seq<char>| text_le(a, b)
}

/// The snapshot dates among trimmed lines.
pub open spec fn date_lines(output: Seq<char>) -> Seq<Seq<char>> {
    crate::text::lines(output).map_values(|l: Seq<char>| crate::text::trim(l)).filter(
        |l: Seq<char>| is_date_line(l),
    )
}

/// The snapshot dates in `tmutil listlocalsnapshotdates` output, in text
/// order; every other line is ignored.
pub fn parse_snapshot_dates(output: &str) -> (res: Vec<String>)
    ensures
        string_views(res@) == crate::sort::merge_sort(date_lines(output@), text_order()),
{
    let text = chars_of(output);
    let ls = crate::text::split_lines(&text);
    let ghost lv = crate::text::lines(output@);
    let ghost trimmed = lv.map_values(|l: Seq<char>| crate::text::trim(l));
    let ghost pred = |l: Seq<char>| is_date_line(l);
    let mut dates: Vec<String> = Vec::new();
    let mut i: usize = 0;
    while i < ls.len()
        invariant
            i <= ls@.len(),
            lv == crate::text::lines(output@),
            ls@.len() == lv.len(),
            forall|k: int| 0 <= k < ls@.len() ==> #[trigger] ls@[k]@ == lv[k],
            trimmed == lv.map_values(|l: Seq<char>| crate::text::trim(l)),
            pred == (|l: Seq<char>| is_date_line(l)),
            string_views(dates@) == trimmed.take(i as int).filter(pred),
        decreases ls@.len() - i,
    {
        let t = crate::text::trim_chars(&ls[i]);
        let line = crate::text::string_of(&t);
        proof {
            assert(trimmed.take(i + 1) =~= trimmed.take(i as int).push(t@));
            trimmed.take(i as int).lemma_filter_push(t@, pred);
        }
        let ghost before = dates@;
        if is_snapshot_date(line.as_str()) {
            dates.push(line);
            assert(string_views(dates@) =~= string_views(before).push(t@));
        }
        i = i + 1;
    }
    assert(trimmed.take(ls@.len() as int) =~= trimmed);
    let res = crate::sort::sort_vec(dates);
    assert(text_order() =~= (|a: Seq<char>, b: Seq<char>| <String as SortKey>::key_le(a, b)));
    assert(string_views(res@) == crate::sort::views(res@));
    assert(string_views(dates@) == crate::sort::views(dates@));
    res
}

// ---------------------------------------------------------------------------
// Walk rules
// ---------------------------------------------------------------------------

/// Allocated 512-byte blocks as kilobytes, rounded up.
pub fn blocks_to_kb(blocks: u64) -> (res: u64)
    ensures
        res as int == (if blocks == u64::MAX {
            blocks as int
        } else {
            blocks as int + 1
        }) / 2,
{
    blocks.saturating_add(1) / 2
}

/// At most this many of the largest items are kept.
pub const MAX_LARGEST_ITEMS: usize = 20;

/// The largest candidates, at most twenty, largest first.
pub fn select_largest_candidates(candidates: Vec<StorageItem>) -> (res: Vec<StorageItem>)
    ensures
        item_views(res@) == crate::sort::merge_sort(item_views(candidates@), report_order()).take(
            if candidates@.len() < 20 {
                candidates@.len() as int
            } else {
                20
            },
        ),
{
    let mut sorted = sort_items(candidates);
    proof {
        crate::sort::lemma_merge_sort_len(item_views(candidates@), report_order());
    }
    if sorted.len() > MAX_LARGEST_ITEMS {
        sorted.truncate(MAX_LARGEST_ITEMS);
    }
    assert(item_views(sorted@) =~= crate::sort::merge_sort(item_views(candidates@), report_order()).take(
        if candidates@.len() < 20 {
            candidates@.len() as int
        } else {
            20
        },
    ));
    sorted
}

/// Whether the walk of `/` leaves out `path`: mounted volumes under
/// `/Volumes` and APFS's volume-management tree are inventoried separately,
/// so a startup-volume report counts neither twice.
pub open spec fn skips(path: Seq<char>, scan_root: Seq<char>, depth: int) -> bool {
    if !crate::path::path_eq(scan_root, "/"@) {
        false
    } else if depth == 0 {
        crate::path::path_eq(path, "/Volumes"@)
    } else {
        crate::path::path_starts_with(path, "/Volumes"@) || crate::path::path_starts_with(
            path,
            "/System/Volumes"@,
        )
    }
}

/// Whether the walk of `scan_root` skips `path` at `depth`.
pub fn should_skip(path: &str, scan_root: &str, depth: usize) -> (res: bool)
    ensures
        res == skips(path@, scan_root@, depth as int),
{
    if !crate::path::paths_equal(scan_root, "/") {
        return false;
    }
    if depth == 0 {
        return crate::path::paths_equal(path, "/Volumes");
    }
    crate::path::starts_with_path(path, "/Volumes") || crate::path::starts_with_path(
        path,
        "/System/Volumes",
    )
}

/// The path whose filesystem accounting describes the scan: for `/`, the
/// APFS data volume when it is a real directory, else the account home when
/// it is one; any other scan root accounts for itself.
pub open spec fn accounting_for(
    scan_root: Seq<char>,
    account_home: Seq<char>,
    data_volume_is_dir: bool,
    home_is_dir: bool,
) -> Seq<char> {
    if crate::path::path_eq(scan_root, "/"@) && data_volume_is_dir {
        "/System/Volumes/Data"@
    } else if crate::path::path_eq(scan_root, "/"@) && home_is_dir {
        account_home
    } else {
        scan_root
    }
}

/// The accounting path, given whether `/System/Volumes/Data` and the account
/// home are real directories (not symlinks).
pub fn accounting_path(
    scan_root: &str,
    account_home: &str,
    data_volume_is_dir: bool,
    home_is_dir: bool,
) -> (res: String)
    ensures
        res@ == accounting_for(scan_root@, account_home@, data_volume_is_dir, home_is_dir),
{
    if crate::path::paths_equal(scan_root, "/") {
        if data_volume_is_dir {
            return "/System/Volumes/Data".to_owned();
        }
        if home_is_dir {
            return account_home.to_owned();
        }
    }
    scan_root.to_owned()
}

/// Adds `path` to `roots` unless an equal path is there already.
pub fn push_unique_root(roots: &mut Vec<String>, path: String)
    ensures
        (exists|i: int| 0 <= i < old(roots)@.len() && crate::path::path_eq(#[trigger] old(roots)@[i]@, path@))
            ==> final(roots)@ == old(roots)@,
        !(exists|i: int| 0 <= i < old(roots)@.len() && crate::path::path_eq(#[trigger] old(roots)@[i]@, path@))
            ==> final(roots)@ == old(roots)@.push(path),
{
    let mut i: usize = 0;
    while i < roots.len()
        invariant
            i <= roots@.len(),
            roots@ == old(roots)@,
            forall|j: int| 0 <= j < i ==> !crate::path::path_eq(#[trigger] roots@[j]@, path@),
        decreases roots@.len() - i,
    {
        if crate::path::paths_equal(roots[i].as_str(), path.as_str()) {
            return;
        }
        i = i + 1;
    }
    roots.push(path);
}

/// `roots` with `p` added unless an equal path is there already.
pub open spec fn with_root(roots: Seq<Seq<char>>, p: Seq<char>) -> Seq<Seq<char>> {
    if exists|i: int| 0 <= i < roots.len() && crate::path::path_eq(#[trigger] roots[i], p) {
        roots
    } else {
        roots.push(p)
    }
}

/// Some root lies on the data volume.
pub open spec fn any_on_data_volume(roots: Seq<Seq<char>>) -> bool {
    exists|i: int|
        0 <= i < roots.len() && crate::path::path_starts_with(
            #[trigger] roots[i],
            "/System/Volumes/Data"@,
        )
}

/// The roots of an inventory, from resolved paths: the scan root; for the
/// startup volume `/` also the data and VM volumes when they are real
/// directories (`Some`), and the account's home when no root lies on the
/// data volume and the home is on another device than `/`.
pub open spec fn roots_for(
    scan_root: Seq<char>,
    resolved_root: Seq<char>,
    data_volume: Option<Seq<char>>,
    vm_volume: Option<Seq<char>>,
    resolved_home: Seq<char>,
    root_device: Option<u64>,
    home_device: Option<u64>,
) -> Seq<Seq<char>> {
    let first = seq![resolved_root];
    if !crate::path::path_eq(scan_root, "/"@) {
        first
    } else {
        let with_data = match data_volume {
            Some(d) => with_root(first, d),
            None => first,
        };
        let with_vm = match vm_volume {
            Some(v) => with_root(with_data, v),
            None => with_data,
        };
        if !any_on_data_volume(with_vm) && root_device != home_device {
            with_root(with_vm, resolved_home)
        } else {
            with_vm
        }
    }
}

/// Whether a root lies on the data volume.
fn has_data_root(roots: &Vec<String>) -> (res: bool)
    ensures
        res == any_on_data_volume(string_views(roots@)),
{
    let ghost rv = string_views(roots@);
    let mut i: usize = 0;
    while i < roots.len()
        invariant
            i <= roots@.len(),
            rv == string_views(roots@),
            rv.len() == roots@.len(),
            forall|j: int|
                0 <= j < i ==> !crate::path::path_starts_with(
                    #[trigger] rv[j],
                    "/System/Volumes/Data"@,
                ),
        decreases roots@.len() - i,
    {
        if crate::path::starts_with_path(roots[i].as_str(), "/System/Volumes/Data") {
            assert(rv[i as int] == roots@[i as int]@);
            return true;
        }
        i = i + 1;
    }
    false
}

/// Adds a resolved root unless an equal one is there already.
fn add_root(roots: &mut Vec<String>, path: String)
    ensures
        string_views(final(roots)@) == with_root(string_views(old(roots)@), path@),
{
    let ghost before = string_views(roots@);
    proof {
        if exists|i: int| 0 <= i < before.len() && crate::path::path_eq(#[trigger] before[i], path@) {
            let i = choose|i: int| 0 <= i < before.len() && crate::path::path_eq(#[trigger] before[i], path@);
            assert(crate::path::path_eq(#[trigger] roots@[i]@, path@));
        }
    }
    let ghost pv = path@;
    push_unique_root(roots, path);
    proof {
        if !(exists|i: int| 0 <= i < before.len() && crate::path::path_eq(#[trigger] before[i], pv)) {
            assert forall|i: int| 0 <= i < old(roots)@.len() implies !crate::path::path_eq(
                #[trigger] old(roots)@[i]@,
                pv,
            ) by {
                assert(before[i] == old(roots)@[i]@);
            }
            assert(string_views(roots@) =~= before.push(pv));
        }
    }
}

/// The view of an optional string.
pub open spec fn opt_string_view(s: Option<String>) -> Option<Seq<char>> {
    match s {
        Some(t) => Some(t@),
        None => None,
    }
}

/// The roots an inventory walks, from the resolved forms of the paths that
/// may be one.
pub fn inventory_roots(
    scan_root: &str,
    resolved_root: String,
    data_volume: Option<String>,
    vm_volume: Option<String>,
    resolved_home: String,
    root_device: Option<u64>,
    home_device: Option<u64>,
) -> (res: Vec<String>)
    ensures
        string_views(res@) == roots_for(
            scan_root@,
            resolved_root@,
            opt_string_view(data_volume),
            opt_string_view(vm_volume),
            resolved_home@,
            root_device,
            home_device,
        ),
{
    let ghost dv = opt_string_view(data_volume);
    let ghost vv = opt_string_view(vm_volume);
    let ghost hv = resolved_home@;
    let ghost r0 = resolved_root@;
    let mut roots: Vec<String> = Vec::new();
    roots.push(resolved_root);
    let ghost first = string_views(roots@);
    assert(first =~= seq![r0]);
    if !crate::path::paths_equal(scan_root, "/") {
        return roots;
    }
    if let Some(d) = data_volume {
        add_root(&mut roots, d);
    }
    let ghost with_data = string_views(roots@);
    assert(with_data == match dv {
        Some(d) => with_root(first, d),
        None => first,
    });
    if let Some(v) = vm_volume {
        add_root(&mut roots, v);
    }
    let ghost with_vm = string_views(roots@);
    assert(with_vm == match vv {
        Some(v) => with_root(with_data, v),
        None => with_data,
    });
    let on_data = has_data_root(&roots);
    if !on_data && root_device != home_device {
        add_root(&mut roots, resolved_home);
    }
    assert(string_views(roots@) == if !on_data && root_device != home_device {
        with_root(with_vm, hv)
    } else {
        with_vm
    });
    assert(crate::path::path_eq(scan_root@, "/"@));
    roots
}


impl ChildIndex {
    /// Sorts the children of every folder largest first, then by path.
    pub fn sort_children(&mut self)
        ensures
            final(self)@.len() == old(self)@.len(),
            forall|i: int|
                0 <= i < final(self)@.len() ==> #[trigger] final(self)@[i].0 == old(self)@[i].0
                    && final(self)@[i].1 == crate::sort::merge_sort(old(self)@[i].1, report_order()),
    {
        let ghost before = self@;
        let mut i: usize = 0;
        while i < self.entries.len()
            invariant
                i <= self@.len(),
                self@.len() == before.len(),
                self@.len() == self.entries@.len(),
                forall|j: int|
                    0 <= j < i ==> #[trigger] self@[j].0 == before[j].0 && self@[j].1
                        == crate::sort::merge_sort(before[j].1, report_order()),
                forall|j: int| i <= j < self@.len() ==> #[trigger] self@[j] == before[j],
            decreases self.entries@.len() - i,
        {
            let ghost mid = self@;
            assert(mid[i as int] == before[i as int]);
            assert(mid[i as int] == entry_view(self.entries@[i as int]));
            let ghost old_children = self.entries@[i as int].children@;
            let mut children: Vec<StorageItem> = Vec::new();
            std::mem::swap(&mut children, &mut self.entries[i].children);
            assert(children@ == old_children);
            let ghost cv = item_views(children@);
            assert(cv == before[i as int].1);
            let sorted = sort_items(children);
            self.entries[i].children = sorted;
            proof {
                assert forall|j: int| 0 <= j < self@.len() && j != i implies #[trigger] self@[j] == mid[j] by {}
                assert(self@[i as int].1 == crate::sort::merge_sort(before[i as int].1, report_order()));
            }
            i = i + 1;
        }
    }
}

// ---------------------------------------------------------------------------
// Shared APFS container accounting
// ---------------------------------------------------------------------------

/// Whether a `diskutil info -plist` document gives `APFSContainerFree`; its
/// presence is what identifies an APFS volume.
pub fn has_container_free(info: &Option<String>) -> (res: bool)
    ensures
        res == match info {
            Some(p) => plist_value(p@, "APFSContainerFree"@) is Some,
            None => false,
        },
{
    match info {
        Some(p) => plist_integer(p.as_str(), "APFSContainerFree").is_some(),
        None => false,
    }
}

/// The volume statistics with the shared container's capacity and free
/// space, in kilobytes, when the document gives both.
pub fn apply_container_info(stats: VolumeStats, info: &Option<String>) -> (res: VolumeStats)
    ensures
        res.accounting_path@ == stats.accounting_path@,
        res.filesystem@ == stats.filesystem@,
        res.used_kb == stats.used_kb,
        res.free_kb == stats.free_kb,
        res.device == stats.device,
        match info {
            Some(p) => match (plist_value(p@, "APFSContainerSize"@), plist_value(p@, "APFSContainerFree"@)) {
                (Some(size), Some(free)) => res.capacity_kb == size / 1024
                    && res.container_free_kb == Some((free / 1024) as u64),
                _ => res.capacity_kb == stats.capacity_kb && res.container_free_kb == stats.container_free_kb,
            },
            None => res.capacity_kb == stats.capacity_kb && res.container_free_kb == stats.container_free_kb,
        },
{
    let mut stats = stats;
    if let Some(plist) = info {
        let size = plist_integer(plist.as_str(), "APFSContainerSize");
        let free = plist_integer(plist.as_str(), "APFSContainerFree");
        if let (Some(size), Some(free)) = (size, free) {
            stats.capacity_kb = size / 1024;
            stats.container_free_kb = Some(free / 1024);
        }
    }
    stats
}

// ---------------------------------------------------------------------------
// Folder age
// ---------------------------------------------------------------------------

/// Seconds in a day.
pub const DAY_SECS: u64 = 86_400;

/// Allocated space under a folder grouped by each file's last modification.
#[derive(Clone, Debug, PartialEq, Eq)]
pub struct AgeProfile {
    pub files: u64,
    pub total_kb: u64,
    /// Allocated KB changed within 7 days, 7–90 days, 90–365 days, and earlier.
    pub buckets_kb: [u64; 4],
    /// Seconds since the most recent file modification.
    pub newest_age_secs: Option<u64>,
    /// False when the entry or time limit stopped the walk early.
    pub complete: bool,
    pub errors: u64,
}

/// The age bucket of a file modified `age` seconds ago: within 7 days, 90
/// days, 365 days, or earlier.
pub open spec fn age_bucket_of(age: u64) -> int {
    if age <= 7 * DAY_SECS {
        0
    } else if age <= 90 * DAY_SECS {
        1
    } else if age <= 365 * DAY_SECS {
        2
    } else {
        3
    }
}

/// The age bucket of a file modified `age` seconds ago.
pub fn age_bucket(age: u64) -> (res: usize)
    ensures
        res == age_bucket_of(age),
{
    if age <= 7 * DAY_SECS {
        0
    } else if age <= 90 * DAY_SECS {
        1
    } else if age <= 365 * DAY_SECS {
        2
    } else {
        3
    }
}

/// The sum of the buckets.
pub open spec fn bucket_sum(b: [u64; 4]) -> int {
    b[0] + b[1] + b[2] + b[3]
}

impl AgeProfile {
    /// The profile before the walk: nothing seen, complete.
    pub fn start() -> (res: AgeProfile)
        ensures
            res.files == 0,
            res.total_kb == 0,
            res.buckets_kb@ == seq![0u64, 0, 0, 0],
            res.newest_age_secs is None,
            res.complete,
            res.errors == 0,
    {
        let res = AgeProfile {
            files: 0,
            total_kb: 0,
            buckets_kb: [0, 0, 0, 0],
            newest_age_secs: None,
            complete: true,
            errors: 0,
        };
        assert(res.buckets_kb@ =~= seq![0u64, 0, 0, 0]);
        res
    }

    /// Counts a file of `kb` kilobytes modified `age` seconds ago;
    /// `u64::MAX` stands for an unknown modification time, which counts as
    /// the oldest and never as the newest.
    pub fn record_file(&mut self, kb: u64, age: u64)
        requires
            old(self).files < u64::MAX,
            old(self).total_kb + kb <= u64::MAX,
            old(self).buckets_kb[age_bucket_of(age)] + kb <= u64::MAX,
        ensures
            final(self).files == old(self).files + 1,
            final(self).total_kb == old(self).total_kb + kb,
            final(self).buckets_kb@ == old(self).buckets_kb@.update(
                age_bucket_of(age),
                (old(self).buckets_kb[age_bucket_of(age)] + kb) as u64,
            ),
            final(self).newest_age_secs == (if age == u64::MAX {
                old(self).newest_age_secs
            } else {
                match old(self).newest_age_secs {
                    Some(n) => Some(if n < age {
                        n
                    } else {
                        age
                    }),
                    None => Some(age),
                }
            }),
            final(self).complete == old(self).complete,
            final(self).errors == old(self).errors,
    {
        let bucket = age_bucket(age);
        self.files = self.files + 1;
        self.total_kb = self.total_kb + kb;
        self.buckets_kb.set(bucket, self.buckets_kb[bucket] + kb);
        if age != u64::MAX {
            self.newest_age_secs = match self.newest_age_secs {
                Some(n) => Some(if n < age {
                    n
                } else {
                    age
                }),
                None => Some(age),
            };
        }
    }

    /// Counts an entry that could not be read.
    pub fn record_error(&mut self)
        requires
            old(self).errors < u64::MAX,
        ensures
            final(self).errors == old(self).errors + 1,
            final(self).files == old(self).files,
            final(self).total_kb == old(self).total_kb,
            final(self).buckets_kb == old(self).buckets_kb,
            final(self).newest_age_secs == old(self).newest_age_secs,
            final(self).complete == old(self).complete,
    {
        self.errors = self.errors + 1;
    }

    /// Marks the walk as stopped early.
    pub fn stop_early(&mut self)
        ensures
            !final(self).complete,
            final(self).errors == old(self).errors,
            final(self).files == old(self).files,
            final(self).total_kb == old(self).total_kb,
            final(self).buckets_kb == old(self).buckets_kb,
            final(self).newest_age_secs == old(self).newest_age_secs,
    {
        self.complete = false;
    }
}

/// Whether the bounded age walk must stop at its `entries`-th entry: the
/// entry cap is passed, the time limit is passed, or cancellation was asked.
pub fn age_walk_must_stop(
    entries: u64,
    max_entries: u64,
    elapsed_nanos: u128,
    limit_nanos: u128,
    cancel_requested: bool,
) -> (res: bool)
    ensures
        res == (entries > max_entries || elapsed_nanos > limit_nanos || cancel_requested),
{
    entries > max_entries || elapsed_nanos > limit_nanos || cancel_requested
}

/// Counting a file keeps the total equal to the sum of the age buckets.
pub proof fn lemma_age_total_is_bucket_sum(before: AgeProfile, after: AgeProfile, kb: u64, age: u64)
    requires
        before.total_kb == bucket_sum(before.buckets_kb),
        after.total_kb == before.total_kb + kb,
        after.buckets_kb@ == before.buckets_kb@.update(
            age_bucket_of(age),
            (before.buckets_kb[age_bucket_of(age)] + kb) as u64,
        ),
        before.buckets_kb[age_bucket_of(age)] + kb <= u64::MAX,
    ensures
        after.total_kb == bucket_sum(after.buckets_kb),
{
    assert(after.buckets_kb[age_bucket_of(age)] == before.buckets_kb[age_bucket_of(age)] + kb);
    assert(forall|i: int| 0 <= i < 4 && i != age_bucket_of(age) ==> after.buckets_kb@[i] == before.buckets_kb@[i]);
}


/// The items of a breakdown come largest first, equal sizes in path order,
/// and they are exactly the items that the expansion chose.
pub proof fn lemma_breakdown_report_order(
    idx: Seq<(Seq<char>, Seq<ItemView>)>,
    top: Seq<ItemView>,
    targets: Seq<Seq<char>>,
    min_kb: u64,
)
    ensures
        sorted_by(
            crate::sort::merge_sort(breakdown_of(idx, top, targets, min_kb).0, report_order()),
            report_order(),
        ),
        crate::sort::merge_sort(
            breakdown_of(idx, top, targets, min_kb).0,
            report_order(),
        ).to_multiset() == breakdown_of(idx, top, targets, min_kb).0.to_multiset(),
{
    StorageItem::lemma_key_le_preorder();
    assert(report_order() =~= (|a: ItemView, b: ItemView| <StorageItem as SortKey>::key_le(a, b)));
    crate::sort::lemma_merge_sort(breakdown_of(idx, top, targets, min_kb).0, report_order());
}

/// The snapshot dates come out in text order, and they are exactly the
/// trimmed lines that are dates.
pub proof fn lemma_snapshot_dates_order(output: Seq<char>)
    ensures
        sorted_by(crate::sort::merge_sort(date_lines(output), text_order()), text_order()),
        crate::sort::merge_sort(date_lines(output), text_order()).to_multiset()
            == date_lines(output).to_multiset(),
{
    <String as SortKey>::lemma_key_le_preorder();
    assert(text_order() =~= (|a: Seq<char>, b: Seq<char>| <String as SortKey>::key_le(a, b)));
    crate::sort::lemma_merge_sort(date_lines(output), text_order());
}

// ---------------------------------------------------------------------------
// Shape of the breakdown
// ---------------------------------------------------------------------------

/// Each folder of the index lists only its direct children, and no child
/// twice.
pub open spec fn index_is_tree(idx: Seq<(Seq<char>, Seq<ItemView>)>) -> bool {
    &&& forall|k: int, i: int|
        #![trigger idx[k].1[i]]
        0 <= k < idx.len() && 0 <= i < idx[k].1.len() ==> crate::path::parent_is(
            idx[k].1[i].path,
            idx[k].0,
        )
    &&& forall|k: int, i: int, j: int|
        #![trigger idx[k].1[i], idx[k].1[j]]
        0 <= k < idx.len() && 0 <= i < idx[k].1.len() && 0 <= j < idx[k].1.len() && i != j
            ==> !crate::path::path_eq(idx[k].1[i].path, idx[k].1[j].path)
}

/// No item lies in (or is) another item of the list.
pub open spec fn no_nesting(items: Seq<ItemView>) -> bool {
    forall|i: int, j: int|
        #![trigger items[i], items[j]]
        0 <= i < items.len() && 0 <= j < items.len() && i != j
            ==> !crate::path::path_starts_with(items[i].path, items[j].path)
}

/// `p` lies strictly inside one of the targets.
pub open spec fn inside_target(targets: Seq<Seq<char>>, p: Seq<char>) -> bool {
    exists|t: int|
        0 <= t < targets.len() && crate::path::path_starts_with(p, #[trigger] targets[t])
            && !crate::path::path_eq(p, targets[t])
}

proof fn lemma_prefix_trans<A>(a: Seq<A>, b: Seq<A>, c: Seq<A>)
    requires
        a.is_prefix_of(b),
        b.is_prefix_of(c),
    ensures
        a.is_prefix_of(c),
{
    assert forall|i: int| 0 <= i < a.len() implies a[i] == c[i] by {
        assert(a[i] == b[i]);
    }
}

proof fn lemma_prefix_comparable<A>(a: Seq<A>, b: Seq<A>, c: Seq<A>)
    requires
        a.is_prefix_of(c),
        b.is_prefix_of(c),
    ensures
        a.is_prefix_of(b) || b.is_prefix_of(a),
{
    if a.len() <= b.len() {
        assert forall|i: int| 0 <= i < a.len() implies a[i] == b[i] by {
            assert(a[i] == c[i]);
            assert(b[i] == c[i]);
        }
    } else {
        assert forall|i: int| 0 <= i < b.len() implies b[i] == a[i] by {
            assert(a[i] == c[i]);
            assert(b[i] == c[i]);
        }
    }
}

proof fn lemma_child_within(c: Seq<char>, p: Seq<char>)
    requires
        crate::path::parent_is(c, p),
    ensures
        crate::path::path_starts_with(c, p),
        crate::path::components(p).len() + 1 == crate::path::components(c).len(),
{
    let cc = crate::path::components(c);
    assert(cc.drop_last() == crate::path::components(p));
    assert forall|i: int| 0 <= i < crate::path::components(p).len() implies crate::path::components(p)[i]
        == cc[i] by {
        assert(cc.drop_last()[i] == cc[i]);
    }
}

proof fn lemma_siblings_apart(a: Seq<char>, b: Seq<char>, p: Seq<char>)
    requires
        crate::path::parent_is(a, p),
        crate::path::parent_is(b, p),
        !crate::path::path_eq(a, b),
    ensures
        !crate::path::path_starts_with(a, b),
{
    lemma_child_within(a, p);
    lemma_child_within(b, p);
    if crate::path::path_starts_with(a, b) {
        assert(crate::path::components(b) =~= crate::path::components(a));
    }
}

proof fn lemma_lookup_entry(idx: Seq<(Seq<char>, Seq<ItemView>)>, p: Seq<char>)
    ensures
        lookup(idx, p) matches Some(v) ==> exists|k: int|
            0 <= k < idx.len() && crate::path::path_eq(#[trigger] idx[k].0, p) && idx[k].1 == v,
    decreases idx.len(),
{
    if idx.len() > 0 && !crate::path::path_eq(idx[0].0, p) {
        lemma_lookup_entry(idx.drop_first(), p);
        if let Some(v) = lookup(idx, p) {
            let k = choose|k: int|
                0 <= k < idx.drop_first().len() && crate::path::path_eq(
                    #[trigger] idx.drop_first()[k].0,
                    p,
                ) && idx.drop_first()[k].1 == v;
            assert(idx[k + 1] == idx.drop_first()[k]);
        }
    }
}

/// The children that a folder opened by the breakdown lists are direct
/// children of it, and none is listed twice.
proof fn lemma_opened_children(idx: Seq<(Seq<char>, Seq<ItemView>)>, p: Seq<char>)
    requires
        index_is_tree(idx),
        lookup(idx, p) is Some,
    ensures
        forall|i: int|
            0 <= i < lookup(idx, p)->0.len() ==> crate::path::parent_is(
                #[trigger] lookup(idx, p)->0[i].path,
                p,
            ),
        no_nesting(lookup(idx, p)->0),
{
    lemma_lookup_entry(idx, p);
    let v = lookup(idx, p)->0;
    let k = choose|k: int|
        0 <= k < idx.len() && crate::path::path_eq(#[trigger] idx[k].0, p) && idx[k].1 == v;
    assert forall|i: int| 0 <= i < v.len() implies crate::path::parent_is(#[trigger] v[i].path, p) by {
        assert(v[i] == idx[k].1[i]);
    }
    assert forall|i: int, j: int|
        #![trigger v[i], v[j]]
        0 <= i < v.len() && 0 <= j < v.len() && i != j implies !crate::path::path_starts_with(
        v[i].path,
        v[j].path,
    ) by {
        assert(v[i] == idx[k].1[i]);
        assert(v[j] == idx[k].1[j]);
        lemma_siblings_apart(v[i].path, v[j].path, p);
    }
}

proof fn lemma_expand_within(
    idx: Seq<(Seq<char>, Seq<ItemView>)>,
    targets: Seq<Seq<char>>,
    min_kb: u64,
    item: ItemView,
    fuel: nat,
)
    requires
        index_is_tree(idx),
    ensures
        forall|r: int|
            0 <= r < expand(idx, targets, min_kb, item, fuel).0.len()
                ==> crate::path::path_starts_with(
                #[trigger] expand(idx, targets, min_kb, item, fuel).0[r].path,
                item.path,
            ),
    decreases fuel, 0nat,
{
    if !is_macos_path(item.path) && item.size_kb >= min_kb && opens(idx, targets, item, fuel) {
        let children = lookup(idx, item.path)->0;
        lemma_opened_children(idx, item.path);
        lemma_expand_list_within(idx, targets, min_kb, children, (fuel - 1) as nat);
        let out = expand(idx, targets, min_kb, item, fuel).0;
        let inner = expand_list(idx, targets, min_kb, children, (fuel - 1) as nat).0;
        assert(out == inner);
        assert forall|r: int| 0 <= r < out.len() implies crate::path::path_starts_with(
            #[trigger] out[r].path,
            item.path,
        ) by {
            assert(out[r] == inner[r]);
            let k = choose|k: int|
                0 <= k < children.len() && crate::path::path_starts_with(
                    out[r].path,
                    #[trigger] children[k].path,
                );
            lemma_child_within(children[k].path, item.path);
            lemma_prefix_trans(
                crate::path::components(item.path),
                crate::path::components(children[k].path),
                crate::path::components(out[r].path),
            );
        }
    }
}

proof fn lemma_expand_list_within(
    idx: Seq<(Seq<char>, Seq<ItemView>)>,
    targets: Seq<Seq<char>>,
    min_kb: u64,
    items: Seq<ItemView>,
    fuel: nat,
)
    requires
        index_is_tree(idx),
    ensures
        forall|r: int|
            #![trigger expand_list(idx, targets, min_kb, items, fuel).0[r]]
            0 <= r < expand_list(idx, targets, min_kb, items, fuel).0.len() ==> exists|k: int|
                0 <= k < items.len() && crate::path::path_starts_with(
                    expand_list(idx, targets, min_kb, items, fuel).0[r].path,
                    #[trigger] items[k].path,
                ),
    decreases fuel, items.len(),
{
    if items.len() > 0 {
        let a = expand(idx, targets, min_kb, items.last(), fuel).0;
        let b = expand_list(idx, targets, min_kb, items.drop_last(), fuel).0;
        lemma_expand_within(idx, targets, min_kb, items.last(), fuel);
        lemma_expand_list_within(idx, targets, min_kb, items.drop_last(), fuel);
        let out = expand_list(idx, targets, min_kb, items, fuel).0;
        assert(out == a + b);
        assert forall|r: int| #![trigger out[r]] 0 <= r < out.len() implies exists|k: int|
            0 <= k < items.len() && crate::path::path_starts_with(
                out[r].path,
                #[trigger] items[k].path,
            ) by {
            if r < a.len() {
                assert(out[r] == a[r]);
                assert(crate::path::path_starts_with(out[r].path, items[items.len() - 1].path));
            } else {
                assert(out[r] == b[r - a.len()]);
                let k = choose|k: int|
                    0 <= k < items.drop_last().len() && crate::path::path_starts_with(
                        b[r - a.len()].path,
                        #[trigger] items.drop_last()[k].path,
                    );
                assert(items.drop_last()[k] == items[k]);
            }
        }
    }
}

/// Two items that do not nest have no nesting descendants.
proof fn lemma_apart_descendants(x: Seq<char>, a: Seq<char>, y: Seq<char>, b: Seq<char>)
    requires
        crate::path::path_starts_with(x, a),
        crate::path::path_starts_with(y, b),
        !crate::path::path_starts_with(a, b),
        !crate::path::path_starts_with(b, a),
    ensures
        !crate::path::path_starts_with(x, y),
{
    let (cx, ca, cy, cb) = (
        crate::path::components(x),
        crate::path::components(a),
        crate::path::components(y),
        crate::path::components(b),
    );
    if cy.is_prefix_of(cx) {
        lemma_prefix_comparable(ca, cy, cx);
        if ca.is_prefix_of(cy) {
            lemma_prefix_comparable(ca, cb, cy);
        } else {
            lemma_prefix_trans(cb, cy, ca);
        }
    }
}

proof fn lemma_expand_no_nesting(
    idx: Seq<(Seq<char>, Seq<ItemView>)>,
    targets: Seq<Seq<char>>,
    min_kb: u64,
    item: ItemView,
    fuel: nat,
)
    requires
        index_is_tree(idx),
    ensures
        no_nesting(expand(idx, targets, min_kb, item, fuel).0),
    decreases fuel, 0nat,
{
    if !is_macos_path(item.path) && item.size_kb >= min_kb && opens(idx, targets, item, fuel) {
        lemma_opened_children(idx, item.path);
        lemma_expand_list_no_nesting(
            idx,
            targets,
            min_kb,
            lookup(idx, item.path)->0,
            (fuel - 1) as nat,
        );
    }
}

proof fn lemma_expand_list_no_nesting(
    idx: Seq<(Seq<char>, Seq<ItemView>)>,
    targets: Seq<Seq<char>>,
    min_kb: u64,
    items: Seq<ItemView>,
    fuel: nat,
)
    requires
        index_is_tree(idx),
        no_nesting(items),
    ensures
        no_nesting(expand_list(idx, targets, min_kb, items, fuel).0),
    decreases fuel, items.len(),
{
    if items.len() > 0 {
        let last = items.last();
        let rest = items.drop_last();
        assert forall|i: int, j: int|
            #![trigger rest[i], rest[j]]
            0 <= i < rest.len() && 0 <= j < rest.len() && i != j implies !crate::path::path_starts_with(
            rest[i].path,
            rest[j].path,
        ) by {
            assert(rest[i] == items[i] && rest[j] == items[j]);
        }
        let a = expand(idx, targets, min_kb, last, fuel).0;
        let b = expand_list(idx, targets, min_kb, rest, fuel).0;
        lemma_expand_no_nesting(idx, targets, min_kb, last, fuel);
        lemma_expand_list_no_nesting(idx, targets, min_kb, rest, fuel);
        lemma_expand_within(idx, targets, min_kb, last, fuel);
        lemma_expand_list_within(idx, targets, min_kb, rest, fuel);
        let out = expand_list(idx, targets, min_kb, items, fuel).0;
        assert(out == a + b);
        assert forall|i: int, j: int|
            #![trigger out[i], out[j]]
            0 <= i < out.len() && 0 <= j < out.len() && i != j implies !crate::path::path_starts_with(
            out[i].path,
            out[j].path,
        ) by {
            if i < a.len() && j < a.len() {
                assert(out[i] == a[i] && out[j] == a[j]);
            } else if i >= a.len() && j >= a.len() {
                assert(out[i] == b[i - a.len()] && out[j] == b[j - a.len()]);
            } else {
                let (x, y) = if i < a.len() {
                    (a[i], b[j - a.len()])
                } else {
                    (b[i - a.len()], a[j])
                };
                assert(out[i] == (if i < a.len() { a[i] } else { b[i - a.len()] }));
                assert(out[j] == (if j < a.len() { a[j] } else { b[j - a.len()] }));
                let yb = if i < a.len() { b[j - a.len()] } else { b[i - a.len()] };
                let k = choose|k: int|
                    0 <= k < rest.len() && crate::path::path_starts_with(
                        yb.path,
                        #[trigger] rest[k].path,
                    );
                assert(rest[k] == items[k]);
                assert(items[items.len() - 1] == last);
                assert(!crate::path::path_starts_with(items[k].path, items[items.len() - 1].path));
                assert(!crate::path::path_starts_with(items[items.len() - 1].path, items[k].path));
                if i < a.len() {
                    lemma_apart_descendants(out[i].path, last.path, out[j].path, rest[k].path);
                } else {
                    lemma_apart_descendants(out[i].path, rest[k].path, out[j].path, last.path);
                }
            }
        }
    }
}

/// A child of a folder that is neither a target nor inside one is not
/// inside a target either.
proof fn lemma_child_outside_targets(targets: Seq<Seq<char>>, c: Seq<char>, p: Seq<char>)
    requires
        crate::path::parent_is(c, p),
        !is_target(targets, p),
        !inside_target(targets, p),
    ensures
        !inside_target(targets, c),
{
    if inside_target(targets, c) {
        let t = choose|t: int|
            0 <= t < targets.len() && crate::path::path_starts_with(c, #[trigger] targets[t])
                && !crate::path::path_eq(c, targets[t]);
        let ct = crate::path::components(targets[t]);
        let cc = crate::path::components(c);
        let cp = crate::path::components(p);
        assert(cc.drop_last() == cp);
        assert(ct.len() <= cp.len()) by {
            if ct.len() == cc.len() {
                assert(ct =~= cc);
            }
        }
        assert forall|i: int| 0 <= i < ct.len() implies ct[i] == cp[i] by {
            assert(cc.drop_last()[i] == cc[i]);
        }
        if ct =~= cp {
            assert(crate::path::path_eq(targets[t], p));
        } else {
            assert(crate::path::path_starts_with(p, targets[t]));
        }
    }
}

proof fn lemma_expand_outside_targets(
    idx: Seq<(Seq<char>, Seq<ItemView>)>,
    targets: Seq<Seq<char>>,
    min_kb: u64,
    item: ItemView,
    fuel: nat,
)
    requires
        index_is_tree(idx),
        !inside_target(targets, item.path),
    ensures
        forall|r: int|
            0 <= r < expand(idx, targets, min_kb, item, fuel).0.len() ==> !inside_target(
                targets,
                #[trigger] expand(idx, targets, min_kb, item, fuel).0[r].path,
            ),
    decreases fuel, 0nat,
{
    if !is_macos_path(item.path) && item.size_kb >= min_kb && opens(idx, targets, item, fuel) {
        let children = lookup(idx, item.path)->0;
        lemma_opened_children(idx, item.path);
        assert forall|k: int| 0 <= k < children.len() implies !inside_target(
            targets,
            #[trigger] children[k].path,
        ) by {
            lemma_child_outside_targets(targets, children[k].path, item.path);
        }
        lemma_expand_list_outside_targets(idx, targets, min_kb, children, (fuel - 1) as nat);
        let out = expand(idx, targets, min_kb, item, fuel).0;
        let inner = expand_list(idx, targets, min_kb, children, (fuel - 1) as nat).0;
        assert(out == inner);
        assert forall|r: int| 0 <= r < out.len() implies !inside_target(
            targets,
            #[trigger] out[r].path,
        ) by {
            assert(out[r] == inner[r]);
        }
    }
}

proof fn lemma_expand_list_outside_targets(
    idx: Seq<(Seq<char>, Seq<ItemView>)>,
    targets: Seq<Seq<char>>,
    min_kb: u64,
    items: Seq<ItemView>,
    fuel: nat,
)
    requires
        index_is_tree(idx),
        forall|k: int| 0 <= k < items.len() ==> !inside_target(targets, #[trigger] items[k].path),
    ensures
        forall|r: int|
            0 <= r < expand_list(idx, targets, min_kb, items, fuel).0.len() ==> !inside_target(
                targets,
                #[trigger] expand_list(idx, targets, min_kb, items, fuel).0[r].path,
            ),
    decreases fuel, items.len(),
{
    if items.len() > 0 {
        let a = expand(idx, targets, min_kb, items.last(), fuel).0;
        let b = expand_list(idx, targets, min_kb, items.drop_last(), fuel).0;
        assert(!inside_target(targets, items[items.len() - 1].path));
        lemma_expand_outside_targets(idx, targets, min_kb, items.last(), fuel);
        assert forall|k: int| 0 <= k < items.drop_last().len() implies !inside_target(
            targets,
            #[trigger] items.drop_last()[k].path,
        ) by {
            assert(items.drop_last()[k] == items[k]);
        }
        lemma_expand_list_outside_targets(idx, targets, min_kb, items.drop_last(), fuel);
        let out = expand_list(idx, targets, min_kb, items, fuel).0;
        assert(out == a + b);
        assert forall|r: int| 0 <= r < out.len() implies !inside_target(
            targets,
            #[trigger] out[r].path,
        ) by {
            if r < a.len() {
                assert(out[r] == a[r]);
            } else {
                assert(out[r] == b[r - a.len()]);
            }
        }
    }
}

/// The breakdown never reports an item below a cleanup target, as long as
/// no top-level item lies below one.
pub proof fn lemma_breakdown_stops_at_targets(
    idx: Seq<(Seq<char>, Seq<ItemView>)>,
    top: Seq<ItemView>,
    targets: Seq<Seq<char>>,
    min_kb: u64,
)
    requires
        index_is_tree(idx),
        forall|k: int| 0 <= k < top.len() ==> !inside_target(targets, #[trigger] top[k].path),
    ensures
        forall|r: int|
            0 <= r < crate::sort::merge_sort(
                breakdown_of(idx, top, targets, min_kb).0,
                report_order(),
            ).len() ==> !inside_target(
                targets,
                #[trigger] crate::sort::merge_sort(
                    breakdown_of(idx, top, targets, min_kb).0,
                    report_order(),
                )[r].path,
            ),
{
    broadcast use vstd::seq_lib::group_to_multiset_ensures;

    let found = breakdown_of(idx, top, targets, min_kb).0;
    let sorted = crate::sort::merge_sort(found, report_order());
    lemma_expand_list_outside_targets(idx, targets, min_kb, top, 10);
    lemma_breakdown_report_order(idx, top, targets, min_kb);
    assert forall|r: int| 0 <= r < sorted.len() implies !inside_target(
        targets,
        #[trigger] sorted[r].path,
    ) by {
        assert(sorted.contains(sorted[r]));
        assert(sorted.to_multiset().count(sorted[r]) > 0);
        assert(found.contains(sorted[r]));
        let x = choose|x: int| 0 <= x < found.len() && found[x] == sorted[r];
        assert(!inside_target(targets, found[x].path));
    }
}

/// A new folder with no children yet keeps the index a tree.
pub proof fn lemma_new_folder_keeps_tree(idx: Seq<(Seq<char>, Seq<ItemView>)>, path: Seq<char>)
    requires
        index_is_tree(idx),
    ensures
        index_is_tree(idx.push((path, Seq::<ItemView>::empty()))),
{
    let next = idx.push((path, Seq::<ItemView>::empty()));
    assert forall|k: int, i: int|
        #![trigger next[k].1[i]]
        0 <= k < next.len() && 0 <= i < next[k].1.len() implies crate::path::parent_is(
        next[k].1[i].path,
        next[k].0,
    ) by {
        assert(next[k] == idx[k]);
    }
    assert forall|k: int, i: int, j: int|
        #![trigger next[k].1[i], next[k].1[j]]
        0 <= k < next.len() && 0 <= i < next[k].1.len() && 0 <= j < next[k].1.len() && i != j
            implies !crate::path::path_eq(next[k].1[i].path, next[k].1[j].path) by {
        assert(next[k] == idx[k]);
    }
}

/// Listing a direct child of a folder, one not listed there yet, keeps the
/// index a tree.
pub proof fn lemma_new_child_keeps_tree(
    idx: Seq<(Seq<char>, Seq<ItemView>)>,
    folder: int,
    item: ItemView,
)
    requires
        index_is_tree(idx),
        0 <= folder < idx.len(),
        crate::path::parent_is(item.path, idx[folder].0),
        forall|i: int|
            0 <= i < idx[folder].1.len() ==> !crate::path::path_eq(
                #[trigger] idx[folder].1[i].path,
                item.path,
            ),
    ensures
        index_is_tree(idx.update(folder, (idx[folder].0, idx[folder].1.push(item)))),
{
    let next = idx.update(folder, (idx[folder].0, idx[folder].1.push(item)));
    assert forall|k: int, i: int|
        #![trigger next[k].1[i]]
        0 <= k < next.len() && 0 <= i < next[k].1.len() implies crate::path::parent_is(
        next[k].1[i].path,
        next[k].0,
    ) by {
        if k != folder {
            assert(next[k] == idx[k]);
        } else if i < idx[folder].1.len() {
            assert(next[k].1[i] == idx[folder].1[i]);
        }
    }
    assert forall|k: int, i: int, j: int|
        #![trigger next[k].1[i], next[k].1[j]]
        0 <= k < next.len() && 0 <= i < next[k].1.len() && 0 <= j < next[k].1.len() && i != j
            implies !crate::path::path_eq(next[k].1[i].path, next[k].1[j].path) by {
        if k != folder {
            assert(next[k] == idx[k]);
        } else {
            let n = idx[folder].1.len();
            if i < n && j < n {
                assert(next[k].1[i] == idx[folder].1[i]);
                assert(next[k].1[j] == idx[folder].1[j]);
            } else if i < n {
                assert(next[k].1[i] == idx[folder].1[i]);
                assert(next[k].1[j] == item);
                assert(!crate::path::path_eq(idx[folder].1[i].path, item.path));
            } else {
                assert(next[k].1[j] == idx[folder].1[j]);
                assert(next[k].1[i] == item);
                assert(!crate::path::path_eq(idx[folder].1[j].path, item.path));
            }
        }
    }
}

/// Reordering a list keeps it free of nesting.
proof fn lemma_no_nesting_permutation(a: Seq<ItemView>, b: Seq<ItemView>)
    requires
        no_nesting(a),
        a.to_multiset() == b.to_multiset(),
    ensures
        no_nesting(b),
{
    broadcast use vstd::seq_lib::group_to_multiset_ensures;

    assert forall|i: int, j: int| 0 <= i < a.len() && 0 <= j < a.len() && i != j implies a[i]
        != a[j] by {
        assert(crate::path::components(a[i].path).is_prefix_of(
            crate::path::components(a[i].path),
        ));
        assert(!crate::path::path_starts_with(a[i].path, a[j].path));
    }
    assert(a.no_duplicates());
    a.lemma_multiset_has_no_duplicates();
    b.lemma_multiset_has_no_duplicates_conv();
    assert forall|i: int, j: int|
        #![trigger b[i], b[j]]
        0 <= i < b.len() && 0 <= j < b.len() && i != j implies !crate::path::path_starts_with(
        b[i].path,
        b[j].path,
    ) by {
        assert(b.contains(b[i]));
        assert(b.contains(b[j]));
        assert(b.to_multiset().count(b[i]) > 0);
        assert(b.to_multiset().count(b[j]) > 0);
        assert(a.contains(b[i]));
        assert(a.contains(b[j]));
        let x = choose|x: int| 0 <= x < a.len() && a[x] == b[i];
        let y = choose|y: int| 0 <= y < a.len() && a[y] == b[j];
        assert(a[x] != a[y]);
    }
}

/// When the index lists each folder's direct children once and the
/// top-level items do not nest, the items of a breakdown, in the order it
/// reports them, never lie inside one another.
pub proof fn lemma_breakdown_no_nesting(
    idx: Seq<(Seq<char>, Seq<ItemView>)>,
    top: Seq<ItemView>,
    targets: Seq<Seq<char>>,
    min_kb: u64,
)
    requires
        index_is_tree(idx),
        no_nesting(top),
    ensures
        no_nesting(
            crate::sort::merge_sort(breakdown_of(idx, top, targets, min_kb).0, report_order()),
        ),
{
    lemma_expand_list_no_nesting(idx, targets, min_kb, top, 10);
    lemma_breakdown_report_order(idx, top, targets, min_kb);
    lemma_no_nesting_permutation(
        breakdown_of(idx, top, targets, min_kb).0,
        crate::sort::merge_sort(breakdown_of(idx, top, targets, min_kb).0, report_order()),
    );
}

// ---------------------------------------------------------------------------
// Raising the size threshold
// ---------------------------------------------------------------------------

/// Every child that the index lists under the folder of `x` is no larger
/// than `x`.
pub open spec fn children_within(idx: Seq<(Seq<char>, Seq<ItemView>)>, x: ItemView) -> bool {
    forall|k: int, j: int|
        #![trigger idx[k].1[j]]
        0 <= k < idx.len() && 0 <= j < idx[k].1.len() && crate::path::path_eq(idx[k].0, x.path)
            ==> idx[k].1[j].size_kb <= x.size_kb
}

/// No folder of the index lists a child larger than a listed item with the
/// folder's path.
pub open spec fn sizes_nest(idx: Seq<(Seq<char>, Seq<ItemView>)>) -> bool {
    forall|k: int, i: int|
        #![trigger idx[k].1[i]]
        0 <= k < idx.len() && 0 <= i < idx[k].1.len() ==> children_within(idx, idx[k].1[i])
}

/// The items of at least `m` kilobytes.
pub open spec fn at_least(m: u64) -> spec_fn(ItemView) -> bool {
    |x: ItemView| x.size_kb >= m
}

proof fn lemma_filter_none(s: Seq<ItemView>, m: u64)
    requires
        forall|i: int| 0 <= i < s.len() ==> (#[trigger] s[i]).size_kb < m,
    ensures
        s.filter(at_least(m)) == Seq::<ItemView>::empty(),
    decreases s.len(),
{
    reveal(Seq::filter);
    if s.len() > 0 {
        assert forall|i: int| 0 <= i < s.drop_last().len() implies (
        #[trigger] s.drop_last()[i]).size_kb < m by {
            assert(s.drop_last()[i] == s[i]);
        }
        lemma_filter_none(s.drop_last(), m);
        assert(!at_least(m)(s.last()));
    }
}

proof fn lemma_filter_one(x: ItemView, m: u64)
    requires
        x.size_kb >= m,
    ensures
        seq![x].filter(at_least(m)) == seq![x],
{
    reveal_with_fuel(Seq::filter, 2);
    assert(seq![x].drop_last() =~= Seq::<ItemView>::empty());
}

/// The children a folder opens with are within it, and within themselves.
proof fn lemma_opened_within(idx: Seq<(Seq<char>, Seq<ItemView>)>, item: ItemView)
    requires
        sizes_nest(idx),
        children_within(idx, item),
        lookup(idx, item.path) is Some,
    ensures
        forall|i: int|
            0 <= i < lookup(idx, item.path)->0.len() ==> (#[trigger] lookup(idx, item.path)->0[i]).size_kb
                <= item.size_kb && children_within(idx, lookup(idx, item.path)->0[i]),
{
    lemma_lookup_entry(idx, item.path);
    let v = lookup(idx, item.path)->0;
    let k = choose|k: int|
        0 <= k < idx.len() && crate::path::path_eq(#[trigger] idx[k].0, item.path) && idx[k].1 == v;
    assert forall|i: int| 0 <= i < v.len() implies (#[trigger] v[i]).size_kb <= item.size_kb
        && children_within(idx, v[i]) by {
        assert(v[i] == idx[k].1[i]);
    }
}

/// What an item expands to is no larger than the item.
proof fn lemma_expand_within_size(
    idx: Seq<(Seq<char>, Seq<ItemView>)>,
    targets: Seq<Seq<char>>,
    min_kb: u64,
    item: ItemView,
    fuel: nat,
)
    requires
        sizes_nest(idx),
        children_within(idx, item),
    ensures
        forall|r: int|
            0 <= r < expand(idx, targets, min_kb, item, fuel).0.len() ==> (#[trigger] expand(
                idx,
                targets,
                min_kb,
                item,
                fuel,
            ).0[r]).size_kb <= item.size_kb,
    decreases fuel, 0nat,
{
    if !is_macos_path(item.path) && item.size_kb >= min_kb && opens(idx, targets, item, fuel) {
        lemma_opened_within(idx, item);
        let children = lookup(idx, item.path)->0;
        lemma_expand_list_within_size(idx, targets, min_kb, children, (fuel - 1) as nat, item.size_kb);
        let out = expand(idx, targets, min_kb, item, fuel).0;
        let inner = expand_list(idx, targets, min_kb, children, (fuel - 1) as nat).0;
        assert(out == inner);
        assert forall|r: int| 0 <= r < out.len() implies (#[trigger] out[r]).size_kb
            <= item.size_kb by {
            assert(out[r] == inner[r]);
        }
    }
}

proof fn lemma_expand_list_within_size(
    idx: Seq<(Seq<char>, Seq<ItemView>)>,
    targets: Seq<Seq<char>>,
    min_kb: u64,
    items: Seq<ItemView>,
    fuel: nat,
    bound: u64,
)
    requires
        sizes_nest(idx),
        forall|k: int|
            0 <= k < items.len() ==> (#[trigger] items[k]).size_kb <= bound && children_within(
                idx,
                items[k],
            ),
    ensures
        forall|r: int|
            0 <= r < expand_list(idx, targets, min_kb, items, fuel).0.len() ==> (
            #[trigger] expand_list(idx, targets, min_kb, items, fuel).0[r]).size_kb <= bound,
    decreases fuel, items.len(),
{
    if items.len() > 0 {
        let last = items.last();
        let rest = items.drop_last();
        assert(items[items.len() - 1] == last);
        assert forall|k: int| 0 <= k < rest.len() implies (#[trigger] rest[k]).size_kb <= bound
            && children_within(idx, rest[k]) by {
            assert(rest[k] == items[k]);
        }
        lemma_expand_within_size(idx, targets, min_kb, last, fuel);
        lemma_expand_list_within_size(idx, targets, min_kb, rest, fuel, bound);
        let a = expand(idx, targets, min_kb, last, fuel).0;
        let b = expand_list(idx, targets, min_kb, rest, fuel).0;
        let out = expand_list(idx, targets, min_kb, items, fuel).0;
        assert(out == a + b);
        assert forall|r: int| 0 <= r < out.len() implies (#[trigger] out[r]).size_kb <= bound by {
            if r < a.len() {
                assert(out[r] == a[r]);
            } else {
                assert(out[r] == b[r - a.len()]);
            }
        }
    }
}

proof fn lemma_expand_threshold(
    idx: Seq<(Seq<char>, Seq<ItemView>)>,
    targets: Seq<Seq<char>>,
    m1: u64,
    m2: u64,
    item: ItemView,
    fuel: nat,
)
    requires
        m1 <= m2,
        sizes_nest(idx),
        children_within(idx, item),
    ensures
        expand(idx, targets, m2, item, fuel).0 == expand(idx, targets, m1, item, fuel).0.filter(
            at_least(m2),
        ),
        expand(idx, targets, m2, item, fuel).1 <= expand(idx, targets, m1, item, fuel).1,
    decreases fuel, 0nat,
{
    reveal_with_fuel(Seq::filter, 1);
    if is_macos_path(item.path) {
    } else if item.size_kb < m1 {
    } else if item.size_kb < m2 {
        lemma_expand_within_size(idx, targets, m1, item, fuel);
        lemma_filter_none(expand(idx, targets, m1, item, fuel).0, m2);
        lemma_expand_nonneg(idx, targets, m1, item, fuel);
    } else if opens(idx, targets, item, fuel) {
        lemma_opened_within(idx, item);
        let children = lookup(idx, item.path)->0;
        assert forall|k: int| 0 <= k < children.len() implies (#[trigger] children[k]).size_kb
            <= item.size_kb && children_within(idx, children[k]) by {}
        lemma_expand_list_threshold(idx, targets, m1, m2, children, (fuel - 1) as nat);
    } else {
        lemma_filter_one(item, m2);
    }
}

proof fn lemma_expand_list_threshold(
    idx: Seq<(Seq<char>, Seq<ItemView>)>,
    targets: Seq<Seq<char>>,
    m1: u64,
    m2: u64,
    items: Seq<ItemView>,
    fuel: nat,
)
    requires
        m1 <= m2,
        sizes_nest(idx),
        forall|k: int| 0 <= k < items.len() ==> children_within(idx, #[trigger] items[k]),
    ensures
        expand_list(idx, targets, m2, items, fuel).0 == expand_list(
            idx,
            targets,
            m1,
            items,
            fuel,
        ).0.filter(at_least(m2)),
        expand_list(idx, targets, m2, items, fuel).1 <= expand_list(idx, targets, m1, items, fuel).1,
    decreases fuel, items.len(),
{
    reveal_with_fuel(Seq::filter, 1);
    if items.len() > 0 {
        let last = items.last();
        let rest = items.drop_last();
        assert(items[items.len() - 1] == last);
        assert forall|k: int| 0 <= k < rest.len() implies children_within(idx, #[trigger] rest[k]) by {
            assert(rest[k] == items[k]);
        }
        lemma_expand_threshold(idx, targets, m1, m2, last, fuel);
        lemma_expand_list_threshold(idx, targets, m1, m2, rest, fuel);
        let a = expand(idx, targets, m1, last, fuel).0;
        let b = expand_list(idx, targets, m1, rest, fuel).0;
        Seq::filter_distributes_over_add(a, b, at_least(m2));
    }
}

/// Raising the size threshold of the breakdown only drops items: when no
/// folder lists a child larger than the item of that folder, the items
/// found at threshold `m2` are those found at a lower threshold `m1` that
/// have at least `m2` kilobytes, in the same order, and the macOS-managed
/// space found does not grow.
pub proof fn lemma_breakdown_threshold(
    idx: Seq<(Seq<char>, Seq<ItemView>)>,
    top: Seq<ItemView>,
    targets: Seq<Seq<char>>,
    m1: u64,
    m2: u64,
)
    requires
        m1 <= m2,
        sizes_nest(idx),
        forall|k: int| 0 <= k < top.len() ==> children_within(idx, #[trigger] top[k]),
    ensures
        breakdown_of(idx, top, targets, m2).0 == breakdown_of(idx, top, targets, m1).0.filter(
            at_least(m2),
        ),
        breakdown_of(idx, top, targets, m2).1 <= breakdown_of(idx, top, targets, m1).1,
{
    lemma_expand_list_threshold(idx, targets, m1, m2, top, 10);
}

/// With the same hypothesis, the reported items at threshold `m2`, in the
/// order the breakdown reports them, are ordered and are the reported items
/// at `m1` that have at least `m2` kilobytes, in the same order.
pub proof fn lemma_reported_threshold(
    idx: Seq<(Seq<char>, Seq<ItemView>)>,
    top: Seq<ItemView>,
    targets: Seq<Seq<char>>,
    m1: u64,
    m2: u64,
)
    requires
        m1 <= m2,
        sizes_nest(idx),
        forall|k: int| 0 <= k < top.len() ==> children_within(idx, #[trigger] top[k]),
    ensures
        sorted_by(
            crate::sort::merge_sort(breakdown_of(idx, top, targets, m2).0, report_order()),
            report_order(),
        ),
        crate::sort::merge_sort(breakdown_of(idx, top, targets, m2).0, report_order())
            == crate::sort::merge_sort(breakdown_of(idx, top, targets, m1).0, report_order()).filter(
            at_least(m2),
        ),
{
    let f1 = breakdown_of(idx, top, targets, m1).0;
    lemma_breakdown_threshold(idx, top, targets, m1, m2);
    lemma_breakdown_report_order(idx, top, targets, m2);
    StorageItem::lemma_key_le_preorder();
    assert(report_order() =~= (|a: ItemView, b: ItemView| <StorageItem as SortKey>::key_le(a, b)));
    assert(crate::sort::closed_before(at_least(m2), report_order()));
    crate::sort::lemma_merge_sort_filter(f1, at_least(m2), report_order());
}

} // verus!
