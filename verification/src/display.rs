//! Short texts of the interface: the scan spinner, elapsed times, and the
//! cutting of names and sentences to the width that a cell has.
use vstd::prelude::*;
use crate::text::{
    chars_of, decimal, decimal2, decimal_chars, decimal2_chars, is_digit, slice_chars, split_at_char,
    split_char, str_eq, string_of,
};

verus! {

// ---------------------------------------------------------------------------
// Scan activity
// ---------------------------------------------------------------------------

/// Milliseconds that one spinner frame stays on screen.
pub const SPINNER_FRAME_MS: u128 = 80;

/// The braille frames of the spinner, in order.
pub open spec fn spinner_char(i: int) -> char {
    if i == 0 {
        '⠋'
    } else if i == 1 {
        '⠙'
    } else if i == 2 {
        '⠹'
    } else if i == 3 {
        '⠸'
    } else if i == 4 {
        '⠼'
    } else if i == 5 {
        '⠴'
    } else if i == 6 {
        '⠦'
    } else if i == 7 {
        '⠧'
    } else if i == 8 {
        '⠇'
    } else {
        '⠏'
    }
}

/// The frame shown after `elapsed_ms` milliseconds.
pub open spec fn spinner_index(elapsed_ms: u128) -> int {
    ((elapsed_ms / SPINNER_FRAME_MS) % 10) as int
}

/// The spinner frame for the time spent scanning: it turns every
/// `SPINNER_FRAME_MS` milliseconds, whatever the scan has completed.
pub fn scan_spinner(elapsed_ms: u128) -> (res: &'static str)
    ensures
        res@ == seq![spinner_char(spinner_index(elapsed_ms))],
{
    let frame = (elapsed_ms / SPINNER_FRAME_MS) % 10;
    if frame == 0 {
        proof {
            reveal_strlit("⠋");
        }
        "⠋"
    } else if frame == 1 {
        proof {
            reveal_strlit("⠙");
        }
        "⠙"
    } else if frame == 2 {
        proof {
            reveal_strlit("⠹");
        }
        "⠹"
    } else if frame == 3 {
        proof {
            reveal_strlit("⠸");
        }
        "⠸"
    } else if frame == 4 {
        proof {
            reveal_strlit("⠼");
        }
        "⠼"
    } else if frame == 5 {
        proof {
            reveal_strlit("⠴");
        }
        "⠴"
    } else if frame == 6 {
        proof {
            reveal_strlit("⠦");
        }
        "⠦"
    } else if frame == 7 {
        proof {
            reveal_strlit("⠧");
        }
        "⠧"
    } else if frame == 8 {
        proof {
            reveal_strlit("⠇");
        }
        "⠇"
    } else {
        proof {
            reveal_strlit("⠏");
        }
        "⠏"
    }
}

/// The spinner shows another frame one frame time later, so it keeps moving
/// while a category is still being measured.
pub proof fn lemma_spinner_advances(elapsed_ms: u128)
    requires
        elapsed_ms + SPINNER_FRAME_MS <= u128::MAX,
    ensures
        spinner_char(spinner_index(elapsed_ms)) != spinner_char(
            spinner_index((elapsed_ms + SPINNER_FRAME_MS) as u128),
        ),
{
    let q = elapsed_ms / SPINNER_FRAME_MS;
    assert(((elapsed_ms + SPINNER_FRAME_MS) as u128) / SPINNER_FRAME_MS == q + 1);
    assert((q + 1) % 10 != q % 10);
}

// ---------------------------------------------------------------------------
// Elapsed time
// ---------------------------------------------------------------------------

/// `"{m}m {ss}s"` from a minute on, `"{s}s"` before.
pub open spec fn elapsed_text(seconds: nat) -> Seq<char> {
    if seconds >= 60 {
        decimal(seconds / 60) + seq!['m', ' '] + decimal2(seconds % 60) + seq!['s']
    } else {
        decimal(seconds) + seq!['s']
    }
}

/// The elapsed time of a scan or copy, in whole seconds.
pub fn format_elapsed(seconds: u64) -> (res: String)
    ensures
        res@ == elapsed_text(seconds as nat),
{
    let mut out: Vec<char>;
    if seconds >= 60 {
        out = decimal_chars(seconds / 60);
        out.push('m');
        out.push(' ');
        let secs = decimal2_chars(seconds % 60);
        crate::text::append_chars(&mut out, &secs);
        out.push('s');
    } else {
        out = decimal_chars(seconds);
        out.push('s');
    }
    assert(out@ =~= elapsed_text(seconds as nat));
    string_of(&out)
}

/// `"{s} s"` under a minute and a half, else the nearest whole minute as
/// `"{m} min"`.
pub open spec fn duration_text(seconds: nat) -> Seq<char> {
    if seconds < 90 {
        decimal(seconds) + seq![' ', 's']
    } else {
        decimal(((seconds + 30) / 60) as nat) + seq![' ', 'm', 'i', 'n']
    }
}

/// A running duration, in whole seconds.
pub fn duration_label(seconds: u64) -> (res: String)
    ensures
        res@ == duration_text(seconds as nat),
{
    let mut out: Vec<char>;
    if seconds < 90 {
        out = decimal_chars(seconds);
        out.push(' ');
        out.push('s');
    } else {
        let minutes = seconds / 60 + (seconds % 60 + 30) / 60;
        assert(minutes == (seconds + 30) / 60);
        out = decimal_chars(minutes);
        out.push(' ');
        out.push('m');
        out.push('i');
        out.push('n');
    }
    assert(out@ =~= duration_text(seconds as nat));
    string_of(&out)
}

// ---------------------------------------------------------------------------
// Cutting text to a width
// ---------------------------------------------------------------------------

/// `max(n - 1, 0)`.
pub open spec fn less_one(n: nat) -> nat {
    if n == 0 {
        0
    } else {
        (n - 1) as nat
    }
}

/// A sentence cut at the end: unchanged when it fits in `width` characters,
/// else its first `width - 1` characters and an ellipsis.
pub open spec fn cut_end(s: Seq<char>, width: nat) -> Seq<char> {
    if s.len() <= width {
        s
    } else {
        s.take(less_one(width) as int).push('…')
    }
}

/// Cuts a sentence to `width` characters with an ellipsis at the end.
pub fn truncate_end(text: &str, width: usize) -> (res: String)
    ensures
        res@ == cut_end(text@, width as nat),
{
    let chars = chars_of(text);
    if chars.len() <= width {
        return string_of(&chars);
    }
    let keep = if width == 0 {
        0
    } else {
        width - 1
    };
    let mut cut = slice_chars(&chars, 0, keep);
    cut.push('…');
    assert(cut@ =~= cut_end(text@, width as nat));
    string_of(&cut)
}

/// A name cut in the middle: unchanged when it fits in `max` characters, a
/// lone ellipsis when `max` is at most one, else its first `(max - 1) / 2`
/// characters, an ellipsis, and as many of its last characters as fill
/// `max`.
pub open spec fn cut_middle(s: Seq<char>, max: nat) -> Seq<char> {
    if s.len() <= max {
        s
    } else if max <= 1 {
        seq!['…']
    } else {
        let left = (max - 1) / 2;
        let right = (max - 1) - left;
        s.take(left as int) + seq!['…'] + s.skip(s.len() - right)
    }
}

/// Cuts a path or name to `max_chars` characters, keeping both ends.
pub fn truncate_middle(value: &str, max_chars: usize) -> (res: String)
    ensures
        res@ == cut_middle(value@, max_chars as nat),
{
    let chars = chars_of(value);
    let n = chars.len();
    if n <= max_chars {
        return string_of(&chars);
    }
    if max_chars <= 1 {
        let mut one: Vec<char> = Vec::new();
        one.push('…');
        assert(one@ =~= cut_middle(value@, max_chars as nat));
        return string_of(&one);
    }
    let left = (max_chars - 1) / 2;
    let right = (max_chars - 1) - left;
    let mut out = slice_chars(&chars, 0, left);
    out.push('…');
    let suffix = slice_chars(&chars, n - right, n);
    crate::text::append_chars(&mut out, &suffix);
    assert(out@ =~= cut_middle(value@, max_chars as nat));
    string_of(&out)
}

/// A cut text is the text itself when it fits, and never longer than the
/// width (or one character, for the ellipsis alone).
pub proof fn lemma_cuts_fit(s: Seq<char>, width: nat)
    ensures
        s.len() <= width ==> cut_end(s, width) == s && cut_middle(s, width) == s,
        cut_end(s, width).len() <= if width == 0 {
            1
        } else {
            width
        },
        cut_middle(s, width).len() <= if width == 0 {
            1
        } else {
            width
        },
        s.len() > width && width >= 2 ==> cut_middle(s, width).len() == width,
{
}

// ---------------------------------------------------------------------------
// Investigation wording
// ---------------------------------------------------------------------------

/// The plain name of a read-only tool; unknown tools keep their own name.
pub open spec fn tool_label(tool: Seq<char>) -> Seq<char> {
    if tool == "list_children"@ {
        "contents"@
    } else if tool == "folder_age"@ {
        "file ages"@
    } else if tool == "open_handles"@ {
        "open files"@
    } else if tool == "cleanup_rule"@ {
        "cleanup rule"@
    } else if tool == "growth_history"@ {
        "history"@
    } else if tool == "identify_owner"@ {
        "owning app"@
    } else if tool == "process_details"@ {
        "process details"@
    } else if tool == "sample_process"@ {
        "process sample"@
    } else if tool == "memory_state"@ {
        "memory"@
    } else if tool == "top_processes"@ {
        "busy processes"@
    } else if tool == "disk_accounting"@ {
        "disk accounting"@
    } else if tool == "mounted_volumes"@ {
        "volumes"@
    } else if tool == "reference"@ || tool == "research"@ {
        "Apple notes"@
    } else if tool == "list_findings"@ {
        "findings"@
    } else {
        tool
    }
}

/// Plain names for the read-only tools.
pub fn tool_name<'a>(tool: &'a str) -> (res: &'a str)
    ensures
        res@ == tool_label(tool@),
{
    if str_eq(tool, "list_children") {
        "contents"
    } else if str_eq(tool, "folder_age") {
        "file ages"
    } else if str_eq(tool, "open_handles") {
        "open files"
    } else if str_eq(tool, "cleanup_rule") {
        "cleanup rule"
    } else if str_eq(tool, "growth_history") {
        "history"
    } else if str_eq(tool, "identify_owner") {
        "owning app"
    } else if str_eq(tool, "process_details") {
        "process details"
    } else if str_eq(tool, "sample_process") {
        "process sample"
    } else if str_eq(tool, "memory_state") {
        "memory"
    } else if str_eq(tool, "top_processes") {
        "busy processes"
    } else if str_eq(tool, "disk_accounting") {
        "disk accounting"
    } else if str_eq(tool, "mounted_volumes") {
        "volumes"
    } else if str_eq(tool, "reference") || str_eq(tool, "research") {
        "Apple notes"
    } else if str_eq(tool, "list_findings") {
        "findings"
    } else {
        tool
    }
}

/// A handle such as `n2` or `p13`: `n` or `p` followed by at least one
/// ASCII digit and nothing else.
pub open spec fn is_handle(w: Seq<char>) -> bool {
    &&& w.len() >= 2
    &&& (w[0] == 'n' || w[0] == 'p')
    &&& forall|i: int| 1 <= i < w.len() ==> is_digit(#[trigger] w[i])
}

/// The pieces joined with `sep` between them.
pub open spec fn join(parts: Seq<Seq<char>>, sep: char) -> Seq<char>
    decreases parts.len(),
{
    if parts.len() == 0 {
        Seq::empty()
    } else if parts.len() == 1 {
        parts[0]
    } else {
        join(parts.drop_last(), sep) + seq![sep] + parts.last()
    }
}

/// The words of a summary, split at single spaces, without handles.
pub open spec fn without_handles(text: Seq<char>) -> Seq<char> {
    join(split_at_char(text, ' ').filter(|w: Seq<char>| !is_handle(w)), ' ')
}

/// Whether `w` is a handle.
fn handle_word(w: &Vec<char>) -> (res: bool)
    ensures
        res == is_handle(w@),
{
    if w.len() < 2 || !(w[0] == 'n' || w[0] == 'p') {
        return false;
    }
    let mut i: usize = 1;
    while i < w.len()
        invariant
            1 <= i <= w@.len(),
            forall|k: int| 1 <= k < i ==> is_digit(#[trigger] w@[k]),
        decreases w@.len() - i,
    {
        if !('0' <= w[i] && w[i] <= '9') {
            return false;
        }
        i = i + 1;
    }
    true
}

/// Drops the handles (`n2`, `p1`) that only the model needs from a
/// summary; the other words keep their single-space spacing.
pub fn strip_handles(text: &str) -> (res: String)
    ensures
        res@ == without_handles(text@),
{
    let chars = chars_of(text);
    let pieces = split_char(&chars, ' ');
    let ghost parts = split_at_char(text@, ' ');
    let ghost keep = |w: Seq<char>| !is_handle(w);
    let mut out: Vec<char> = Vec::new();
    let mut count: usize = 0;
    let mut i: usize = 0;
    while i < pieces.len()
        invariant
            i <= pieces@.len(),
            parts == split_at_char(text@, ' '),
            pieces@.len() == parts.len(),
            forall|k: int| 0 <= k < pieces@.len() ==> #[trigger] pieces@[k]@ == parts[k],
            keep == (|w: Seq<char>| !is_handle(w)),
            count as int == parts.take(i as int).filter(keep).len(),
            out@ == join(parts.take(i as int).filter(keep), ' '),
        decreases pieces@.len() - i,
    {
        proof {
            assert(parts.take(i + 1) =~= parts.take(i as int).push(parts[i as int]));
            parts.take(i as int).lemma_filter_push(parts[i as int], keep);
        }
        if !handle_word(&pieces[i]) {
            let ghost before = parts.take(i as int).filter(keep);
            if count > 0 {
                out.push(' ');
            }
            crate::text::append_chars(&mut out, &pieces[i]);
            proof {
                let after = before.push(parts[i as int]);
                assert(after.drop_last() =~= before);
                assert(out@ =~= join(after, ' '));
            }
            count = count + 1;
        }
        i = i + 1;
    }
    assert(parts.take(pieces@.len() as int) =~= parts);
    string_of(&out)
}

// ---------------------------------------------------------------------------
// Paths typed by the user
// ---------------------------------------------------------------------------

/// `Path::join` of a relative path onto a base: an absolute path replaces
/// the base; otherwise a `/` is put between them unless the base is empty or
/// already ends with one.
pub open spec fn path_join(base: Seq<char>, rel: Seq<char>) -> Seq<char> {
    if rel.len() > 0 && rel[0] == '/' {
        rel
    } else if base.len() > 0 && base.last() != '/' {
        base + seq!['/'] + rel
    } else {
        base + rel
    }
}

/// A destination typed by the user: `~` is the account's home, `~/rest` is
/// `rest` under it, anything else is taken as written.
pub open spec fn expanded_path(input: Seq<char>, home: Seq<char>) -> Seq<char> {
    if input == seq!['~'] {
        home
    } else if input.len() >= 2 && input[0] == '~' && input[1] == '/' {
        path_join(home, input.skip(2))
    } else {
        input
    }
}

/// Expands a leading `~` in a destination typed by the user.
pub fn expand_user_path(input: &str, account_home: &str) -> (res: String)
    ensures
        res@ == expanded_path(input@, account_home@),
{
    let s = chars_of(input);
    let home = chars_of(account_home);
    if s.len() == 1 && s[0] == '~' {
        assert(input@ =~= seq!['~']);
        return string_of(&home);
    }
    if s.len() >= 2 && s[0] == '~' && s[1] == '/' {
        assert(input@ != seq!['~']);
        let rel = slice_chars(&s, 2, s.len());
        assert(rel@ =~= input@.skip(2));
        if rel.len() > 0 && rel[0] == '/' {
            return string_of(&rel);
        }
        let mut out = home;
        if out.len() > 0 && out[out.len() - 1] != '/' {
            out.push('/');
        }
        crate::text::append_chars(&mut out, &rel);
        assert(out@ =~= path_join(account_home@, input@.skip(2)));
        return string_of(&out);
    }
    assert(input@ != seq!['~']);
    string_of(&s)
}

} // verus!
