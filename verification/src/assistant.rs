//! Rules around the assistant: the command palette, the follow-up questions
//! offered after an answer, and the checking of the ids that a model returns
//! when it ranks findings.
use vstd::prelude::*;
use crate::text::{contains_chars, split_words, trim, trim_chars, words, chars_of, string_of, contains_seq};
use crate::storage::string_views;

verus! {

// ---------------------------------------------------------------------------
// Lowercase
// ---------------------------------------------------------------------------

/// The lowercase of a text by Unicode's mapping, as `str::to_lowercase`
/// gives it.
pub uninterp spec fn lowercase(s: Seq<char>) -> Seq<char>;

/// Every character is ASCII.
pub open spec fn all_ascii(s: Seq<char>) -> bool {
    forall|i: int| 0 <= i < s.len() ==> (#[trigger] s[i] as u32) < 128
}

/// `str::to_lowercase`. The contract names the result and states the ASCII
/// case alone, where it is ASCII lowercasing (`A`-`Z` to `a`-`z`, the rest
/// kept); beyond ASCII, Unicode's lowercase mapping can change the length
/// of a text and lowers a final sigma by its context, which is not written
/// out here.
#[verifier::external_body]
fn to_lowercase(s: &str) -> (res: String)
    ensures
        res@ == lowercase(s@),
        all_ascii(s@) ==> res@ == crate::text::ascii_lowercase(s@),
{
    s.to_lowercase()
}

// ---------------------------------------------------------------------------
// Follow-up questions
// ---------------------------------------------------------------------------

/// The questions offered after an answer, in order.
pub open spec fn suggested_questions() -> Seq<Seq<char>> {
    seq![
        "Why is my disk almost full?"@,
        "What grew since last week?"@,
        "Which caches can I clear safely?"@,
        "Where is the hidden space on this disk?"@,
        "What is using memory right now?"@,
    ]
}

/// The first three suggested questions whose lowercase differs from the
/// lowercased question that was asked.
pub open spec fn follow_up_choices(asked: Seq<char>) -> Seq<Seq<char>> {
    let rest = suggested_questions().filter(|c: Seq<char>| lowercase(c) != asked);
    if rest.len() > 3 {
        rest.take(3)
    } else {
        rest
    }
}

/// The views of a list of static strings.
pub open spec fn str_views(s: Seq<&'static str>) -> Seq<Seq<char>> {
    s.map_values(|t: &'static str| t@)
}

/// The suggested question at position `i`.
fn suggested_question(i: usize) -> (res: &'static str)
    requires
        i < 5,
    ensures
        res@ == suggested_questions()[i as int],
{
    if i == 0 {
        "Why is my disk almost full?"
    } else if i == 1 {
        "What grew since last week?"
    } else if i == 2 {
        "Which caches can I clear safely?"
    } else if i == 3 {
        "Where is the hidden space on this disk?"
    } else {
        "What is using memory right now?"
    }
}

/// The follow-up questions for a question that is already lowercased.
pub fn follow_ups_for(asked: &str) -> (res: Vec<&'static str>)
    ensures
        str_views(res@) == follow_up_choices(asked@),
{
    let ghost all = suggested_questions();
    let ghost keep = |c: Seq<char>| lowercase(c) != asked@;
    let mut res: Vec<&'static str> = Vec::new();
    let mut i: usize = 0;
    while i < 5 && res.len() < 3
        invariant
            i <= 5,
            all == suggested_questions(),
            keep == (|c: Seq<char>| lowercase(c) != asked@),
            res@.len() <= 3,
            str_views(res@) == all.take(i as int).filter(keep),
        decreases 5 - i,
    {
        let q = suggested_question(i);
        let lower = to_lowercase(q);
        proof {
            assert(all.take(i + 1) =~= all.take(i as int).push(all[i as int]));
            all.take(i as int).lemma_filter_push(all[i as int], keep);
        }
        let ghost before = res@;
        if !crate::text::str_eq(lower.as_str(), asked) {
            res.push(q);
            assert(str_views(res@) =~= str_views(before).push(q@));
        } else {
            assert(str_views(res@) =~= str_views(before));
        }
        i = i + 1;
    }
    proof {
        lemma_filter_prefix(all, i as int, keep);
        assert(all.take(5) =~= all);
    }
    res
}

/// Filtering a prefix gives a prefix of the filtered sequence.
proof fn lemma_filter_prefix<A>(s: Seq<A>, j: int, keep: spec_fn(A) -> bool)
    requires
        0 <= j <= s.len(),
    ensures
        s.take(j).filter(keep).len() <= s.filter(keep).len(),
        s.filter(keep).take(s.take(j).filter(keep).len() as int) == s.take(j).filter(keep),
    decreases s.len() - j,
{
    if j < s.len() {
        lemma_filter_prefix(s, j + 1, keep);
        assert(s.take(j + 1) =~= s.take(j).push(s[j]));
        s.take(j).lemma_filter_push(s[j], keep);
        let small = s.take(j).filter(keep);
        let big = s.take(j + 1).filter(keep);
        assert(big.take(small.len() as int) =~= small);
        assert(s.filter(keep).take(small.len() as int) =~= big.take(small.len() as int));
    } else {
        assert(s.take(j) =~= s);
        assert(s.filter(keep).take(s.filter(keep).len() as int) =~= s.filter(keep));
    }
}

/// Up to three follow-up questions after an answer, never the question that
/// was asked (compared trimmed and lowercased).
pub fn follow_ups(question: &str) -> (res: Vec<&'static str>)
    ensures
        str_views(res@) == follow_up_choices(lowercase(trim(question@))),
{
    let trimmed = string_of(&trim_chars(&chars_of(question)));
    let asked = to_lowercase(trimmed.as_str());
    follow_ups_for(asked.as_str())
}

/// At most three follow-ups are offered, in the order of the suggestions,
/// and none of them is the question that was asked.
pub proof fn lemma_follow_ups_differ(asked: Seq<char>)
    ensures
        follow_up_choices(asked).len() <= 3,
        forall|i: int|
            0 <= i < follow_up_choices(asked).len() ==> lowercase(
                #[trigger] follow_up_choices(asked)[i],
            ) != asked,
{
    let keep = |c: Seq<char>| lowercase(c) != asked;
    let rest = suggested_questions().filter(keep);
    assert forall|i: int| 0 <= i < rest.len() implies lowercase(#[trigger] rest[i]) != asked by {
        suggested_questions().lemma_filter_pred(keep, i);
    }
}

// ---------------------------------------------------------------------------
// The ask box
// ---------------------------------------------------------------------------

/// A key in the open ask box holding `text`, with at most `limit`
/// characters: the new content of the box (`None` once it closes) and the
/// question to ask, if any. Esc closes it; Backspace deletes the last
/// character; Enter asks the question without its surrounding blanks and
/// closes the box, unless nothing but blanks was typed; a character that is
/// not a control character, typed without Control, is added while there is
/// room.
pub open spec fn ask_step(text: Seq<char>, k: crate::shell::ShellKey, limit: usize) -> (
    Option<Seq<char>>,
    Option<Seq<char>>,
) {
    match k.code {
        crate::shell::Code::Esc => (None, None),
        crate::shell::Code::Backspace => (
            Some(
                if text.len() > 0 {
                    text.drop_last()
                } else {
                    text
                },
            ),
            None,
        ),
        crate::shell::Code::Enter => if trim(text).len() > 0 {
            (None, Some(trim(text)))
        } else {
            (Some(text), None)
        },
        crate::shell::Code::Char(c) => if !control_char(c) && !k.control && text.len() < limit {
            (Some(text.push(c)), None)
        } else {
            (Some(text), None)
        },
        _ => (Some(text), None),
    }
}

/// The content of the ask box, when it is open.
pub open spec fn ask_state(a: Option<Vec<char>>) -> Option<Seq<char>> {
    match a {
        Some(t) => Some(t@),
        None => None,
    }
}

/// A key while the ask box may be open; returns the question to ask, if
/// one was sent. Nothing happens while it is closed.
pub fn ask_key(asking: &mut Option<Vec<char>>, k: crate::shell::ShellKey, limit: usize) -> (res: Option<String>)
    ensures
        match ask_state(*old(asking)) {
            None => ask_state(*final(asking)) is None && res is None,
            Some(t) => (
                ask_state(*final(asking)),
                match res {
                    Some(q) => Some(q@),
                    None => None,
                },
            ) == ask_step(t, k, limit),
        },
{
    let mut text = match asking.take() {
        Some(t) => t,
        None => {
            return None;
        },
    };
    match k.code {
        crate::shell::Code::Esc => None,
        crate::shell::Code::Backspace => {
            text.pop();
            *asking = Some(text);
            None
        },
        crate::shell::Code::Enter => {
            let question = trim_chars(&text);
            if question.len() > 0 {
                Some(string_of(&question))
            } else {
                *asking = Some(text);
                None
            }
        },
        crate::shell::Code::Char(c) => {
            if !is_control(c) && !k.control && text.len() < limit {
                text.push(c);
            }
            *asking = Some(text);
            None
        },
        _ => {
            *asking = Some(text);
            None
        },
    }
}

/// The follow-up that digit `digit` picks after the answer to `question`:
/// `1` to `3` pick the offered follow-ups in order.
pub open spec fn follow_up_pick(question: Seq<char>, digit: char) -> Option<Seq<char>> {
    let offered = follow_up_choices(lowercase(trim(question)));
    if '1' <= digit && digit <= '3' && (digit as u32 - '1' as u32) < offered.len() {
        Some(offered[(digit as u32 - '1' as u32) as int])
    } else {
        None
    }
}

/// The follow-up that a digit picks after an answer; the ask box opens
/// with it.
pub fn follow_up_for_digit(question: &str, digit: char) -> (res: Option<&'static str>)
    ensures
        match res {
            Some(q) => follow_up_pick(question@, digit) == Some(q@),
            None => follow_up_pick(question@, digit) is None,
        },
{
    if digit < '1' || digit > '3' {
        return None;
    }
    let offered = follow_ups(question);
    let i = ((digit as u32) - ('1' as u32)) as usize;
    if i < offered.len() {
        proof {
            assert(str_views(offered@)[i as int] == offered@[i as int]@);
        }
        Some(offered[i])
    } else {
        None
    }
}

// ---------------------------------------------------------------------------
// Command palette
// ---------------------------------------------------------------------------

/// The key that a palette command sends to the interface.
#[derive(Clone, Copy, Debug, PartialEq, Eq, Structural)]
pub enum PaletteKey {
    /// A character key.
    Char(char),
    /// The Enter key.
    Enter,
}

/// A command of the `:` palette: the key shown, what it does, and the key
/// it sends.
#[derive(Clone, Copy, Debug)]
pub struct PaletteCommand {
    pub key: &'static str,
    pub label: &'static str,
    pub sends: PaletteKey,
}

impl View for PaletteCommand {
    type V = (Seq<char>, Seq<char>, PaletteKey);

    open spec fn view(&self) -> (Seq<char>, Seq<char>, PaletteKey) {
        (self.key@, self.label@, self.sends)
    }
}

/// Number of palette commands.
pub const PALETTE_LEN: usize = 22;

/// Every command of the palette, in the order it is listed.
pub open spec fn palette() -> Seq<(Seq<char>, Seq<char>, PaletteKey)> {
    seq![
        ("1"@, "Go to Overview: where the space went"@, PaletteKey::Char('1')),
        ("2"@, "Go to Explore: browse folders by size"@, PaletteKey::Char('2')),
        ("3"@, "Go to History"@, PaletteKey::Char('3')),
        ("Enter"@, "Explain the selected item"@, PaletteKey::Enter),
        ("Space"@, "Add or remove the selected item from your plan"@, PaletteKey::Char(' ')),
        ("a"@, "Add all quick wins to your plan"@, PaletteKey::Char('a')),
        ("p"@, "Review your plan"@, PaletteKey::Char('p')),
        ("i"@, "Investigate the selected item"@, PaletteKey::Char('i')),
        ("/"@, "Ask a question about this Mac"@, PaletteKey::Char('/')),
        ("e"@, "Browse the selected item's folder"@, PaletteKey::Char('e')),
        ("o"@, "Reveal in Finder"@, PaletteKey::Char('o')),
        ("f"@, "Show all items, or fewer"@, PaletteKey::Char('f')),
        ("K"@, "Hide this item until the next scan"@, PaletteKey::Char('K')),
        ("v"@, "What the scan could not see"@, PaletteKey::Char('v')),
        ("r"@, "Scan again"@, PaletteKey::Char('r')),
        ("P"@, "Running processes"@, PaletteKey::Char('P')),
        ("x"@, "Force-stop the selected process (adds to plan)"@, PaletteKey::Char('x')),
        ("m"@, "Move a large folder to another disk"@, PaletteKey::Char('m')),
        ("A"@, "Open macOS Settings (Full Disk Access, Apple Intelligence)"@, PaletteKey::Char('A')),
        ("M"@, "Reduce motion on or off"@, PaletteKey::Char('M')),
        ("R"@, "Online reference research on or off"@, PaletteKey::Char('R')),
        ("q"@, "Quit"@, PaletteKey::Char('q')),
    ]
}

/// The palette command at position `i`.
pub fn palette_entry(i: usize) -> (res: PaletteCommand)
    requires
        i < PALETTE_LEN,
    ensures
        res@ == palette()[i as int],
{
    if i == 0 {
        PaletteCommand { key: "1", label: "Go to Overview: where the space went", sends: PaletteKey::Char('1') }
    } else if i == 1 {
        PaletteCommand { key: "2", label: "Go to Explore: browse folders by size", sends: PaletteKey::Char('2') }
    } else if i == 2 {
        PaletteCommand { key: "3", label: "Go to History", sends: PaletteKey::Char('3') }
    } else if i == 3 {
        PaletteCommand { key: "Enter", label: "Explain the selected item", sends: PaletteKey::Enter }
    } else if i == 4 {
        PaletteCommand { key: "Space", label: "Add or remove the selected item from your plan", sends: PaletteKey::Char(' ') }
    } else if i == 5 {
        PaletteCommand { key: "a", label: "Add all quick wins to your plan", sends: PaletteKey::Char('a') }
    } else if i == 6 {
        PaletteCommand { key: "p", label: "Review your plan", sends: PaletteKey::Char('p') }
    } else if i == 7 {
        PaletteCommand { key: "i", label: "Investigate the selected item", sends: PaletteKey::Char('i') }
    } else if i == 8 {
        PaletteCommand { key: "/", label: "Ask a question about this Mac", sends: PaletteKey::Char('/') }
    } else if i == 9 {
        PaletteCommand { key: "e", label: "Browse the selected item's folder", sends: PaletteKey::Char('e') }
    } else if i == 10 {
        PaletteCommand { key: "o", label: "Reveal in Finder", sends: PaletteKey::Char('o') }
    } else if i == 11 {
        PaletteCommand { key: "f", label: "Show all items, or fewer", sends: PaletteKey::Char('f') }
    } else if i == 12 {
        PaletteCommand { key: "K", label: "Hide this item until the next scan", sends: PaletteKey::Char('K') }
    } else if i == 13 {
        PaletteCommand { key: "v", label: "What the scan could not see", sends: PaletteKey::Char('v') }
    } else if i == 14 {
        PaletteCommand { key: "r", label: "Scan again", sends: PaletteKey::Char('r') }
    } else if i == 15 {
        PaletteCommand { key: "P", label: "Running processes", sends: PaletteKey::Char('P') }
    } else if i == 16 {
        PaletteCommand { key: "x", label: "Force-stop the selected process (adds to plan)", sends: PaletteKey::Char('x') }
    } else if i == 17 {
        PaletteCommand { key: "m", label: "Move a large folder to another disk", sends: PaletteKey::Char('m') }
    } else if i == 18 {
        PaletteCommand { key: "A", label: "Open macOS Settings (Full Disk Access, Apple Intelligence)", sends: PaletteKey::Char('A') }
    } else if i == 19 {
        PaletteCommand { key: "M", label: "Reduce motion on or off", sends: PaletteKey::Char('M') }
    } else if i == 20 {
        PaletteCommand { key: "R", label: "Online reference research on or off", sends: PaletteKey::Char('R') }
    } else {
        PaletteCommand { key: "q", label: "Quit", sends: PaletteKey::Char('q') }
    }
}

/// The text a palette command is matched against: its lowercased key, a
/// space, and its lowercased description.
pub open spec fn command_text(c: (Seq<char>, Seq<char>, PaletteKey)) -> Seq<char> {
    lowercase(c.0) + seq![' '] + lowercase(c.1)
}

/// Every one of `ws` occurs in `text`.
pub open spec fn contains_all(text: Seq<char>, ws: Seq<Seq<char>>) -> bool {
    forall|i: int| 0 <= i < ws.len() ==> contains_seq(text, #[trigger] ws[i])
}

/// The commands whose text contains every word of an already lowercased
/// query, in palette order.
pub open spec fn palette_choices(query: Seq<char>) -> Seq<(Seq<char>, Seq<char>, PaletteKey)> {
    palette().filter(|c: (Seq<char>, Seq<char>, PaletteKey)| contains_all(command_text(c), words(query)))
}

/// The views of a list of commands.
pub open spec fn command_views(s: Seq<PaletteCommand>) -> Seq<(Seq<char>, Seq<char>, PaletteKey)> {
    s.map_values(|c: PaletteCommand| c@)
}

/// Whether every word occurs in `text`.
fn contains_every(text: &Vec<char>, ws: &Vec<Vec<char>>) -> (res: bool)
    ensures
        res == (forall|i: int| 0 <= i < ws@.len() ==> contains_seq(text@, #[trigger] ws@[i]@)),
{
    let mut i: usize = 0;
    while i < ws.len()
        invariant
            i <= ws@.len(),
            forall|k: int| 0 <= k < i ==> contains_seq(text@, #[trigger] ws@[k]@),
        decreases ws@.len() - i,
    {
        if !contains_chars(text, &ws[i]) {
            return false;
        }
        i = i + 1;
    }
    true
}

/// The palette commands that match a query that is already lowercased.
pub fn palette_matches_lower(query: &str) -> (res: Vec<PaletteCommand>)
    ensures
        command_views(res@) == palette_choices(query@),
{
    let ws = split_words(&chars_of(query));
    let ghost wv = words(query@);
    let ghost keep = |c: (Seq<char>, Seq<char>, PaletteKey)| contains_all(command_text(c), wv);
    let ghost all = palette();
    let mut res: Vec<PaletteCommand> = Vec::new();
    let mut i: usize = 0;
    while i < PALETTE_LEN
        invariant
            i <= PALETTE_LEN,
            all == palette(),
            all.len() == PALETTE_LEN,
            wv == words(query@),
            ws@.len() == wv.len(),
            forall|k: int| 0 <= k < ws@.len() ==> #[trigger] ws@[k]@ == wv[k],
            keep == (|c: (Seq<char>, Seq<char>, PaletteKey)| contains_all(command_text(c), wv)),
            command_views(res@) == all.take(i as int).filter(keep),
        decreases PALETTE_LEN - i,
    {
        let c = palette_entry(i);
        let lower_key = to_lowercase(c.key);
        let mut text = chars_of(lower_key.as_str());
        text.push(' ');
        let lower = to_lowercase(c.label);
        crate::text::append_str(&mut text, lower.as_str());
        assert(text@ =~= command_text(c@));
        proof {
            assert(all.take(i + 1) =~= all.take(i as int).push(all[i as int]));
            all.take(i as int).lemma_filter_push(all[i as int], keep);
        }
        let ghost before = res@;
        if contains_every(&text, &ws) {
            assert forall|k: int| 0 <= k < wv.len() implies contains_seq(
                command_text(c@),
                #[trigger] wv[k],
            ) by {
                assert(ws@[k]@ == wv[k]);
            }
            assert(keep(all[i as int]));
            res.push(c);
            assert(command_views(res@) =~= command_views(before).push(c@));
        } else {
            assert(!contains_all(command_text(c@), wv));
        }
        i = i + 1;
    }
    assert(all.take(PALETTE_LEN as int) =~= all);
    res
}

/// Palette commands whose key or description contains every typed word,
/// compared in lowercase.
pub fn palette_matches(query: &str) -> (res: Vec<PaletteCommand>)
    ensures
        command_views(res@) == palette_choices(lowercase(query@)),
{
    let lower = to_lowercase(query);
    palette_matches_lower(lower.as_str())
}

/// A command is listed for a lowercased query exactly when every word of
/// the query occurs in its lowercased key and description: no listed
/// command lacks a typed word, and no command with all of them is left
/// out. The list keeps the palette's order.
pub proof fn lemma_palette_choices_hold_every_word(query: Seq<char>)
    ensures
        forall|i: int, w: int|
            0 <= i < palette_choices(query).len() && 0 <= w < words(query).len() ==> contains_seq(
                command_text(#[trigger] palette_choices(query)[i]),
                #[trigger] words(query)[w],
            ),
        forall|k: int|
            0 <= k < palette().len() && (forall|w: int|
                0 <= w < words(query).len() ==> contains_seq(
                    command_text(palette()[k]),
                    #[trigger] words(query)[w],
                )) ==> palette_choices(query).contains(#[trigger] palette()[k]),
        forall|i: int|
            0 <= i < palette_choices(query).len() ==> palette().contains(
                #[trigger] palette_choices(query)[i],
            ),
{
    let keep = |c: (Seq<char>, Seq<char>, PaletteKey)| contains_all(command_text(c), words(query));
    let all = palette();
    assert(palette_choices(query) == all.filter(keep));
    assert forall|i: int, w: int|
        0 <= i < palette_choices(query).len() && 0 <= w < words(query).len() implies contains_seq(
        command_text(#[trigger] palette_choices(query)[i]),
        #[trigger] words(query)[w],
    ) by {
        all.lemma_filter_pred(keep, i);
    }
    assert forall|k: int|
        0 <= k < palette().len() && (forall|w: int|
            0 <= w < words(query).len() ==> contains_seq(
                command_text(palette()[k]),
                #[trigger] words(query)[w],
            )) implies palette_choices(query).contains(#[trigger] palette()[k]) by {
        assert(keep(all[k]));
        all.lemma_filter_contains(keep, k);
    }
    assert forall|i: int| 0 <= i < palette_choices(query).len() implies palette().contains(
        #[trigger] palette_choices(query)[i],
    ) by {
        let f = all.filter(keep);
        assert(f.contains(f[i]));
        all.lemma_filter_contains_rev(keep, f[i]);
    }
}

/// An empty query lists the whole palette.
pub proof fn lemma_empty_query_lists_all()
    ensures
        palette_choices(Seq::empty()) == palette(),
{
    let keep = |c: (Seq<char>, Seq<char>, PaletteKey)| contains_all(command_text(c), words(Seq::empty()));
    assert(crate::text::split_by(Seq::<char>::empty(), crate::text::Sep::White) =~= seq![Seq::<char>::empty()]);
    assert(words(Seq::empty()).len() == 0) by {
        let parts = seq![Seq::<char>::empty()];
        assert(parts =~= Seq::<Seq<char>>::empty().push(Seq::<char>::empty()));
        Seq::<Seq<char>>::empty().lemma_filter_push(Seq::<char>::empty(), crate::text::nonempty());
    }
    lemma_filter_all(palette(), keep);
}

/// The longest query the palette takes, in characters.
pub const PALETTE_QUERY_LIMIT: usize = 40;

/// `char::is_control`: the characters of Unicode's control category, the
/// C0 controls, DEL and the C1 controls.
pub open spec fn control_char(c: char) -> bool {
    (c as u32) < 0x20 || (0x7f <= (c as u32) && (c as u32) < 0xa0)
}

/// Whether `c` is a control character.
pub fn is_control(c: char) -> (res: bool)
    ensures
        res == control_char(c),
{
    let v = c as u32;
    v < 0x20 || (0x7f <= v && v < 0xa0)
}

/// The open palette: the query typed and the command under the cursor.
pub struct PaletteInput {
    pub query: Vec<char>,
    pub cursor: usize,
}

/// The content of an open palette.
pub struct PaletteView {
    pub query: Seq<char>,
    pub cursor: usize,
}

/// The content of the palette, when it is open.
pub open spec fn palette_state(p: Option<PaletteInput>) -> Option<PaletteView> {
    match p {
        Some(i) => Some(PaletteView { query: i.query@, cursor: i.cursor }),
        None => None,
    }
}

/// A key on the open palette, and the key it sends on, if any: Esc closes
/// it; Backspace deletes the last character; Up and Down move among the
/// matching commands; Enter closes it and sends the key of the command
/// under the cursor; a character that is not a control character is typed
/// while the query is shorter than the limit. Editing the query puts the
/// cursor back on the first command.
pub open spec fn palette_step(s: PaletteView, code: crate::shell::Code) -> (
    Option<PaletteView>,
    Option<PaletteKey>,
) {
    let matches = palette_choices(lowercase(s.query));
    match code {
        crate::shell::Code::Esc => (None, None),
        crate::shell::Code::Backspace => (
            Some(
                PaletteView {
                    query: if s.query.len() > 0 {
                        s.query.drop_last()
                    } else {
                        s.query
                    },
                    cursor: 0,
                },
            ),
            None,
        ),
        crate::shell::Code::Down => (
            Some(
                PaletteView {
                    cursor: if s.cursor + 1 < matches.len() {
                        (s.cursor + 1) as usize
                    } else if matches.len() == 0 {
                        0
                    } else {
                        (matches.len() - 1) as usize
                    },
                    ..s
                },
            ),
            None,
        ),
        crate::shell::Code::Up => (
            Some(
                PaletteView {
                    cursor: if s.cursor == 0 {
                        0
                    } else {
                        (s.cursor - 1) as usize
                    },
                    ..s
                },
            ),
            None,
        ),
        crate::shell::Code::Enter => (
            None,
            if s.cursor < matches.len() {
                Some(matches[s.cursor as int].2)
            } else {
                None
            },
        ),
        crate::shell::Code::Char(c) => if !control_char(c) && s.query.len() < PALETTE_QUERY_LIMIT {
            (Some(PaletteView { query: s.query.push(c), cursor: 0 }), None)
        } else {
            (Some(s), None)
        },
        _ => (Some(s), None),
    }
}

/// A key while the palette may be open; returns the key to send on to the
/// interface, if any. Nothing happens while it is closed.
pub fn palette_key(palette: &mut Option<PaletteInput>, code: crate::shell::Code) -> (res: Option<PaletteKey>)
    ensures
        match palette_state(*old(palette)) {
            None => palette_state(*final(palette)) is None && res is None,
            Some(s) => (palette_state(*final(palette)), res) == palette_step(s, code),
        },
{
    let (mut query, cursor) = match palette.take() {
        Some(p) => (p.query, p.cursor),
        None => {
            return None;
        },
    };
    let ghost q = query@;
    match code {
        crate::shell::Code::Esc => None,
        crate::shell::Code::Backspace => {
            query.pop();
            *palette = Some(PaletteInput { query, cursor: 0 });
            None
        },
        crate::shell::Code::Down => {
            let typed = string_of(&query);
            let matches = palette_matches(typed.as_str());
            let n = matches.len();
            proof {
                assert(command_views(matches@).len() == matches@.len());
            }
            let next = if cursor < n && n - cursor > 1 {
                cursor + 1
            } else if n == 0 {
                0
            } else {
                n - 1
            };
            *palette = Some(PaletteInput { query, cursor: next });
            None
        },
        crate::shell::Code::Up => {
            let next = if cursor == 0 {
                0
            } else {
                cursor - 1
            };
            *palette = Some(PaletteInput { query, cursor: next });
            None
        },
        crate::shell::Code::Enter => {
            let typed = string_of(&query);
            let matches = palette_matches(typed.as_str());
            if cursor < matches.len() {
                proof {
                    assert(command_views(matches@)[cursor as int] == matches@[cursor as int]@);
                }
                Some(matches[cursor].sends)
            } else {
                None
            }
        },
        crate::shell::Code::Char(c) => {
            if !is_control(c) && query.len() < PALETTE_QUERY_LIMIT {
                query.push(c);
                *palette = Some(PaletteInput { query, cursor: 0 });
            } else {
                *palette = Some(PaletteInput { query, cursor });
            }
            None
        },
        _ => {
            *palette = Some(PaletteInput { query, cursor });
            None
        },
    }
}

/// Filtering by a predicate that holds everywhere changes nothing.
proof fn lemma_filter_all<A>(s: Seq<A>, keep: spec_fn(A) -> bool)
    requires
        forall|x: A| #[trigger] keep(x),
    ensures
        s.filter(keep) == s,
    decreases s.len(),
{
    if s.len() > 0 {
        lemma_filter_all(s.drop_last(), keep);
        assert(s =~= s.drop_last().push(s.last()));
        s.drop_last().lemma_filter_push(s.last(), keep);
    } else {
        assert(s.filter(keep) =~= s);
    }
}

// ---------------------------------------------------------------------------
// Ranking returned by a model
// ---------------------------------------------------------------------------

/// The map built from a list of pairs, later pairs overriding earlier ones.
pub open spec fn pairs_map(pairs: Seq<(Seq<char>, Seq<char>)>) -> Map<Seq<char>, Seq<char>>
    decreases pairs.len(),
{
    if pairs.len() == 0 {
        Map::empty()
    } else {
        pairs_map(pairs.drop_last()).insert(pairs.last().0, pairs.last().1)
    }
}

/// The aliases shown to a model, each mapped to the id it stands for.
pub struct IdMap {
    entries: Vec<(String, String)>,
}

impl IdMap {
    /// The stored pairs.
    pub closed spec fn pairs(&self) -> Seq<(Seq<char>, Seq<char>)> {
        self.entries@.map_values(|e: (String, String)| (e.0@, e.1@))
    }
}

impl View for IdMap {
    type V = Map<Seq<char>, Seq<char>>;

    closed spec fn view(&self) -> Map<Seq<char>, Seq<char>> {
        pairs_map(self.pairs())
    }
}

/// The position of the last pair with key `k`, if any.
pub open spec fn last_with_key(pairs: Seq<(Seq<char>, Seq<char>)>, k: Seq<char>, j: int) -> bool {
    &&& 0 <= j < pairs.len()
    &&& pairs[j].0 == k
    &&& forall|i: int| j < i < pairs.len() ==> #[trigger] pairs[i].0 != k
}

proof fn lemma_pairs_map_lookup(pairs: Seq<(Seq<char>, Seq<char>)>, k: Seq<char>, j: int)
    requires
        last_with_key(pairs, k, j),
    ensures
        pairs_map(pairs).contains_key(k),
        pairs_map(pairs)[k] == pairs[j].1,
    decreases pairs.len(),
{
    if j < pairs.len() - 1 {
        assert(pairs.last().0 != k);
        lemma_pairs_map_lookup(pairs.drop_last(), k, j);
    }
}

proof fn lemma_pairs_map_absent(pairs: Seq<(Seq<char>, Seq<char>)>, k: Seq<char>)
    requires
        forall|i: int| 0 <= i < pairs.len() ==> #[trigger] pairs[i].0 != k,
    ensures
        !pairs_map(pairs).contains_key(k),
    decreases pairs.len(),
{
    if pairs.len() > 0 {
        assert(pairs.last().0 != k);
        lemma_pairs_map_absent(pairs.drop_last(), k);
    }
}

proof fn lemma_pairs_map_update(
    pairs: Seq<(Seq<char>, Seq<char>)>,
    j: int,
    k: Seq<char>,
    v: Seq<char>,
)
    requires
        last_with_key(pairs, k, j),
    ensures
        pairs_map(pairs.update(j, (k, v))) == pairs_map(pairs).insert(k, v),
    decreases pairs.len(),
{
    let up = pairs.update(j, (k, v));
    if j == pairs.len() - 1 {
        assert(up.drop_last() =~= pairs.drop_last());
        assert(pairs_map(up) =~= pairs_map(pairs).insert(k, v));
    } else {
        assert(up.drop_last() =~= pairs.drop_last().update(j, (k, v)));
        assert(pairs.last().0 != k);
        lemma_pairs_map_update(pairs.drop_last(), j, k, v);
        assert(pairs_map(up) =~= pairs_map(pairs).insert(k, v));
    }
}

impl IdMap {
    /// An empty map.
    pub fn new() -> (res: IdMap)
        ensures
            res@ == Map::<Seq<char>, Seq<char>>::empty(),
    {
        let res = IdMap { entries: Vec::new() };
        assert(res.pairs() =~= Seq::<(Seq<char>, Seq<char>)>::empty());
        res
    }

    /// The position of the last entry with key `key`.
    fn find(&self, key: &str) -> (res: Option<usize>)
        ensures
            match res {
                Some(j) => last_with_key(self.pairs(), key@, j as int),
                None => forall|i: int|
                    0 <= i < self.pairs().len() ==> #[trigger] self.pairs()[i].0 != key@,
            },
    {
        let mut i: usize = self.entries.len();
        while i > 0
            invariant
                i <= self.entries@.len(),
                self.pairs().len() == self.entries@.len(),
                forall|m: int| i <= m < self.pairs().len() ==> #[trigger] self.pairs()[m].0 != key@,
            decreases i,
        {
            i = i - 1;
            if crate::text::str_eq(self.entries[i].0.as_str(), key) {
                return Some(i);
            }
        }
        None
    }

    /// Maps `key` to `value`, replacing what it was mapped to.
    pub fn insert(&mut self, key: String, value: String)
        ensures
            final(self)@ == old(self)@.insert(key@, value@),
    {
        let ghost before = self.pairs();
        match self.find(key.as_str()) {
            Some(j) => {
                let ghost kv = key@;
                self.entries.set(j, (key, value));
                proof {
                    assert(self.pairs() =~= before.update(j as int, (kv, value@)));
                    lemma_pairs_map_update(before, j as int, kv, value@);
                }
            },
            None => {
                let ghost kv = (key@, value@);
                self.entries.push((key, value));
                assert(self.pairs() =~= before.push(kv));
                assert(self.pairs().drop_last() =~= before);
            },
        }
    }

    /// What `key` is mapped to.
    pub fn get(&self, key: &str) -> (res: Option<String>)
        ensures
            match res {
                Some(v) => self@.contains_key(key@) && v@ == self@[key@],
                None => !self@.contains_key(key@),
            },
    {
        match self.find(key) {
            Some(j) => {
                proof {
                    lemma_pairs_map_lookup(self.pairs(), key@, j as int);
                }
                Some(crate::text::owned(self.entries[j].1.as_str()))
            },
            None => {
                proof {
                    lemma_pairs_map_absent(self.pairs(), key@);
                }
                None
            },
        }
    }
}

/// A ranking of findings returned by a model: the ids of the key areas and
/// of the quick wins, and the reasons it gave.
pub struct Triage {
    pub key_area_ids: Vec<String>,
    pub quick_win_ids: Vec<String>,
    pub reasons: Vec<String>,
}

/// The content of a ranking.
pub struct TriageView {
    pub key_area_ids: Seq<Seq<char>>,
    pub quick_win_ids: Seq<Seq<char>>,
    pub reasons: Seq<Seq<char>>,
}

impl View for Triage {
    type V = TriageView;

    open spec fn view(&self) -> TriageView {
        TriageView {
            key_area_ids: string_views(self.key_area_ids@),
            quick_win_ids: string_views(self.quick_win_ids@),
            reasons: string_views(self.reasons@),
        }
    }
}

/// Every id is a known alias.
pub open spec fn all_known(ids: Seq<Seq<char>>, m: Map<Seq<char>, Seq<char>>) -> bool {
    forall|i: int| 0 <= i < ids.len() ==> m.contains_key(#[trigger] ids[i])
}

/// The ids that the aliases stand for.
pub open spec fn aliases_resolved(ids: Seq<Seq<char>>, m: Map<Seq<char>, Seq<char>>) -> Seq<Seq<char>> {
    ids.map_values(|id: Seq<char>| m[id])
}

/// A ranking with its aliases replaced by real ids and its reasons dropped,
/// or nothing when it names an alias that was never shown.
pub open spec fn resolved(t: TriageView, m: Map<Seq<char>, Seq<char>>) -> Option<TriageView> {
    if all_known(t.key_area_ids, m) && all_known(t.quick_win_ids, m) {
        Some(
            TriageView {
                key_area_ids: aliases_resolved(t.key_area_ids, m),
                quick_win_ids: aliases_resolved(t.quick_win_ids, m),
                reasons: Seq::empty(),
            },
        )
    } else {
        None
    }
}

/// Replaces each alias by the id it stands for; `None` when one is unknown.
fn resolve_ids(ids: &Vec<String>, id_map: &IdMap) -> (res: Option<Vec<String>>)
    ensures
        match res {
            Some(v) => all_known(string_views(ids@), id_map@) && string_views(v@) == aliases_resolved(
                string_views(ids@),
                id_map@,
            ),
            None => !all_known(string_views(ids@), id_map@),
        },
{
    let ghost src = string_views(ids@);
    let mut out: Vec<String> = Vec::new();
    let mut i: usize = 0;
    while i < ids.len()
        invariant
            i <= ids@.len(),
            src == string_views(ids@),
            all_known(src.take(i as int), id_map@),
            string_views(out@) == aliases_resolved(src.take(i as int), id_map@),
        decreases ids@.len() - i,
    {
        match id_map.get(ids[i].as_str()) {
            Some(mapped) => {
                let ghost before = out@;
                out.push(mapped);
                assert(src.take(i + 1) =~= src.take(i as int).push(src[i as int]));
                assert(string_views(out@) =~= string_views(before).push(id_map@[src[i as int]]));
                assert(aliases_resolved(src.take(i + 1), id_map@) =~= aliases_resolved(
                    src.take(i as int),
                    id_map@,
                ).push(id_map@[src[i as int]]));
            },
            None => {
                assert(!id_map@.contains_key(src[i as int]));
                return None;
            },
        }
        i = i + 1;
    }
    assert(src.take(ids@.len() as int) =~= src);
    Some(out)
}

/// Maps the aliases of a model's ranking back to real finding ids. An alias
/// that was never shown rejects the whole ranking; the model's reasons are
/// dropped, as prose is no evidence and need not match the order returned.
pub fn resolve_triage_ids(triage: Triage, id_map: &IdMap) -> (res: Option<Triage>)
    ensures
        match res {
            Some(t) => resolved(triage@, id_map@) == Some(t@),
            None => resolved(triage@, id_map@) is None,
        },
{
    let key_area_ids = match resolve_ids(&triage.key_area_ids, id_map) {
        Some(v) => v,
        None => return None,
    };
    let quick_win_ids = match resolve_ids(&triage.quick_win_ids, id_map) {
        Some(v) => v,
        None => return None,
    };
    let res = Triage { key_area_ids, quick_win_ids, reasons: Vec::new() };
    assert(string_views(res.reasons@) =~= Seq::<Seq<char>>::empty());
    Some(res)
}

} // verus!
