//! Character-level text operations with their mathematical meaning.
//!
//! Strings are modelled by their `Seq<char>` view. The functions here are the
//! building blocks that the parsers and labels of the crate are proved with.
use vstd::prelude::*;

verus! {

// ---------------------------------------------------------------------------
// Conversions between `String`/`&str` and character vectors
// ---------------------------------------------------------------------------

/// The characters of `s`, in order.
pub fn chars_of(s: &str) -> (res: Vec<char>)
    ensures
        res@ == s@,
{
    let mut res: Vec<char> = Vec::new();
    for c in it: s.chars()
        invariant
            res@ == it.seq().take(it.index() as int),
    {
        res.push(c);
    }
    res
}

/// `String::push`: appends one character.
#[verifier::external_body]
pub(crate) fn push_char(s: &mut String, c: char)
    ensures
        final(s)@ == old(s)@.push(c),
{
    s.push(c);
}

/// Appends every character of `tail` to `s`.
pub fn push_chars(s: &mut String, tail: &Vec<char>)
    ensures
        final(s)@ == old(s)@ + tail@,
{
    let mut i: usize = 0;
    while i < tail.len()
        invariant
            i <= tail@.len(),
            s@ == old(s)@ + tail@.take(i as int),
        decreases tail@.len() - i,
    {
        push_char(s, tail[i]);
        i = i + 1;
        assert(tail@.take(i as int) == tail@.take((i - 1) as int).push(tail@[i - 1]));
    }
    assert(tail@.take(tail@.len() as int) == tail@);
}

/// A `String` holding exactly the given characters.
pub fn string_of(chars: &Vec<char>) -> (res: String)
    ensures
        res@ == chars@,
{
    let mut res = String::new();
    push_chars(&mut res, chars);
    res
}

/// A `String` with the characters of a `&str`.
pub fn owned(s: &str) -> (res: String)
    ensures
        res@ == s@,
{
    s.to_owned()
}

/// Whether two character sequences are equal.
pub fn chars_eq(a: &Vec<char>, b: &Vec<char>) -> (res: bool)
    ensures
        res == (a@ == b@),
{
    if a.len() != b.len() {
        return false;
    }
    let mut i: usize = 0;
    while i < a.len()
        invariant
            i <= a@.len(),
            a@.len() == b@.len(),
            forall|j: int| 0 <= j < i ==> a@[j] == b@[j],
        decreases a@.len() - i,
    {
        if a[i] != b[i] {
            return false;
        }
        i = i + 1;
    }
    assert(a@ =~= b@);
    true
}

/// Whether `s` equals the string `t`.
pub fn str_eq(s: &str, t: &str) -> (res: bool)
    ensures
        res == (s@ == t@),
{
    let a = chars_of(s);
    let b = chars_of(t);
    chars_eq(&a, &b)
}

// ---------------------------------------------------------------------------
// Whitespace and trimming
// ---------------------------------------------------------------------------

/// The Unicode `White_Space` property, as `char::is_whitespace` tests it.
pub open spec fn is_white(c: char) -> bool {
    ||| (c as u32) >= 0x9 && (c as u32) <= 0xd
    ||| c as u32 == 0x20
    ||| c as u32 == 0x85
    ||| c as u32 == 0xa0
    ||| c as u32 == 0x1680
    ||| (c as u32) >= 0x2000 && (c as u32) <= 0x200a
    ||| c as u32 == 0x2028
    ||| c as u32 == 0x2029
    ||| c as u32 == 0x202f
    ||| c as u32 == 0x205f
    ||| c as u32 == 0x3000
}

/// `char::is_whitespace`.
pub fn is_whitespace(c: char) -> (res: bool)
    ensures
        res == is_white(c),
{
    let v = c as u32;
    (v >= 0x9 && v <= 0xd) || v == 0x20 || v == 0x85 || v == 0xa0 || v == 0x1680 || (v >= 0x2000
        && v <= 0x200a) || v == 0x2028 || v == 0x2029 || v == 0x202f || v == 0x205f || v == 0x3000
}

/// `s` without its leading whitespace (`str::trim_start`).
pub open spec fn trim_start(s: Seq<char>) -> Seq<char>
    decreases s.len(),
{
    if s.len() > 0 && is_white(s[0]) {
        trim_start(s.drop_first())
    } else {
        s
    }
}

/// `s` without its trailing whitespace (`str::trim_end`).
pub open spec fn trim_end(s: Seq<char>) -> Seq<char>
    decreases s.len(),
{
    if s.len() > 0 && is_white(s.last()) {
        trim_end(s.drop_last())
    } else {
        s
    }
}

/// `str::trim`.
pub open spec fn trim(s: Seq<char>) -> Seq<char> {
    trim_end(trim_start(s))
}

proof fn lemma_trim_start_skip(s: Seq<char>, i: int)
    requires
        0 <= i <= s.len(),
        forall|j: int| 0 <= j < i ==> is_white(#[trigger] s[j]),
    ensures
        trim_start(s) == trim_start(s.skip(i)),
    decreases i,
{
    if i > 0 {
        assert(s.skip(1) =~= s.drop_first());
        lemma_trim_start_skip(s.drop_first(), i - 1);
        assert(s.drop_first().skip(i - 1) =~= s.skip(i));
    } else {
        assert(s.skip(0) =~= s);
    }
}

proof fn lemma_trim_end_take(s: Seq<char>, i: int)
    requires
        0 <= i <= s.len(),
        forall|j: int| i <= j < s.len() ==> is_white(#[trigger] s[j]),
    ensures
        trim_end(s) == trim_end(s.take(i)),
    decreases s.len() - i,
{
    if i < s.len() {
        lemma_trim_end_take(s.drop_last(), i);
        assert(s.drop_last().take(i) =~= s.take(i));
    } else {
        assert(s.take(i) =~= s);
    }
}

/// The characters of `s` without leading and trailing whitespace.
pub fn trim_chars(s: &Vec<char>) -> (res: Vec<char>)
    ensures
        res@ == trim(s@),
{
    let mut start: usize = 0;
    while start < s.len() && is_whitespace(s[start])
        invariant
            start <= s@.len(),
            forall|j: int| 0 <= j < start ==> is_white(#[trigger] s@[j]),
        decreases s@.len() - start,
    {
        start = start + 1;
    }
    proof {
        lemma_trim_start_skip(s@, start as int);
    }
    let ghost rest = s@.skip(start as int);
    assert(trim_start(rest) == rest);
    let mut end: usize = s.len();
    while end > start && is_whitespace(s[end - 1])
        invariant
            start <= end <= s@.len(),
            forall|j: int| end <= j < s@.len() ==> is_white(#[trigger] s@[j]),
        decreases end,
    {
        end = end - 1;
    }
    proof {
        lemma_trim_end_take(rest, end - start);
        assert(rest.take(end - start) =~= s@.subrange(start as int, end as int));
    }
    let mut res: Vec<char> = Vec::new();
    let mut k: usize = start;
    while k < end
        invariant
            start <= k <= end <= s@.len(),
            res@ == s@.subrange(start as int, k as int),
        decreases end - k,
    {
        res.push(s[k]);
        k = k + 1;
        assert(res@ =~= s@.subrange(start as int, k as int));
    }
    res
}

// ---------------------------------------------------------------------------
// Splitting
// ---------------------------------------------------------------------------

/// The separators that text is split at.
pub enum Sep {
    /// One given character.
    Char(char),
    /// Any whitespace character.
    White,
}

/// Whether `c` is a separator of kind `sep`.
pub open spec fn is_sep(sep: Sep, c: char) -> bool {
    match sep {
        Sep::Char(x) => c == x,
        Sep::White => is_white(c),
    }
}

/// `str::split` with a character predicate: the pieces between separators,
/// empty pieces included; the empty string gives one empty piece.
pub open spec fn split_by(s: Seq<char>, sep: Sep) -> Seq<Seq<char>>
    decreases s.len(),
{
    if s.len() == 0 {
        seq![Seq::<char>::empty()]
    } else {
        let r = split_by(s.drop_last(), sep);
        if is_sep(sep, s.last()) {
            r.push(Seq::<char>::empty())
        } else {
            r.update(r.len() - 1, r.last().push(s.last()))
        }
    }
}

pub proof fn lemma_split_by_nonempty(s: Seq<char>, sep: Sep)
    ensures
        split_by(s, sep).len() >= 1,
    decreases s.len(),
{
    if s.len() > 0 {
        lemma_split_by_nonempty(s.drop_last(), sep);
    }
}

/// The predicate "is not empty".
pub open spec fn nonempty() -> spec_fn(Seq<char>) -> bool {
    |w: Seq<char>| w.len() > 0
}

/// Pieces of `s` split at the character `sep`.
pub open spec fn split_at_char(s: Seq<char>, sep: char) -> Seq<Seq<char>> {
    split_by(s, Sep::Char(sep))
}

/// The words of `s`: the non-empty pieces between whitespace
/// (`str::split_whitespace`).
pub open spec fn words(s: Seq<char>) -> Seq<Seq<char>> {
    split_by(s, Sep::White).filter(nonempty())
}

proof fn lemma_split_step(s: Seq<char>, sep: Sep, i: int)
    requires
        0 <= i < s.len(),
    ensures
        split_by(s.take(i + 1), sep) == (if is_sep(sep, s[i]) {
            split_by(s.take(i), sep).push(Seq::<char>::empty())
        } else {
            let r = split_by(s.take(i), sep);
            r.update(r.len() - 1, r.last().push(s[i]))
        }),
{
    assert(s.take(i + 1).drop_last() =~= s.take(i));
}

/// Splits `s` at every occurrence of `sep`; empty pieces are kept.
pub fn split_char(s: &Vec<char>, sep: char) -> (res: Vec<Vec<char>>)
    ensures
        res@.len() == split_at_char(s@, sep).len(),
        forall|k: int| 0 <= k < res@.len() ==> #[trigger] res@[k]@ == split_at_char(s@, sep)[k],
{
    let ghost f = Sep::Char(sep);
    assert(f == Sep::Char(sep));
    let mut done: Vec<Vec<char>> = Vec::new();
    let mut cur: Vec<char> = Vec::new();
    let mut i: usize = 0;
    while i < s.len()
        invariant
            f == Sep::Char(sep),
            i <= s@.len(),
            done@.len() + 1 == split_by(s@.take(i as int), f).len(),
            forall|k: int|
                0 <= k < done@.len() ==> #[trigger] done@[k]@ == split_by(s@.take(i as int), f)[k],
            cur@ == split_by(s@.take(i as int), f).last(),
        decreases s@.len() - i,
    {
        let ghost before = split_by(s@.take(i as int), f);
        proof {
            lemma_split_step(s@, f, i as int);
            lemma_split_by_nonempty(s@.take(i as int), f);
        }
        if s[i] == sep {
            done.push(cur);
            cur = Vec::new();
            proof {
                let after = split_by(s@.take(i + 1), f);
                assert(after == before.push(Seq::<char>::empty()));
                assert forall|k: int| 0 <= k < done@.len() implies #[trigger] done@[k]@ == after[k] by {
                    if k < done@.len() - 1 {
                    } else {
                    }
                }
            }
        } else {
            cur.push(s[i]);
        }
        i = i + 1;
    }
    assert(s@.take(s@.len() as int) =~= s@);
    done.push(cur);
    done
}

/// The words of `s`, as `str::split_whitespace` yields them.
pub fn split_words(s: &Vec<char>) -> (res: Vec<Vec<char>>)
    ensures
        res@.len() == words(s@).len(),
        forall|k: int| 0 <= k < res@.len() ==> #[trigger] res@[k]@ == words(s@)[k],
{
    let ghost f = Sep::White;
    let ghost ne = nonempty();
    let mut done: Vec<Vec<char>> = Vec::new();
    let mut cur: Vec<char> = Vec::new();
    let mut i: usize = 0;
    while i < s.len()
        invariant
            f == Sep::White,
            ne == nonempty(),
            i <= s@.len(),
            split_by(s@.take(i as int), f).len() >= 1,
            done@.len() == split_by(s@.take(i as int), f).drop_last().filter(ne).len(),
            forall|k: int|
                0 <= k < done@.len() ==> #[trigger] done@[k]@ == split_by(
                    s@.take(i as int),
                    f,
                ).drop_last().filter(ne)[k],
            cur@ == split_by(s@.take(i as int), f).last(),
        decreases s@.len() - i,
    {
        let ghost before = split_by(s@.take(i as int), f);
        proof {
            lemma_split_step(s@, f, i as int);
        }
        if is_whitespace(s[i]) {
            proof {
                let after = split_by(s@.take(i + 1), f);
                assert(after.drop_last() =~= before);
                assert(before =~= before.drop_last().push(before.last()));
                before.drop_last().lemma_filter_push(before.last(), ne);
            }
            if cur.len() > 0 {
                done.push(cur);
            }
            cur = Vec::new();
        } else {
            cur.push(s[i]);
            proof {
                let after = split_by(s@.take(i + 1), f);
                assert(after.drop_last() =~= before.drop_last());
            }
        }
        i = i + 1;
    }
    assert(s@.take(s@.len() as int) =~= s@);
    proof {
        let all = split_by(s@, f);
        assert(all =~= all.drop_last().push(all.last()));
        all.drop_last().lemma_filter_push(all.last(), ne);
    }
    if cur.len() > 0 {
        done.push(cur);
    }
    done
}

// ---------------------------------------------------------------------------
// Lines
// ---------------------------------------------------------------------------

/// A line without the `\r` of a `\r\n` ending.
pub open spec fn strip_cr(line: Seq<char>) -> Seq<char> {
    if line.len() > 0 && line.last() == '\r' {
        line.drop_last()
    } else {
        line
    }
}

/// `str::lines`: the pieces between `\n`, each terminated one without a
/// trailing `\r`; the final piece only when it is not empty.
pub open spec fn lines(s: Seq<char>) -> Seq<Seq<char>> {
    let p = split_at_char(s, '\n');
    let terminated = p.drop_last().map_values(|l: Seq<char>| strip_cr(l));
    if p.last().len() > 0 {
        terminated.push(p.last())
    } else {
        terminated
    }
}

/// The lines of `s`, as `str::lines` yields them.
pub fn split_lines(s: &Vec<char>) -> (res: Vec<Vec<char>>)
    ensures
        res@.len() == lines(s@).len(),
        forall|k: int| 0 <= k < res@.len() ==> #[trigger] res@[k]@ == lines(s@)[k],
{
    let pieces = split_char(s, '\n');
    proof {
        lemma_split_by_nonempty(s@, Sep::Char('\n'));
    }
    let ghost p = split_at_char(s@, '\n');
    let mut res: Vec<Vec<char>> = Vec::new();
    let n = pieces.len();
    let mut i: usize = 0;
    while i + 1 < n
        invariant
            n == pieces@.len() == p.len(),
            n >= 1,
            i + 1 <= n,
            forall|k: int| 0 <= k < n ==> #[trigger] pieces@[k]@ == p[k],
            res@.len() == i,
            forall|k: int| 0 <= k < i ==> #[trigger] res@[k]@ == strip_cr(p[k]),
        decreases n - i,
    {
        let piece = &pieces[i];
        let mut line: Vec<char> = piece.clone();
        if line.len() > 0 && line[line.len() - 1] == '\r' {
            line.pop();
        }
        res.push(line);
        i = i + 1;
    }
    let last = &pieces[n - 1];
    if last.len() > 0 {
        res.push(last.clone());
    }
    proof {
        let terminated = p.drop_last().map_values(|l: Seq<char>| strip_cr(l));
        assert(terminated.len() == n - 1);
        assert forall|k: int| 0 <= k < n - 1 implies #[trigger] terminated[k] == strip_cr(p[k]) by {}
    }
    res
}

// ---------------------------------------------------------------------------
// Case
// ---------------------------------------------------------------------------

/// `char::to_ascii_lowercase`.
pub open spec fn ascii_lower(c: char) -> char {
    if 'A' <= c && c <= 'Z' {
        ((c as u32) + 32) as char
    } else {
        c
    }
}

/// `str::to_ascii_lowercase`.
pub open spec fn ascii_lowercase(s: Seq<char>) -> Seq<char> {
    s.map_values(|c: char| ascii_lower(c))
}

pub fn lower_ascii_char(c: char) -> (res: char)
    ensures
        res == ascii_lower(c),
{
    if 'A' <= c && c <= 'Z' {
        let v = (c as u32) + 32;
        proof {
            assert(0x61 <= v <= 0x7a);
        }
        char_from_ascii(v)
    } else {
        c
    }
}

/// `char::to_ascii_uppercase`.
pub open spec fn ascii_upper(c: char) -> char {
    if 'a' <= c && c <= 'z' {
        ((c as u32) - 32) as char
    } else {
        c
    }
}

pub fn upper_ascii_char(c: char) -> (res: char)
    ensures
        res == ascii_upper(c),
{
    if 'a' <= c && c <= 'z' {
        let v = (c as u32) - 32;
        proof {
            assert(0x41 <= v <= 0x5a);
        }
        char_from_ascii(v)
    } else {
        c
    }
}

/// The character with an ASCII code point.
fn char_from_ascii(v: u32) -> (res: char)
    requires
        v < 128,
    ensures
        res == v as char,
{
    let b = v as u8;
    b as char
}

/// The ASCII-lowercased characters of `s`.
pub fn lower_ascii(s: &Vec<char>) -> (res: Vec<char>)
    ensures
        res@ == ascii_lowercase(s@),
{
    let mut res: Vec<char> = Vec::new();
    let mut i: usize = 0;
    while i < s.len()
        invariant
            i <= s@.len(),
            res@ == ascii_lowercase(s@.take(i as int)),
        decreases s@.len() - i,
    {
        res.push(lower_ascii_char(s[i]));
        i = i + 1;
        assert(ascii_lowercase(s@.take(i as int)) =~= ascii_lowercase(s@.take(i - 1)).push(
            ascii_lower(s@[i - 1]),
        ));
    }
    assert(s@.take(s@.len() as int) =~= s@);
    res
}

// ---------------------------------------------------------------------------
// Searching
// ---------------------------------------------------------------------------

/// `pat` occurs in `s` starting at index `i`.
pub open spec fn occurs_at(s: Seq<char>, pat: Seq<char>, i: int) -> bool {
    0 <= i && i + pat.len() <= s.len() && s.subrange(i, i + pat.len()) == pat
}

/// `str::contains` with a string pattern.
pub open spec fn contains_seq(s: Seq<char>, pat: Seq<char>) -> bool {
    exists|i: int| occurs_at(s, pat, i)
}

/// `str::starts_with` with a string pattern.
pub open spec fn starts_with(s: Seq<char>, pat: Seq<char>) -> bool {
    occurs_at(s, pat, 0)
}

/// The first index at or after `i` at which `pat` occurs in `s`.
pub open spec fn find_from(s: Seq<char>, pat: Seq<char>, i: int) -> Option<int>
    decreases s.len() + 1 - i,
{
    if i < 0 || i > s.len() {
        None
    } else if occurs_at(s, pat, i) {
        Some(i)
    } else {
        find_from(s, pat, i + 1)
    }
}

/// The first index at which `pat` occurs in `s`, if any (`str::find`).
pub open spec fn first_occurrence(s: Seq<char>, pat: Seq<char>) -> Option<int> {
    find_from(s, pat, 0)
}

proof fn lemma_find_from_absent(s: Seq<char>, pat: Seq<char>, i: int)
    requires
        0 <= i,
        find_from(s, pat, i) is None,
    ensures
        forall|j: int| i <= j ==> !occurs_at(s, pat, j),
    decreases s.len() + 1 - i,
{
    if i <= s.len() {
        lemma_find_from_absent(s, pat, i + 1);
    }
}

/// Whether `pat` occurs in `s` at index `i`.
pub fn matches_at(s: &Vec<char>, pat: &Vec<char>, i: usize) -> (res: bool)
    ensures
        res == occurs_at(s@, pat@, i as int),
{
    if i > s.len() || pat.len() > s.len() - i {
        return false;
    }
    let mut k: usize = 0;
    while k < pat.len()
        invariant
            s@.len() == s.len(),
            i <= s@.len(),
            i + pat@.len() <= s@.len(),
            k <= pat@.len(),
            forall|j: int| 0 <= j < k ==> s@[i + j] == pat@[j],
        decreases pat@.len() - k,
    {
        assert(k < pat@.len());
        assert(i + pat@.len() <= s@.len());
        let idx: usize = i + k;
        if s[idx] != pat[k] {
            assert(s@.subrange(i as int, i + pat@.len())[k as int] != pat@[k as int]);
            return false;
        }
        k = k + 1;
    }
    assert(s@.subrange(i as int, i + pat@.len()) =~= pat@);
    true
}

/// The first index at which `pat` occurs in `s`, if any.
pub fn find_chars(s: &Vec<char>, pat: &Vec<char>) -> (res: Option<usize>)
    ensures
        match res {
            Some(i) => first_occurrence(s@, pat@) == Some(i as int) && occurs_at(s@, pat@, i as int),
            None => first_occurrence(s@, pat@) is None,
        },
{
    let mut i: usize = 0;
    while i < s.len()
        invariant
            i <= s@.len(),
            s@.len() == s.len(),
            first_occurrence(s@, pat@) == find_from(s@, pat@, i as int),
        decreases s@.len() - i,
    {
        if matches_at(s, pat, i) {
            return Some(i);
        }
        i = i + 1;
    }
    if matches_at(s, pat, i) {
        Some(i)
    } else {
        assert(find_from(s@, pat@, i + 1) is None);
        None
    }
}

proof fn lemma_find_from_at(s: Seq<char>, pat: Seq<char>, a: int, i: int)
    requires
        0 <= a <= i,
        occurs_at(s, pat, i),
        forall|k: int| a <= k < i ==> !occurs_at(s, pat, k),
    ensures
        find_from(s, pat, a) == Some(i),
    decreases i - a,
{
    if a < i {
        lemma_find_from_at(s, pat, a + 1, i);
    }
}

/// An occurrence with none before it is the first occurrence.
pub proof fn lemma_first_occurrence_at(s: Seq<char>, pat: Seq<char>, i: int)
    requires
        occurs_at(s, pat, i),
        forall|k: int| 0 <= k < i ==> !occurs_at(s, pat, k),
    ensures
        first_occurrence(s, pat) == Some(i),
{
    lemma_find_from_at(s, pat, 0, i);
}

/// The first occurrence occurs, and nothing occurs before it.
pub proof fn lemma_first_occurrence_is_first(s: Seq<char>, pat: Seq<char>)
    ensures
        match first_occurrence(s, pat) {
            Some(i) => occurs_at(s, pat, i) && forall|k: int| 0 <= k < i ==> !occurs_at(s, pat, k),
            None => forall|k: int| !occurs_at(s, pat, k),
        },
{
    match first_occurrence(s, pat) {
        Some(i) => {
            lemma_find_from_some(s, pat, 0);
            assert forall|k: int| 0 <= k < i implies !occurs_at(s, pat, k) by {
                if occurs_at(s, pat, k) {
                    lemma_least_occurrence(s, pat, k);
                    let j2 = choose|j: int| 0 <= j <= k && occurs_at(s, pat, j) && forall|m: int| 0 <= m < j ==> !occurs_at(s, pat, m);
                    lemma_first_occurrence_at(s, pat, j2);
                }
            }
        },
        None => {
            lemma_find_from_absent(s, pat, 0);
        },
    }
}

proof fn lemma_least_occurrence(s: Seq<char>, pat: Seq<char>, k: int)
    requires
        0 <= k,
        occurs_at(s, pat, k),
    ensures
        exists|j: int| 0 <= j <= k && occurs_at(s, pat, j) && forall|m: int| 0 <= m < j ==> !occurs_at(s, pat, m),
    decreases k,
{
    if exists|m: int| 0 <= m < k && occurs_at(s, pat, m) {
        let m = choose|m: int| 0 <= m < k && occurs_at(s, pat, m);
        lemma_least_occurrence(s, pat, m);
    } else {
        assert(forall|m: int| 0 <= m < k ==> !occurs_at(s, pat, m));
    }
}

/// An occurrence in what follows index `e` is an occurrence in `s`,
/// shifted by `e`.
pub proof fn lemma_occurs_after(s: Seq<char>, pat: Seq<char>, e: int, t: int)
    requires
        0 <= e <= s.len(),
    ensures
        occurs_at(s.skip(e), pat, t) <==> (t >= 0 && occurs_at(s, pat, e + t)),
{
    if t >= 0 && t + pat.len() <= s.len() - e {
        assert(s.skip(e).subrange(t, t + pat.len()) =~= s.subrange(e + t, e + t + pat.len()));
    }
}

/// Whether `pat` occurs in `s` at all.
pub proof fn lemma_contains_first(s: Seq<char>, pat: Seq<char>)
    ensures
        contains_seq(s, pat) <==> first_occurrence(s, pat) is Some,
{
    if first_occurrence(s, pat) is None {
        lemma_find_from_absent(s, pat, 0);
        if contains_seq(s, pat) {
            let j = choose|j: int| occurs_at(s, pat, j);
            assert(0 <= j);
        }
    } else {
        lemma_find_from_some(s, pat, 0);
    }
}

proof fn lemma_find_from_some(s: Seq<char>, pat: Seq<char>, i: int)
    requires
        find_from(s, pat, i) is Some,
    ensures
        occurs_at(s, pat, find_from(s, pat, i).unwrap()),
    decreases s.len() + 1 - i,
{
    if 0 <= i <= s.len() && !occurs_at(s, pat, i) {
        lemma_find_from_some(s, pat, i + 1);
    }
}

/// Whether `pat` occurs anywhere in `s`.
pub fn contains_chars(s: &Vec<char>, pat: &Vec<char>) -> (res: bool)
    ensures
        res == contains_seq(s@, pat@),
{
    proof {
        lemma_contains_first(s@, pat@);
    }
    find_chars(s, pat).is_some()
}

/// Whether `s` begins with `pat`.
pub fn starts_with_chars(s: &Vec<char>, pat: &Vec<char>) -> (res: bool)
    ensures
        res == starts_with(s@, pat@),
{
    matches_at(s, pat, 0)
}

/// The characters of `s` from index `from` up to `to`.
pub fn slice_chars(s: &Vec<char>, from: usize, to: usize) -> (res: Vec<char>)
    requires
        from <= to <= s@.len(),
    ensures
        res@ == s@.subrange(from as int, to as int),
{
    let mut res: Vec<char> = Vec::new();
    let mut k: usize = from;
    while k < to
        invariant
            from <= k <= to <= s@.len(),
            res@ == s@.subrange(from as int, k as int),
        decreases to - k,
    {
        res.push(s[k]);
        k = k + 1;
        assert(res@ =~= s@.subrange(from as int, k as int));
    }
    res
}

// ---------------------------------------------------------------------------
// Decimal numbers
// ---------------------------------------------------------------------------

/// `char::is_ascii_digit`.
pub open spec fn is_digit(c: char) -> bool {
    '0' <= c && c <= '9'
}

/// The value of an ASCII digit.
pub open spec fn digit_value(c: char) -> int {
    (c as int) - ('0' as int)
}

/// The digit character of a value below ten.
pub open spec fn digit_char(d: int) -> char {
    (d + ('0' as int)) as char
}

/// Every character of `s` is an ASCII digit.
pub open spec fn all_digits(s: Seq<char>) -> bool {
    forall|i: int| 0 <= i < s.len() ==> is_digit(#[trigger] s[i])
}

/// The number that the digits of `s` spell in base ten.
pub open spec fn decimal_value(s: Seq<char>) -> int
    decreases s.len(),
{
    if s.len() == 0 {
        0
    } else {
        decimal_value(s.drop_last()) * 10 + digit_value(s.last())
    }
}

/// `u64::from_str`: an optional `+`, then one or more ASCII digits whose
/// value fits in 64 bits.
pub open spec fn parse_u64(s: Seq<char>) -> Option<u64> {
    let d = if s.len() > 0 && s[0] == '+' {
        s.drop_first()
    } else {
        s
    };
    if d.len() > 0 && all_digits(d) && decimal_value(d) <= u64::MAX {
        Some(decimal_value(d) as u64)
    } else {
        None
    }
}

/// The base-ten digits of `n`, most significant first, as `Display` writes
/// them.
pub open spec fn decimal(n: nat) -> Seq<char>
    decreases n,
{
    if n < 10 {
        seq![digit_char(n as int)]
    } else {
        decimal(n / 10).push(digit_char((n % 10) as int))
    }
}

/// `n` written with at least two digits (`{:02}`).
pub open spec fn decimal2(n: nat) -> Seq<char> {
    if n < 10 {
        seq!['0'] + decimal(n)
    } else {
        decimal(n)
    }
}

proof fn lemma_decimal_value_nonneg(s: Seq<char>)
    requires
        all_digits(s),
    ensures
        decimal_value(s) >= 0,
    decreases s.len(),
{
    if s.len() > 0 {
        lemma_decimal_value_nonneg(s.drop_last());
    }
}

proof fn lemma_decimal_value_grows(s: Seq<char>, k: int)
    requires
        all_digits(s),
        0 <= k <= s.len(),
    ensures
        decimal_value(s) >= decimal_value(s.take(k)),
    decreases s.len(),
{
    if k < s.len() {
        lemma_decimal_value_grows(s.drop_last(), k);
        lemma_decimal_value_nonneg(s.drop_last());
        assert(s.drop_last().take(k) =~= s.take(k));
    } else {
        assert(s.take(k) =~= s);
    }
}

/// Parses `s` as `u64::from_str` does.
pub fn parse_u64_chars(s: &Vec<char>) -> (res: Option<u64>)
    ensures
        res == parse_u64(s@),
{
    let start: usize = if s.len() > 0 && s[0] == '+' {
        1
    } else {
        0
    };
    let ghost d = if s@.len() > 0 && s@[0] == '+' {
        s@.drop_first()
    } else {
        s@
    };
    assert(d =~= s@.skip(start as int));
    if start == s.len() {
        return None;
    }
    let mut value: u64 = 0;
    let mut i: usize = start;
    while i < s.len()
        invariant
            start <= i <= s@.len(),
            s@.len() == s.len(),
            d == s@.skip(start as int),
            d == (if s@.len() > 0 && s@[0] == '+' {
                s@.drop_first()
            } else {
                s@
            }),
            all_digits(d.take(i - start)),
            value as int == decimal_value(d.take(i - start)),
        decreases s@.len() - i,
    {
        let c = s[i];
        if !('0' <= c && c <= '9') {
            proof {
                assert(d[i - start] == c);
            }
            return None;
        }
        let digit: u64 = (c as u32 - '0' as u32) as u64;
        proof {
            assert(d.take(i - start + 1).drop_last() =~= d.take(i - start));
            assert(d.take(i - start + 1).last() == c);
            assert(decimal_value(d.take(i - start + 1)) == decimal_value(d.take(i - start)) * 10
                + digit as int);
        }
        match value.checked_mul(10) {
            Some(tens) => match tens.checked_add(digit) {
                Some(next) => {
                    value = next;
                },
                None => {
                    proof {
                        if all_digits(d) {
                            lemma_decimal_value_grows(d, i - start + 1);
                        }
                    }
                    return None;
                },
            },
            None => {
                proof {
                    lemma_decimal_value_nonneg(d.take(i - start));
                    if all_digits(d) {
                        lemma_decimal_value_grows(d, i - start + 1);
                    }
                }
                return None;
            },
        }
        i = i + 1;
        proof {
            assert forall|j: int| 0 <= j < d.take(i - start).len() implies is_digit(
                #[trigger] d.take(i - start)[j],
            ) by {
                if j < i - start - 1 {
                    assert(d.take(i - start)[j] == d.take(i - start - 1)[j]);
                }
            }
        }
    }
    assert(d.take(i - start) =~= d);
    Some(value)
}

/// The digit character of a value below ten.
pub fn digit(d: u64) -> (res: char)
    requires
        d < 10,
    ensures
        res == digit_char(d as int),
{
    let b: u8 = (d as u8) + 48;
    b as char
}

/// The base-ten digits of `n`.
pub fn decimal_chars(n: u64) -> (res: Vec<char>)
    ensures
        res@ == decimal(n as nat),
    decreases n,
{
    if n < 10 {
        let mut v: Vec<char> = Vec::new();
        v.push(digit(n));
        assert(v@ =~= decimal(n as nat));
        v
    } else {
        let mut v = decimal_chars(n / 10);
        v.push(digit(n % 10));
        v
    }
}

/// `n` with at least two digits.
pub fn decimal2_chars(n: u64) -> (res: Vec<char>)
    ensures
        res@ == decimal2(n as nat),
{
    if n < 10 {
        let mut v: Vec<char> = Vec::new();
        v.push('0');
        v.push(digit(n));
        assert(v@ =~= decimal2(n as nat));
        v
    } else {
        decimal_chars(n)
    }
}

/// Appends the characters of a `&str` to a character vector.
pub fn append_str(v: &mut Vec<char>, s: &str)
    ensures
        final(v)@ == old(v)@ + s@,
{
    let tail = chars_of(s);
    append_chars(v, &tail);
}

/// Appends `tail` to `v`.
pub fn append_chars(v: &mut Vec<char>, tail: &Vec<char>)
    ensures
        final(v)@ == old(v)@ + tail@,
{
    let mut i: usize = 0;
    while i < tail.len()
        invariant
            i <= tail@.len(),
            v@ == old(v)@ + tail@.take(i as int),
        decreases tail@.len() - i,
    {
        v.push(tail[i]);
        i = i + 1;
        assert(tail@.take(i as int) =~= tail@.take(i - 1).push(tail@[i - 1]));
        assert(v@ =~= old(v)@ + tail@.take(i as int));
    }
    assert(tail@.take(tail@.len() as int) =~= tail@);
}

/// What follows the first occurrence of `pat` (`split_once(pat).1`).
pub open spec fn after_first(s: Seq<char>, pat: Seq<char>) -> Option<Seq<char>> {
    match crate::text::first_occurrence(s, pat) {
        Some(i) => Some(s.skip(i + pat.len())),
        None => None,
    }
}

/// What precedes the first occurrence of `pat` (`split_once(pat).0`).
pub open spec fn before_first(s: Seq<char>, pat: Seq<char>) -> Option<Seq<char>> {
    match crate::text::first_occurrence(s, pat) {
        Some(i) => Some(s.take(i)),
        None => None,
    }
}

/// The characters after the first occurrence of `pat` in `s`.
pub fn chars_after(s: &Vec<char>, pat: &Vec<char>) -> (res: Option<Vec<char>>)
    ensures
        match res {
            Some(v) => after_first(s@, pat@) == Some(v@),
            None => after_first(s@, pat@) is None,
        },
{
    match find_chars(s, pat) {
        Some(i) => {
            let n = s.len();
            assert(i + pat@.len() <= n);
            let start: usize = i + pat.len();
            let v = slice_chars(s, start, n);
            assert(v@ =~= s@.skip(i + pat@.len()));
            assert(after_first(s@, pat@) == Some(s@.skip(i + pat@.len())));
            Some(v)
        },
        None => None,
    }
}

} // verus!
