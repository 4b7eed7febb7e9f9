//! Searching and trimming over sequences of characters.
//!
//! Positions are counted in characters.  The executable functions work on a
//! `Vec<char>` copy of the text, and every contract speaks of `Seq<char>`.

use vstd::prelude::*;

verus! {

/// `pattern` stands in `text` at position `at`.
pub open spec fn occurs_at(text: Seq<char>, pattern: Seq<char>, at: int) -> bool {
    &&& 0 <= at
    &&& at + pattern.len() <= text.len()
    &&& text.subrange(at, at + pattern.len()) == pattern
}

/// `pattern` stands somewhere in `text`.
pub open spec fn contains(text: Seq<char>, pattern: Seq<char>) -> bool {
    exists|at: int| occurs_at(text, pattern, at)
}

/// The least position at or after `from` where `pattern` stands in `text`.
pub open spec fn find(text: Seq<char>, pattern: Seq<char>, from: int) -> Option<int>
    decreases text.len() + 1 - from,
{
    if from < 0 || from + pattern.len() > text.len() {
        None
    } else if occurs_at(text, pattern, from) {
        Some(from)
    } else {
        find(text, pattern, from + 1)
    }
}

/// `find` returns the first occurrence at or after `from`, and `None` only
/// where there is none.
pub proof fn lemma_find_is_first(text: Seq<char>, pattern: Seq<char>, from: int)
    requires
        0 <= from,
    ensures
        match find(text, pattern, from) {
            Some(at) => {
                &&& from <= at
                &&& occurs_at(text, pattern, at)
                &&& forall|k: int| from <= k < at ==> !occurs_at(text, pattern, k)
            },
            None => forall|k: int| from <= k ==> !occurs_at(text, pattern, k),
        },
    decreases text.len() + 1 - from,
{
    if from + pattern.len() > text.len() {
    } else if occurs_at(text, pattern, from) {
    } else {
        lemma_find_is_first(text, pattern, from + 1);
    }
}

/// A text without `pattern` yields no position, wherever the search starts.
pub proof fn lemma_find_none_without(text: Seq<char>, pattern: Seq<char>, from: int)
    requires
        !contains(text, pattern),
    ensures
        find(text, pattern, from) is None,
    decreases text.len() + 1 - from,
{
    if from < 0 || from + pattern.len() > text.len() {
    } else {
        assert(!occurs_at(text, pattern, from));
        lemma_find_none_without(text, pattern, from + 1);
    }
}

/// The middle of three joined texts stands in the whole, right after the first.
pub proof fn lemma_contains_middle(before: Seq<char>, middle: Seq<char>, after: Seq<char>)
    ensures
        occurs_at(before + middle + after, middle, before.len() as int),
        contains(before + middle + after, middle),
{
    let whole = before + middle + after;
    assert(whole.subrange(before.len() as int, (before.len() + middle.len()) as int) =~= middle);
    assert(occurs_at(whole, middle, before.len() as int));
}

/// The characters of a string, in order.
pub fn to_chars(s: &str) -> (chars: Vec<char>)
    ensures
        chars@ == s@,
{
    let mut chars: Vec<char> = Vec::new();
    for c in it: s.chars()
        invariant
            chars@ == it.seq().subrange(0, it.index() as int),
            it.seq() == s@,
    {
        chars.push(c);
    }
    chars
}

/// Whether `pattern` stands in `text` at `at`.
pub fn occurs_at_exec(text: &Vec<char>, pattern: &Vec<char>, at: usize) -> (found: bool)
    ensures
        found == occurs_at(text@, pattern@, at as int),
{
    if pattern.len() > text.len() || at > text.len() - pattern.len() {
        return false;
    }
    let mut i: usize = 0;
    while i < pattern.len()
        invariant
            at + pattern.len() <= text.len(),
            i <= pattern.len(),
            forall|k: int| 0 <= k < i ==> text@[at + k] == pattern@[k],
        decreases pattern.len() - i,
    {
        if text[at + i] != pattern[i] {
            assert(text@.subrange(at as int, at + pattern.len())[i as int] != pattern@[i as int]);
            return false;
        }
        i += 1;
    }
    assert(text@.subrange(at as int, at + pattern.len()) =~= pattern@);
    true
}

/// The first position at or after `from` where `pattern` stands in `text`.
pub fn find_exec(text: &Vec<char>, pattern: &Vec<char>, from: usize) -> (found: Option<usize>)
    ensures
        match found {
            Some(at) => {
                &&& find(text@, pattern@, from as int) == Some(at as int)
                &&& from <= at
                &&& at + pattern.len() <= text.len()
            },
            None => find(text@, pattern@, from as int) is None,
        },
{
    if pattern.len() > text.len() || from > text.len() - pattern.len() {
        return None;
    }
    let last: usize = text.len() - pattern.len();
    let mut at: usize = from;
    while at <= last
        invariant
            last == text.len() - pattern.len(),
            from <= at <= last + 1,
            find(text@, pattern@, from as int) == find(text@, pattern@, at as int),
        decreases last + 1 - at,
    {
        if occurs_at_exec(text, pattern, at) {
            return Some(at);
        }
        if at == last {
            assert(find(text@, pattern@, at + 1) is None);
            return None;
        }
        at += 1;
    }
    None
}

/// White space as Unicode defines it: the characters marked `White_Space`.
pub open spec fn is_whitespace(c: char) -> bool {
    ||| '\u{9}' <= c <= '\u{D}'
    ||| c == ' '
    ||| c == '\u{85}'
    ||| c == '\u{A0}'
    ||| c == '\u{1680}'
    ||| '\u{2000}' <= c <= '\u{200A}'
    ||| c == '\u{2028}'
    ||| c == '\u{2029}'
    ||| c == '\u{202F}'
    ||| c == '\u{205F}'
    ||| c == '\u{3000}'
}

/// `text` without the white space at its start.
pub open spec fn trim_start(text: Seq<char>) -> Seq<char>
    decreases text.len(),
{
    if text.len() > 0 && is_whitespace(text[0]) {
        trim_start(text.drop_first())
    } else {
        text
    }
}

/// `text` without the white space at its end.
pub open spec fn trim_end(text: Seq<char>) -> Seq<char>
    decreases text.len(),
{
    if text.len() > 0 && is_whitespace(text.last()) {
        trim_end(text.drop_last())
    } else {
        text
    }
}

/// `text` without the white space at either end.
pub open spec fn trim(text: Seq<char>) -> Seq<char> {
    trim_end(trim_start(text))
}

/// Whether `c` is white space.
pub fn is_whitespace_exec(c: char) -> (space: bool)
    ensures
        space == is_whitespace(c),
{
    ('\u{9}' <= c && c <= '\u{D}') || c == ' ' || c == '\u{85}' || c == '\u{A0}' || c
        == '\u{1680}' || ('\u{2000}' <= c && c <= '\u{200A}') || c == '\u{2028}' || c
        == '\u{2029}' || c == '\u{202F}' || c == '\u{205F}' || c == '\u{3000}'
}

/// The bounds of `text[from..to]` once the white space at both its ends is
/// left out.
pub fn trim_exec(text: &Vec<char>, from: usize, to: usize) -> (bounds: (usize, usize))
    requires
        from <= to <= text.len(),
    ensures
        from <= bounds.0 <= bounds.1 <= to,
        text@.subrange(bounds.0 as int, bounds.1 as int) == trim(
            text@.subrange(from as int, to as int),
        ),
{
    let mut start: usize = from;
    while start < to && is_whitespace_exec(text[start])
        invariant
            from <= start <= to <= text.len(),
            trim_start(text@.subrange(from as int, to as int)) == trim_start(
                text@.subrange(start as int, to as int),
            ),
        decreases to - start,
    {
        assert(text@.subrange(start as int, to as int).drop_first() =~= text@.subrange(
            start + 1,
            to as int,
        ));
        start += 1;
    }
    let mut end: usize = to;
    while start < end && is_whitespace_exec(text[end - 1])
        invariant
            start <= end <= to <= text.len(),
            trim_end(text@.subrange(start as int, to as int)) == trim_end(
                text@.subrange(start as int, end as int),
            ),
        decreases end - start,
    {
        assert(text@.subrange(start as int, end as int).drop_last() =~= text@.subrange(
            start as int,
            end - 1,
        ));
        end -= 1;
    }
    (start, end)
}

/// Whether two strings hold the same characters.
pub fn same_text(left: &str, right: &str) -> (same: bool)
    ensures
        same == (left@ == right@),
{
    left.to_owned() == right.to_owned()
}

/// The parts in order, with the separator between each two.
pub open spec fn joined(parts: Seq<Seq<char>>, separator: Seq<char>) -> Seq<char>
    decreases parts.len(),
{
    if parts.len() == 0 {
        Seq::empty()
    } else if parts.len() == 1 {
        parts[0]
    } else {
        joined(parts.drop_last(), separator) + separator + parts.last()
    }
}

/// Joins the parts with the separator between each two.
pub fn join(parts: &Vec<String>, separator: &str) -> (text: String)
    ensures
        text@ == joined(parts.deep_view(), separator@),
{
    let mut text = String::new();
    let ghost all = parts.deep_view();
    let mut i: usize = 0;
    assert(all.subrange(0, 0) =~= Seq::empty());
    while i < parts.len()
        invariant
            i <= parts.len(),
            all == parts.deep_view(),
            text@ == joined(all.subrange(0, i as int), separator@),
        decreases parts.len() - i,
    {
        assert(all.subrange(0, i + 1).drop_last() =~= all.subrange(0, i as int));
        assert(all.subrange(0, i + 1).last() == parts@[i as int]@);
        if i > 0 {
            text.append(separator);
        } else {
            assert(text@ + parts@[i as int]@ =~= parts@[i as int]@);
        }
        text.append(parts[i].as_str());
        i += 1;
    }
    assert(all.subrange(0, all.len() as int) =~= all);
    text
}

/// `text` without `prefix` at its start; nothing where it does not start
/// with it.
pub open spec fn strip_prefix(text: Seq<char>, prefix: Seq<char>) -> Option<Seq<char>> {
    if occurs_at(text, prefix, 0) {
        Some(text.subrange(prefix.len() as int, text.len() as int))
    } else {
        None
    }
}

/// `text` without `suffix` at its end; nothing where it does not end with
/// it.
pub open spec fn strip_suffix(text: Seq<char>, suffix: Seq<char>) -> Option<Seq<char>> {
    if occurs_at(text, suffix, text.len() - suffix.len()) {
        Some(text.subrange(0, text.len() - suffix.len()))
    } else {
        None
    }
}

/// The pieces of `text` between the separators: one more than there are
/// separators, and empty where two separators meet or one stands at an end.
pub open spec fn split(text: Seq<char>, separator: char) -> Seq<Seq<char>>
    decreases text.len(),
{
    if text.len() == 0 {
        seq![Seq::empty()]
    } else {
        let before = split(text.drop_last(), separator);
        if text.last() == separator {
            before.push(Seq::empty())
        } else {
            before.drop_last().push(before.last().push(text.last()))
        }
    }
}

/// The bounds of the pieces of `text[from..to]` between the separators.
pub fn split_exec(text: &Vec<char>, from: usize, to: usize, separator: char) -> (bounds: Vec<
    (usize, usize),
>)
    requires
        from <= to <= text.len(),
    ensures
        bounds.len() == split(text@.subrange(from as int, to as int), separator).len(),
        forall|k: int|
            0 <= k < bounds.len() ==> {
                &&& from <= (#[trigger] bounds[k]).0 <= bounds[k].1 <= to
                &&& text@.subrange(bounds[k].0 as int, bounds[k].1 as int) == split(
                    text@.subrange(from as int, to as int),
                    separator,
                )[k]
            },
{
    let mut bounds: Vec<(usize, usize)> = Vec::new();
    let mut start: usize = from;
    let mut i: usize = from;
    assert(text@.subrange(from as int, from as int) =~= Seq::empty());
    while i < to
        invariant
            from <= start <= i <= to <= text.len(),
            split(text@.subrange(from as int, i as int), separator).len() == bounds.len() + 1,
            split(text@.subrange(from as int, i as int), separator).last() == text@.subrange(
                start as int,
                i as int,
            ),
            forall|k: int|
                0 <= k < bounds.len() ==> {
                    &&& from <= (#[trigger] bounds[k]).0 <= bounds[k].1 <= to
                    &&& text@.subrange(bounds[k].0 as int, bounds[k].1 as int) == split(
                        text@.subrange(from as int, i as int),
                        separator,
                    )[k]
                },
        decreases to - i,
    {
        let ghost before = split(text@.subrange(from as int, i as int), separator);
        assert(text@.subrange(from as int, i + 1).drop_last() =~= text@.subrange(
            from as int,
            i as int,
        ));
        assert(text@.subrange(from as int, i + 1).last() == text@[i as int]);
        if text[i] == separator {
            bounds.push((start, i));
            start = i + 1;
            assert(text@.subrange(start as int, i + 1) =~= Seq::empty());
        } else {
            assert(text@.subrange(start as int, i as int).push(text@[i as int]) =~= text@.subrange(
                start as int,
                i + 1,
            ));
        }
        i += 1;
    }
    bounds.push((start, to));
    bounds
}

/// The first position at or after `from` whose character is white space
/// or not, as `space` says; the end of the text where there is none.
pub open spec fn skip_until(text: Seq<char>, from: int, space: bool) -> int
    decreases text.len() - from,
{
    if from < 0 || from >= text.len() || is_whitespace(text[from]) == space {
        from
    } else {
        skip_until(text, from + 1, space)
    }
}

/// The second of the words that white space parts `text` into.
pub open spec fn second_word(text: Seq<char>) -> Option<Seq<char>> {
    let first = skip_until(text, 0, false);
    let gap = skip_until(text, first, true);
    let start = skip_until(text, gap, false);
    let end = skip_until(text, start, true);
    if 0 <= start < text.len() {
        Some(text.subrange(start, end))
    } else {
        None
    }
}

/// The first position at or after `from` whose character is white space
/// or not, as `space` says.
pub fn skip_until_exec(text: &Vec<char>, from: usize, space: bool) -> (at: usize)
    requires
        from <= text.len(),
    ensures
        at == skip_until(text@, from as int, space),
        from <= at <= text.len(),
{
    let mut at: usize = from;
    while at < text.len() && is_whitespace_exec(text[at]) != space
        invariant
            from <= at <= text.len(),
            skip_until(text@, from as int, space) == skip_until(text@, at as int, space),
        decreases text.len() - at,
    {
        at += 1;
    }
    at
}

/// The bounds of the second of the words that white space parts `text`
/// into.
pub fn second_word_exec(text: &Vec<char>) -> (bounds: Option<(usize, usize)>)
    ensures
        match bounds {
            Some((start, end)) => start <= end <= text.len() && second_word(text@) == Some(
                text@.subrange(start as int, end as int),
            ),
            None => second_word(text@) is None,
        },
{
    let first = skip_until_exec(text, 0, false);
    let gap = skip_until_exec(text, first, true);
    let start = skip_until_exec(text, gap, false);
    let end = skip_until_exec(text, start, true);
    if start < text.len() {
        Some((start, end))
    } else {
        None
    }
}

/// A text cut after `limit` characters: a longer text keeps its first
/// `limit` characters, less the white space at their end, and three dots
/// follow.  A text that is no longer stays as it is.
pub open spec fn truncated(text: Seq<char>, limit: int) -> Seq<char> {
    if 0 <= limit < text.len() {
        trim_end(text.subrange(0, limit)) + "..."@
    } else {
        text
    }
}

/// Cuts a text after `limit` characters, with three dots where something
/// was cut off.
pub fn truncate_with_ellipsis(text: &str, limit: usize) -> (short: String)
    ensures
        short@ == truncated(text@, limit as int),
{
    let chars = to_chars(text);
    if limit >= chars.len() {
        return text.to_owned();
    }
    let mut end: usize = limit;
    while end > 0 && is_whitespace_exec(chars[end - 1])
        invariant
            end <= limit < chars.len(),
            trim_end(chars@.subrange(0, limit as int)) == trim_end(chars@.subrange(0, end as int)),
        decreases end,
    {
        assert(chars@.subrange(0, end as int).drop_last() =~= chars@.subrange(0, end - 1));
        end -= 1;
    }
    let mut short = text.substring_char(0, end).to_owned();
    short.append("...");
    short
}

} // verus!
