//! Work on text that the rules of a migration need: trimming, searching, joining.

use vstd::prelude::*;

verus! {

/// A character that Unicode marks as `White_Space`: the controls from tab to
/// carriage return, the space, the next-line control, the no-break spaces, the
/// Ogham space mark, the spaces of fixed width, the line and paragraph
/// separators, the mathematical space and the ideographic space.
pub open spec fn is_white_space(c: char) -> bool {
    let code = c as u32;
    ||| 0x09 <= code <= 0x0d
    ||| code == 0x20
    ||| code == 0x85
    ||| code == 0xa0
    ||| code == 0x1680
    ||| 0x2000 <= code <= 0x200a
    ||| code == 0x2028
    ||| code == 0x2029
    ||| code == 0x202f
    ||| code == 0x205f
    ||| code == 0x3000
}

/// `text` without the white space it starts with.
pub open spec fn without_leading(text: Seq<char>) -> Seq<char>
    decreases text.len(),
{
    if text.len() > 0 && is_white_space(text[0]) {
        without_leading(text.drop_first())
    } else {
        text
    }
}

/// `text` without the white space it ends with.
pub open spec fn without_trailing(text: Seq<char>) -> Seq<char>
    decreases text.len(),
{
    if text.len() > 0 && is_white_space(text.last()) {
        without_trailing(text.drop_last())
    } else {
        text
    }
}

/// What is left of a text once the white space at both ends is taken away.
pub open spec fn trimmed(text: Seq<char>) -> Seq<char> {
    without_trailing(without_leading(text))
}

/// A text of nothing but white space has nothing left once it is trimmed.
pub proof fn lemma_blank_text_is_trimmed_away(text: Seq<char>)
    requires
        forall|i: int| 0 <= i < text.len() ==> is_white_space(#[trigger] text[i]),
    ensures
        trimmed(text) == Seq::<char>::empty(),
    decreases text.len(),
{
    if text.len() > 0 {
        lemma_blank_text_is_trimmed_away(text.drop_first());
    }
}

/// What is left of `text` without its trailing white space ends on a character
/// that is none, and starts as `text` does.
proof fn lemma_without_trailing(text: Seq<char>)
    ensures
        without_trailing(text).len() <= text.len(),
        without_trailing(text).len() > 0 ==> !is_white_space(without_trailing(text).last())
            && without_trailing(text)[0] == text[0],
    decreases text.len(),
{
    if text.len() > 0 && is_white_space(text.last()) {
        lemma_without_trailing(text.drop_last());
    }
}

/// What is left of `text` without its leading white space starts with a
/// character that is none.
proof fn lemma_without_leading(text: Seq<char>)
    ensures
        without_leading(text).len() > 0 ==> !is_white_space(without_leading(text)[0]),
    decreases text.len(),
{
    if text.len() > 0 && is_white_space(text[0]) {
        lemma_without_leading(text.drop_first());
    }
}

/// A trimmed text that is not empty neither starts nor ends with white space.
pub proof fn lemma_trimmed_has_bare_ends(text: Seq<char>)
    ensures
        trimmed(text).len() > 0 ==> !is_white_space(trimmed(text)[0]) && !is_white_space(
            trimmed(text).last(),
        ),
{
    lemma_without_leading(text);
    lemma_without_trailing(without_leading(text));
}

/// Tells whether `c` is white space.
pub fn white_space(c: char) -> (white: bool)
    ensures
        white == is_white_space(c),
{
    let code: u32 = c as u32;
    (0x09 <= code && code <= 0x0d) || code == 0x20 || code == 0x85 || code == 0xa0 || code
        == 0x1680 || (0x2000 <= code && code <= 0x200a) || code == 0x2028 || code == 0x2029
        || code == 0x202f || code == 0x205f || code == 0x3000
}

/// Hands out the part of `text` between its leading and its trailing white
/// space.
pub fn trim(text: &str) -> (rest: &str)
    ensures
        rest@ == trimmed(text@),
{
    let chars = chars_of(text);
    let mut start: usize = 0;
    assert(text@.subrange(0, text@.len() as int) =~= text@);
    while start < chars.len() && white_space(chars[start])
        invariant
            chars@ == text@,
            start <= chars.len(),
            without_leading(text@) == without_leading(
                text@.subrange(start as int, text@.len() as int),
            ),
        decreases chars.len() - start,
    {
        assert(text@.subrange(start as int, text@.len() as int).drop_first() =~= text@.subrange(
            start + 1,
            text@.len() as int,
        ));
        start += 1;
    }
    let mut end: usize = chars.len();
    while end > start && white_space(chars[end - 1])
        invariant
            chars@ == text@,
            start <= end <= chars.len(),
            trimmed(text@) == without_trailing(text@.subrange(start as int, end as int)),
        decreases end - start,
    {
        assert(text@.subrange(start as int, end as int).drop_last() =~= text@.subrange(
            start as int,
            end - 1,
        ));
        end -= 1;
    }
    text.substring_char(start, end)
}

/// `text` with every character that has a lower case written in it, as Unicode
/// lays the lower cases down.
pub uninterp spec fn lowercased(text: Seq<char>) -> Seq<char>;

/// `str::to_lowercase` of std: writes `text` anew in lower case. The contract
/// only gives the new text its name.
#[verifier::external_body]
pub(crate) fn to_lowercase(text: &str) -> (lower: String)
    ensures
        lower@ == lowercased(text@),
{
    text.to_lowercase()
}

/// The characters of `text`, one by one.
pub fn chars_of(text: &str) -> (chars: Vec<char>)
    ensures
        chars@ == text@,
{
    let mut chars: Vec<char> = Vec::new();
    for c in it: text.chars()
        invariant
            it.seq() == text@,
            chars@ == text@.take(it.index() as int),
    {
        chars.push(c);
    }
    chars
}

/// `pattern` stands in `text` at the place `at`.
pub open spec fn occurs_at(text: Seq<char>, pattern: Seq<char>, at: int) -> bool {
    &&& 0 <= at
    &&& at + pattern.len() <= text.len()
    &&& text.subrange(at, at + pattern.len()) == pattern
}

/// The first place at or after `from` where `pattern` stands in `text`.
pub open spec fn first_occurrence_from(text: Seq<char>, pattern: Seq<char>, from: int) -> Option<int>
    decreases text.len() + 1 - from,
{
    if from < 0 || from + pattern.len() > text.len() {
        None
    } else if occurs_at(text, pattern, from) {
        Some(from)
    } else {
        first_occurrence_from(text, pattern, from + 1)
    }
}

/// The first place where `pattern` stands in `text`.
pub open spec fn first_occurrence(text: Seq<char>, pattern: Seq<char>) -> Option<int> {
    first_occurrence_from(text, pattern, 0)
}

/// The first occurrence at or after `from` is an occurrence, and none lies
/// between `from` and it; where there is none, `pattern` stands nowhere at or
/// after `from`.
pub proof fn lemma_first_occurrence_from(text: Seq<char>, pattern: Seq<char>, from: int)
    requires
        0 <= from,
    ensures
        match first_occurrence_from(text, pattern, from) {
            Some(at) => {
                &&& from <= at
                &&& occurs_at(text, pattern, at)
                &&& forall|other: int| from <= other < at ==> !occurs_at(text, pattern, other)
            },
            None => forall|other: int| from <= other ==> !occurs_at(text, pattern, other),
        },
    decreases text.len() + 1 - from,
{
    if from + pattern.len() <= text.len() && !occurs_at(text, pattern, from) {
        lemma_first_occurrence_from(text, pattern, from + 1);
    }
}

/// Tells whether `pattern` stands in `text` at the place `at`.
fn stands_at(text: &Vec<char>, pattern: &Vec<char>, at: usize) -> (hit: bool)
    requires
        at + pattern.len() <= text.len(),
    ensures
        hit == occurs_at(text@, pattern@, at as int),
{
    let mut k: usize = 0;
    while k < pattern.len()
        invariant
            k <= pattern.len(),
            at + pattern.len() <= text.len(),
            forall|j: int| 0 <= j < k ==> text@[at + j] == pattern@[j],
        decreases pattern.len() - k,
    {
        if text[at + k] != pattern[k] {
            return false;
        }
        k += 1;
    }
    assert(text@.subrange(at as int, at + pattern.len()) =~= pattern@);
    true
}

/// Looks for the first place at or after `from` where `pattern` stands in `text`.
pub fn find_from(text: &Vec<char>, pattern: &Vec<char>, from: usize) -> (found: Option<usize>)
    ensures
        found matches Some(at) ==> first_occurrence_from(text@, pattern@, from as int) == Some(
            at as int,
        ) && at + pattern@.len() <= text@.len(),
        found is None ==> first_occurrence_from(text@, pattern@, from as int) is None,
{
    if pattern.len() > text.len() {
        return None;
    }
    let last: usize = text.len() - pattern.len();
    let mut at: usize = from;
    while at <= last
        invariant
            last == text.len() - pattern.len(),
            first_occurrence_from(text@, pattern@, from as int) == first_occurrence_from(
                text@,
                pattern@,
                at as int,
            ),
        decreases last + 1 - at,
    {
        if stands_at(text, pattern, at) {
            return Some(at);
        }
        if at == last {
            return None;
        }
        at += 1;
    }
    None
}

/// Looks for the first place where `pattern` stands in `text`, counted in
/// characters.
pub fn find(text: &str, pattern: &str) -> (found: Option<usize>)
    ensures
        found matches Some(at) ==> first_occurrence(text@, pattern@) == Some(at as int) && at
            + pattern@.len() <= text@.len(),
        found is None ==> first_occurrence(text@, pattern@) is None,
{
    let text = chars_of(text);
    let pattern = chars_of(pattern);
    find_from(&text, &pattern, 0)
}

/// The texts of `parts` in a row, with `separator` between each two of them.
pub open spec fn joined(parts: Seq<Seq<char>>, separator: Seq<char>) -> Seq<char>
    decreases parts.len(),
{
    if parts.len() == 0 {
        Seq::empty()
    } else if parts.len() == 1 {
        parts[0]
    } else {
        joined(parts.drop_last(), separator) + separator + parts.last()
    }
}

/// Writes the texts of `parts` in a row, with `separator` between each two of
/// them.
pub fn join(parts: &Vec<String>, separator: &str) -> (text: String)
    ensures
        text@ == joined(parts.deep_view(), separator@),
{
    let mut text = String::new();
    let mut at: usize = 0;
    while at < parts.len()
        invariant
            at <= parts.len(),
            text@ == joined(parts.deep_view().take(at as int), separator@),
        decreases parts.len() - at,
    {
        assert(parts.deep_view().take(at + 1).drop_last() =~= parts.deep_view().take(at as int));
        if at > 0 {
            text.append(separator);
        }
        text.append(parts[at].as_str());
        at += 1;
    }
    assert(parts.deep_view().take(at as int) =~= parts.deep_view());
    text
}

/// `text` with every occurrence of `pattern` replaced by `with`. The occurrences
/// are taken from the left and do not overlap. An empty pattern occurs nowhere.
pub open spec fn replaced(text: Seq<char>, pattern: Seq<char>, with: Seq<char>) -> Seq<char>
    decreases text.len(),
{
    if pattern.len() == 0 || text.len() < pattern.len() {
        text
    } else if text.subrange(0, pattern.len() as int) == pattern {
        with + replaced(text.subrange(pattern.len() as int, text.len() as int), pattern, with)
    } else {
        seq![text[0]] + replaced(text.subrange(1, text.len() as int), pattern, with)
    }
}

/// A text in which `pattern` stands nowhere is left as it is.
pub proof fn lemma_replaced_without_occurrence(
    text: Seq<char>,
    pattern: Seq<char>,
    with: Seq<char>,
)
    requires
        forall|at: int| !occurs_at(text, pattern, at),
    ensures
        replaced(text, pattern, with) == text,
    decreases text.len(),
{
    if pattern.len() > 0 && text.len() >= pattern.len() {
        assert(!occurs_at(text, pattern, 0));
        let rest = text.subrange(1, text.len() as int);
        assert forall|at: int| !occurs_at(rest, pattern, at) by {
            if occurs_at(rest, pattern, at) {
                assert(rest.subrange(at, at + pattern.len()) =~= text.subrange(
                    at + 1,
                    at + 1 + pattern.len(),
                ));
                assert(occurs_at(text, pattern, at + 1));
            }
        }
        lemma_replaced_without_occurrence(rest, pattern, with);
    }
}

/// A text that starts with `pattern`, and in whose rest `pattern` stands nowhere,
/// has that one occurrence replaced.
pub proof fn lemma_replaced_at_the_start(pattern: Seq<char>, rest: Seq<char>, with: Seq<char>)
    requires
        pattern.len() > 0,
        forall|at: int| !occurs_at(rest, pattern, at),
    ensures
        replaced(pattern + rest, pattern, with) == with + rest,
{
    let text = pattern + rest;
    assert(text.subrange(0, pattern.len() as int) =~= pattern);
    assert(text.subrange(pattern.len() as int, text.len() as int) =~= rest);
    lemma_replaced_without_occurrence(rest, pattern, with);
}

/// Replaces every occurrence of `pattern` in `text` by `with`.
pub fn replace_all(text: &str, pattern: &str, with: &str) -> (out: String)
    ensures
        out@ == replaced(text@, pattern@, with@),
{
    let chars = chars_of(text);
    let wanted = chars_of(pattern);
    if wanted.len() == 0 || wanted.len() > chars.len() {
        return text.to_owned();
    }
    let last: usize = chars.len() - wanted.len();
    let mut out = String::new();
    let mut pending: usize = 0;
    let mut at: usize = 0;
    assert(text@.subrange(0, text@.len() as int) =~= text@);
    while at <= last
        invariant
            chars@ == text@,
            wanted@ == pattern@,
            0 < wanted.len() <= chars.len(),
            last == chars.len() - wanted.len(),
            pending <= at <= chars.len(),
            replaced(text@, pattern@, with@) == out@ + text@.subrange(pending as int, at as int)
                + replaced(text@.subrange(at as int, text@.len() as int), pattern@, with@),
        decreases chars.len() - at,
    {
        let ghost rest = text@.subrange(at as int, text@.len() as int);
        if stands_at(&chars, &wanted, at) {
            proof {
                assert(rest.subrange(0, pattern@.len() as int) =~= text@.subrange(
                    at as int,
                    at + pattern@.len(),
                ));
                assert(rest.subrange(pattern@.len() as int, rest.len() as int) =~= text@.subrange(
                    at + pattern@.len(),
                    text@.len() as int,
                ));
            }
            out.append(text.substring_char(pending, at));
            out.append(with);
            at += wanted.len();
            pending = at;
        } else {
            proof {
                assert(rest.subrange(0, pattern@.len() as int) =~= text@.subrange(
                    at as int,
                    at + pattern@.len(),
                ));
                assert(rest.subrange(1, rest.len() as int) =~= text@.subrange(
                    at + 1,
                    text@.len() as int,
                ));
            }
            at += 1;
        }
    }
    out.append(text.substring_char(pending, chars.len()));
    out
}

} // verus!
