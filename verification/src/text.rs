//! Operations on text, stated over sequences of characters.

use vstd::prelude::*;
use vstd::string::{StrSliceExecFns, StringExecFns};
use vstd::utf8::{encode_utf8, encode_utf8_decode_utf8};

verus! {

/// The pieces of `text` between occurrences of `separator`: one more than
/// there are separators, so never none.
pub open spec fn split(text: Seq<char>, separator: char) -> Seq<Seq<char>>
    decreases text.len(),
{
    if text.len() == 0 {
        seq![Seq::empty()]
    } else {
        let before = split(text.drop_last(), separator);
        if text.last() == separator {
            before.push(Seq::empty())
        } else {
            before.drop_last().push(before.last().push(text.last()))
        }
    }
}

/// `text` without the characters `c` at its end.
pub open spec fn trimmed_end(text: Seq<char>, c: char) -> Seq<char>
    decreases text.len(),
{
    if text.len() > 0 && text.last() == c {
        trimmed_end(text.drop_last(), c)
    } else {
        text
    }
}

/// Whether `pattern` stands in `text` at position `at`.
pub open spec fn occurs_at(text: Seq<char>, pattern: Seq<char>, at: int) -> bool {
    0 <= at && at + pattern.len() <= text.len() && text.subrange(at, at + pattern.len()) == pattern
}

/// Whether `pattern` stands anywhere in `text`.
pub open spec fn occurs(text: Seq<char>, pattern: Seq<char>) -> bool {
    exists|at: int| occurs_at(text, pattern, at)
}

/// `text` with every occurrence of `pattern`, found from left to right without
/// overlap, replaced by `value`.
pub open spec fn replaced(text: Seq<char>, pattern: Seq<char>, value: Seq<char>) -> Seq<char>
    decreases text.len(),
{
    if text.len() == 0 || pattern.len() == 0 {
        text
    } else if occurs_at(text, pattern, 0) {
        value + replaced(text.skip(pattern.len() as int), pattern, value)
    } else {
        seq![text[0]] + replaced(text.skip(1), pattern, value)
    }
}

/// The characters with the Unicode property `White_Space`.
pub open spec fn is_white_space(c: char) -> bool {
    ||| '\u{9}' <= c <= '\u{D}'
    ||| c == ' '
    ||| c == '\u{85}'
    ||| c == '\u{A0}'
    ||| c == '\u{1680}'
    ||| '\u{2000}' <= c <= '\u{200A}'
    ||| c == '\u{2028}'
    ||| c == '\u{2029}'
    ||| c == '\u{202F}'
    ||| c == '\u{205F}'
    ||| c == '\u{3000}'
}

/// `text` without the white space at its end.
pub open spec fn trimmed_right(text: Seq<char>) -> Seq<char>
    decreases text.len(),
{
    if text.len() > 0 && is_white_space(text.last()) {
        trimmed_right(text.drop_last())
    } else {
        text
    }
}

/// `text` without the white space at its start.
pub open spec fn trimmed_left(text: Seq<char>) -> Seq<char>
    decreases text.len(),
{
    if text.len() > 0 && is_white_space(text[0]) {
        trimmed_left(text.skip(1))
    } else {
        text
    }
}

/// `text` without the white space at both ends.
pub open spec fn trimmed(text: Seq<char>) -> Seq<char> {
    trimmed_right(trimmed_left(text))
}

/// The lower-case form of an ASCII letter; any other character itself.
pub open spec fn ascii_lower(c: char) -> char {
    if 'A' <= c && c <= 'Z' {
        (c as u8 + 32) as char
    } else {
        c
    }
}

/// `text` with its ASCII letters in lower case.
pub open spec fn ascii_lower_text(text: Seq<char>) -> Seq<char> {
    text.map_values(|c: char| ascii_lower(c))
}

/// Texts with the same encoding are the same text.
pub proof fn lemma_encoding_injective(a: Seq<char>, b: Seq<char>)
    requires
        encode_utf8(a) == encode_utf8(b),
    ensures
        a == b,
{
    encode_utf8_decode_utf8(a);
    encode_utf8_decode_utf8(b);
}

/// Whether `c` does not stand in `text`.
pub open spec fn lacks(text: Seq<char>, c: char) -> bool {
    forall|i: int| 0 <= i < text.len() ==> text[i] != c
}

/// `pieces` in order, with `separator` between them.
pub open spec fn joined_by(pieces: Seq<Seq<char>>, separator: char) -> Seq<char>
    decreases pieces.len(),
{
    if pieces.len() == 0 {
        Seq::empty()
    } else if pieces.len() == 1 {
        pieces[0]
    } else {
        joined_by(pieces.drop_last(), separator).push(separator) + pieces.last()
    }
}

/// Splitting a text leaves at least one piece, and no separator in any.
pub proof fn lemma_split_pieces(text: Seq<char>, separator: char)
    ensures
        split(text, separator).len() >= 1,
        forall|i: int|
            0 <= i < split(text, separator).len() ==> lacks(#[trigger] split(text, separator)[i], separator),
    decreases text.len(),
{
    if text.len() > 0 {
        lemma_split_pieces(text.drop_last(), separator);
        let before = split(text.drop_last(), separator);
        assert(lacks(before[before.len() - 1], separator));
    }
}

/// Joining the pieces of a text gives the text back.
pub proof fn lemma_split_joins(text: Seq<char>, separator: char)
    ensures
        joined_by(split(text, separator), separator) == text,
    decreases text.len(),
{
    let pieces = split(text, separator);
    if text.len() > 0 {
        lemma_split_joins(text.drop_last(), separator);
        lemma_split_pieces(text.drop_last(), separator);
        let before = split(text.drop_last(), separator);
        assert(joined_by(before, separator) == text.drop_last());
        assert(text =~= text.drop_last().push(text.last()));
        if text.last() == separator {
            assert(pieces.drop_last() =~= before);
            assert(joined_by(pieces, separator) =~= text);
        } else if before.len() > 1 {
            let head = joined_by(before.drop_last(), separator).push(separator);
            assert(pieces.drop_last() =~= before.drop_last());
            assert(pieces.last() == before.last().push(text.last()));
            assert(head + before.last().push(text.last()) =~= (head + before.last()).push(
                text.last(),
            ));
        } else {
            assert(pieces =~= seq![before[0].push(text.last())]);
        }
    } else {
        assert(joined_by(pieces, separator) =~= text);
    }
}

/// A text without the separator is its only piece.
pub proof fn lemma_split_whole(text: Seq<char>, separator: char)
    requires
        lacks(text, separator),
    ensures
        split(text, separator) == seq![text],
    decreases text.len(),
{
    if text.len() > 0 {
        lemma_split_whole(text.drop_last(), separator);
        assert(text.drop_last().push(text.last()) =~= text);
        assert(split(text, separator) =~= seq![text]);
    } else {
        assert(text =~= Seq::<char>::empty());
    }
}

/// The first piece of a text is what stands before the first separator.
pub proof fn lemma_split_first(first: Seq<char>, rest: Seq<char>, separator: char)
    requires
        lacks(first, separator),
    ensures
        split(first.push(separator) + rest, separator) == seq![first] + split(rest, separator),
    decreases rest.len(),
{
    let text = first.push(separator) + rest;
    if rest.len() == 0 {
        lemma_split_whole(first, separator);
        assert(text =~= first.push(separator));
        assert(text.drop_last() =~= first);
        assert(split(text, separator) =~= seq![first] + split(rest, separator));
    } else {
        lemma_split_first(first, rest.drop_last(), separator);
        lemma_split_pieces(rest.drop_last(), separator);
        assert(text.drop_last() =~= first.push(separator) + rest.drop_last());
        let before = split(rest.drop_last(), separator);
        let longer = seq![first] + before;
        assert(longer.last() == before.last());
        assert(longer.drop_last() =~= seq![first] + before.drop_last());
        assert(split(text, separator) =~= seq![first] + split(rest, separator));
    }
}

/// What is left of a text after trimming does not end in the trimmed
/// character, and trimming it again changes nothing.
pub proof fn lemma_trimmed_end(text: Seq<char>, c: char)
    ensures
        trimmed_end(text, c).len() > 0 ==> trimmed_end(text, c).last() != c,
        trimmed_end(trimmed_end(text, c), c) == trimmed_end(text, c),
        trimmed_end(text, c).len() <= text.len(),
        forall|i: int|
            0 <= i < trimmed_end(text, c).len() ==> #[trigger] trimmed_end(text, c)[i] == text[i],
    decreases text.len(),
{
    if text.len() > 0 && text.last() == c {
        lemma_trimmed_end(text.drop_last(), c);
        assert forall|i: int| 0 <= i < trimmed_end(text, c).len() implies #[trigger] trimmed_end(
            text,
            c,
        )[i] == text[i] by {
            assert(trimmed_end(text, c)[i] == text.drop_last()[i]);
        }
    }
}

/// Trimming removes any number of the trimmed character.
pub proof fn lemma_trimmed_padding(text: Seq<char>, c: char, count: nat)
    ensures
        trimmed_end(text + Seq::new(count, |i: int| c), c) == trimmed_end(text, c),
    decreases count,
{
    let padded = text + Seq::new(count, |i: int| c);
    if count > 0 {
        let shorter = text + Seq::new((count - 1) as nat, |i: int| c);
        assert(padded.drop_last() =~= shorter);
        lemma_trimmed_padding(text, c, (count - 1) as nat);
    } else {
        assert(padded =~= text);
    }
}

/// The lower-case form of an ASCII letter; any other character itself.
pub(crate) fn lower(c: char) -> (result: char)
    ensures
        result == ascii_lower(c),
{
    if 'A' <= c && c <= 'Z' {
        (c as u8 + 32) as char
    } else {
        c
    }
}

/// The characters of `text`.
pub(crate) fn chars_of(text: &str) -> (chars: Vec<char>)
    ensures
        chars@ == text@,
{
    let mut chars: Vec<char> = Vec::new();
    for c in it: text.chars()
        invariant
            it.seq() == text@,
            chars@ == text@.take(it.index() as int),
    {
        chars.push(c);
    }
    assert(text@.take(text@.len() as int) =~= text@);
    chars
}

/// Whether two texts are equal.
pub(crate) fn same_text(a: &str, b: &str) -> (same: bool)
    ensures
        same == (a@ == b@),
{
    let x = a.as_bytes();
    let y = b.as_bytes();
    if x.len() != y.len() {
        return false;
    }
    let mut i: usize = 0;
    while i < x.len()
        invariant
            i <= x@.len(),
            x@.len() == y@.len(),
            x@ == encode_utf8(a@),
            y@ == encode_utf8(b@),
            forall|j: int| 0 <= j < i ==> x@[j] == y@[j],
        decreases x@.len() - i,
    {
        if x[i] != y[i] {
            return false;
        }
        i = i + 1;
    }
    assert(x@ =~= y@);
    proof {
        lemma_encoding_injective(a@, b@);
    }
    true
}

/// The pieces of `text` between occurrences of `separator`.
pub(crate) fn split_text<'a>(text: &'a str, separator: char) -> (pieces: Vec<&'a str>)
    ensures
        pieces@.map_values(|piece: &str| piece@) == split(text@, separator),
{
    let chars = chars_of(text);
    let mut pieces: Vec<&'a str> = Vec::new();
    let mut start: usize = 0;
    let mut i: usize = 0;
    let ghost shown = |piece: &str| piece@;
    assert(text@.subrange(0, 0) =~= Seq::<char>::empty());
    assert(pieces@.map_values(shown).push(text@.subrange(0, 0)) =~= seq![Seq::<char>::empty()]);
    while i < chars.len()
        invariant
            start <= i <= chars@.len(),
            chars@ == text@,
            shown == (|piece: &str| piece@),
            pieces@.map_values(shown).push(text@.subrange(start as int, i as int)) == split(
                text@.take(i as int),
                separator,
            ),
        decreases chars@.len() - i,
    {
        let ghost known = pieces@.map_values(shown);
        let ghost open_piece = text@.subrange(start as int, i as int);
        assert(text@.take(i + 1).drop_last() =~= text@.take(i as int));
        if chars[i] == separator {
            pieces.push(text.substring_char(start, i));
            start = i + 1;
            assert(pieces@.map_values(shown) =~= known.push(open_piece));
            assert(text@.subrange(start as int, i + 1) =~= Seq::<char>::empty());
        } else {
            assert(known.push(open_piece).drop_last() =~= known);
            assert(text@.subrange(start as int, i + 1) =~= open_piece.push(text@[i as int]));
        }
        i = i + 1;
    }
    let ghost known = pieces@.map_values(shown);
    pieces.push(text.substring_char(start, chars.len()));
    assert(text@.take(i as int) =~= text@);
    assert(pieces@.map_values(shown) =~= known.push(text@.subrange(start as int, i as int)));
    pieces
}

/// `text` without the characters `c` at its end.
pub(crate) fn trim_end_char<'a>(text: &'a str, c: char) -> (trimmed: &'a str)
    ensures
        trimmed@ == trimmed_end(text@, c),
{
    let chars = chars_of(text);
    let mut end: usize = chars.len();
    assert(text@.take(end as int) =~= text@);
    while end > 0 && chars[end - 1] == c
        invariant
            end <= chars@.len(),
            chars@ == text@,
            trimmed_end(text@.take(end as int), c) == trimmed_end(text@, c),
        decreases end,
    {
        assert(text@.take(end as int).drop_last() =~= text@.take(end - 1));
        end = end - 1;
    }
    text.substring_char(0, end)
}

/// Whether a character is white space.
fn white_space(c: char) -> (found: bool)
    ensures
        found == is_white_space(c),
{
    ('\u{9}' <= c && c <= '\u{D}') || c == ' ' || c == '\u{85}' || c == '\u{A0}' || c == '\u{1680}'
        || ('\u{2000}' <= c && c <= '\u{200A}') || c == '\u{2028}' || c == '\u{2029}' || c
        == '\u{202F}' || c == '\u{205F}' || c == '\u{3000}'
}

/// `text` without the white space at both ends.
pub(crate) fn trim_text<'a>(text: &'a str) -> (inner: &'a str)
    ensures
        inner@ == trimmed(text@),
{
    let chars = chars_of(text);
    let mut start: usize = 0;
    assert(text@.skip(0) =~= text@);
    while start < chars.len() && white_space(chars[start])
        invariant
            start <= chars@.len(),
            chars@ == text@,
            trimmed_left(text@.skip(start as int)) == trimmed_left(text@),
        decreases chars@.len() - start,
    {
        assert(text@.skip(start as int).skip(1) =~= text@.skip(start + 1));
        start = start + 1;
    }
    let ghost kept = text@.skip(start as int);
    assert(trimmed_left(kept) == kept);
    let mut end: usize = chars.len();
    assert(text@.subrange(start as int, end as int) =~= kept);
    while end > start && white_space(chars[end - 1])
        invariant
            start <= end <= chars@.len(),
            chars@ == text@,
            trimmed_right(text@.subrange(start as int, end as int)) == trimmed_right(kept),
        decreases end,
    {
        assert(text@.subrange(start as int, end as int).drop_last() =~= text@.subrange(
            start as int,
            end - 1,
        ));
        end = end - 1;
    }
    text.substring_char(start, end)
}

/// Whether `pattern` stands in `chars` at position `at`.
fn stands_at(chars: &Vec<char>, pattern: &Vec<char>, at: usize) -> (found: bool)
    requires
        at <= chars@.len(),
    ensures
        found == occurs_at(chars@, pattern@, at as int),
{
    if chars.len() - at < pattern.len() {
        return false;
    }
    let mut i: usize = 0;
    while i < pattern.len()
        invariant
            i <= pattern@.len(),
            at + pattern.len() <= chars.len(),
            forall|j: int| 0 <= j < i ==> chars@[at + j] == pattern@[j],
        decreases pattern@.len() - i,
    {
        if chars[at + i] != pattern[i] {
            assert(chars@.subrange(at as int, at + pattern@.len())[i as int] == chars@[at + i]);
            return false;
        }
        i = i + 1;
    }
    assert(chars@.subrange(at as int, at + pattern@.len()) =~= pattern@);
    true
}

/// Whether `text` starts with `prefix`.
pub(crate) fn starts_with_text(text: &str, prefix: &str) -> (found: bool)
    ensures
        found == occurs_at(text@, prefix@, 0),
{
    stands_at(&chars_of(text), &chars_of(prefix), 0)
}

/// Whether `pattern` stands anywhere in `text`.
pub(crate) fn contains_text(text: &str, pattern: &str) -> (found: bool)
    ensures
        found == occurs(text@, pattern@),
{
    let chars = chars_of(text);
    let wanted = chars_of(pattern);
    let mut at: usize = 0;
    while at < chars.len()
        invariant
            at <= chars@.len(),
            chars@ == text@,
            wanted@ == pattern@,
            forall|k: int| 0 <= k < at ==> !occurs_at(text@, pattern@, k),
        decreases chars@.len() - at,
    {
        if stands_at(&chars, &wanted, at) {
            return true;
        }
        at = at + 1;
    }
    stands_at(&chars, &wanted, at)
}

/// `text` with every occurrence of `pattern` replaced by `value`.
pub(crate) fn replace_text(text: &str, pattern: &str, value: &str) -> (result: String)
    requires
        pattern@.len() > 0,
    ensures
        result@ == replaced(text@, pattern@, value@),
{
    let chars = chars_of(text);
    let wanted = chars_of(pattern);
    let mut result = String::new();
    let mut start: usize = 0;
    let mut i: usize = 0;
    assert(text@.skip(0) =~= text@);
    while i < chars.len()
        invariant
            start <= i <= chars@.len(),
            chars@ == text@,
            wanted@ == pattern@,
            pattern@.len() > 0,
            result@ + text@.subrange(start as int, i as int) + replaced(
                text@.skip(i as int),
                pattern@,
                value@,
            ) == replaced(text@, pattern@, value@),
        decreases chars@.len() - i,
    {
        let ghost rest = text@.skip(i as int);
        let ghost kept = text@.subrange(start as int, i as int);
        let ghost done = result@;
        let found = stands_at(&chars, &wanted, i);
        assert(found == occurs_at(rest, pattern@, 0)) by {
            if i + pattern@.len() <= text@.len() {
                assert(rest.subrange(0, pattern@.len() as int) =~= text@.subrange(
                    i as int,
                    i + pattern@.len(),
                ));
            }
        }
        if found {
            result.append(text.substring_char(start, i));
            result.append(value);
            assert(rest.skip(pattern@.len() as int) =~= text@.skip(i + pattern@.len()));
            i = i + wanted.len();
            start = i;
            assert(text@.subrange(start as int, i as int) =~= Seq::<char>::empty());
            assert(done + kept + (value@ + replaced(text@.skip(i as int), pattern@, value@))
                =~= result@ + text@.subrange(start as int, i as int) + replaced(
                text@.skip(i as int),
                pattern@,
                value@,
            ));
        } else {
            assert(rest.skip(1) =~= text@.skip(i + 1));
            i = i + 1;
            assert(done + kept + (seq![rest[0]] + replaced(text@.skip(i as int), pattern@, value@))
                =~= result@ + text@.subrange(start as int, i as int) + replaced(
                text@.skip(i as int),
                pattern@,
                value@,
            ));
        }
    }
    let ghost done = result@;
    result.append(text.substring_char(start, chars.len()));
    assert(text@.skip(i as int) =~= Seq::<char>::empty());
    assert(done + text@.subrange(start as int, i as int) + Seq::<char>::empty() =~= result@);
    result
}

} // verus!
