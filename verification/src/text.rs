//! Text: what the library needs of strings, stated over the characters they
//! hold.

use vstd::prelude::*;
use vstd::string::*;

verus! {

/// The characters with Unicode's `White_Space` property.
pub open spec fn is_white_space(c: char) -> bool {
    ||| '\u{9}' <= c <= '\u{d}'
    ||| c == '\u{20}'
    ||| c == '\u{85}'
    ||| c == '\u{a0}'
    ||| c == '\u{1680}'
    ||| '\u{2000}' <= c <= '\u{200a}'
    ||| c == '\u{2028}'
    ||| c == '\u{2029}'
    ||| c == '\u{202f}'
    ||| c == '\u{205f}'
    ||| c == '\u{3000}'
}

/// `text` without the white space at its two ends.
pub open spec fn trimmed(text: Seq<char>) -> Seq<char>
    decreases text.len(),
{
    if text.len() == 0 {
        text
    } else if is_white_space(text.first()) {
        trimmed(text.drop_first())
    } else if is_white_space(text.last()) {
        trimmed(text.drop_last())
    } else {
        text
    }
}

/// `text` holds nothing but white space.
pub open spec fn is_blank(text: Seq<char>) -> bool {
    forall|i: int| 0 <= i < text.len() ==> is_white_space(#[trigger] text[i])
}

/// Nothing is left of a text by trimming if and only if the text is blank.
pub proof fn lemma_trimmed_blank(text: Seq<char>)
    ensures
        trimmed(text).len() == 0 <==> is_blank(text),
    decreases text.len(),
{
    if text.len() == 0 {
    } else if is_white_space(text.first()) {
        let rest = text.drop_first();
        lemma_trimmed_blank(rest);
        if is_blank(rest) {
            assert forall|i: int| 0 <= i < text.len() implies is_white_space(
                #[trigger] text[i],
            ) by {
                if i > 0 {
                    assert(is_white_space(rest[i - 1]));
                }
            }
        }
        if is_blank(text) {
            assert forall|i: int| 0 <= i < rest.len() implies is_white_space(
                #[trigger] rest[i],
            ) by {
                assert(is_white_space(text[i + 1]));
            }
        }
    } else {
        assert(!is_white_space(text[0]));
        if is_white_space(text.last()) {
            let rest = text.drop_last();
            lemma_trimmed_blank(rest);
            assert(rest[0] == text[0]);
        }
    }
}

/// Whether two strings hold the same characters.
pub(crate) fn same_text(left: &str, right: &str) -> (same: bool)
    ensures
        same == (left@ == right@),
{
    left.to_owned() == right.to_owned()
}

/// The characters of a string.
pub(crate) fn chars_of(text: &str) -> (chars: Vec<char>)
    ensures
        chars@ == text@,
{
    let mut chars: Vec<char> = Vec::new();
    for c in iter: text.chars()
        invariant
            iter.seq() == text@,
            chars@ == text@.take(iter.index()),
    {
        chars.push(c);
    }
    chars
}

/// Whether a character has Unicode's `White_Space` property.
fn is_space(c: char) -> (space: bool)
    ensures
        space == is_white_space(c),
{
    ('\u{9}' <= c && c <= '\u{d}') || c == '\u{20}' || c == '\u{85}' || c == '\u{a0}' || c
        == '\u{1680}' || ('\u{2000}' <= c && c <= '\u{200a}') || c == '\u{2028}' || c
        == '\u{2029}' || c == '\u{202f}' || c == '\u{205f}' || c == '\u{3000}'
}

/// `text` without the white space at its two ends.
pub(crate) fn trim(text: &str) -> (rest: &str)
    ensures
        rest@ == trimmed(text@),
{
    let chars: Vec<char> = chars_of(text);
    let mut start: usize = 0;
    let mut end: usize = chars.len();
    assert(text@.subrange(0, end as int) =~= text@);
    while start < end && is_space(chars[start])
        invariant
            chars@ == text@,
            start <= end,
            end == chars@.len(),
            trimmed(text@.subrange(start as int, end as int)) == trimmed(text@),
        decreases end - start,
    {
        assert(text@.subrange(start as int, end as int).drop_first() =~= text@.subrange(
            start + 1,
            end as int,
        ));
        start = start + 1;
    }
    while start < end && is_space(chars[end - 1])
        invariant
            chars@ == text@,
            start <= end <= chars@.len(),
            start < end ==> !is_white_space(text@[start as int]),
            trimmed(text@.subrange(start as int, end as int)) == trimmed(text@),
        decreases end - start,
    {
        assert(text@.subrange(start as int, end as int).drop_last() =~= text@.subrange(
            start as int,
            end - 1,
        ));
        end = end - 1;
    }
    text.substring_char(start, end)
}

/// Whether `text` begins with `prefix`.
pub open spec fn has_prefix(text: Seq<char>, prefix: Seq<char>) -> bool {
    prefix.len() <= text.len() && text.take(prefix.len() as int) == prefix
}

/// Whether `separator` stands in `text` at position `at`.
pub open spec fn occurs_at(text: Seq<char>, separator: Seq<char>, at: int) -> bool {
    &&& 0 <= at <= text.len() - separator.len()
    &&& text.subrange(at, at + separator.len()) == separator
}

/// The text before the last occurrence of `separator` and the text behind it,
/// or nothing where `separator` does not occur.
pub open spec fn split_at_last(text: Seq<char>, separator: Seq<char>) -> Option<
    (Seq<char>, Seq<char>),
> {
    if exists|at: int| occurs_at(text, separator, at) {
        let at = choose|at: int|
            occurs_at(text, separator, at) && forall|later: int|
                occurs_at(text, separator, later) ==> later <= at;
        Some((text.take(at), text.skip(at + separator.len())))
    } else {
        None
    }
}

/// What `split_at_last` gives where the last occurrence is known.
pub proof fn lemma_split_at_last(text: Seq<char>, separator: Seq<char>, at: int)
    requires
        occurs_at(text, separator, at),
        forall|later: int| occurs_at(text, separator, later) ==> later <= at,
    ensures
        split_at_last(text, separator) == Some((text.take(at), text.skip(at + separator.len()))),
{
    let chosen = choose|at: int|
        occurs_at(text, separator, at) && forall|later: int|
            occurs_at(text, separator, later) ==> later <= at;
    assert(chosen == at);
}

/// The two parts of a split, with the separator between them, are the text.
pub proof fn lemma_split_parts(text: Seq<char>, separator: Seq<char>)
    ensures
        split_at_last(text, separator) matches Some((before, behind)) ==> before + separator
            + behind == text,
{
    if exists|at: int| occurs_at(text, separator, at) {
        lemma_last_occurrence(text, separator, text.len() as int);
        let at = choose|at: int|
            occurs_at(text, separator, at) && forall|later: int|
                occurs_at(text, separator, later) ==> later <= at;
        assert(text.take(at) + text.subrange(at, at + separator.len()) + text.skip(
            at + separator.len(),
        ) =~= text);
    }
}

/// A split is at an occurrence of the separator, and at the last one.
pub proof fn lemma_split_is_last(text: Seq<char>, separator: Seq<char>)
    ensures
        split_at_last(text, separator) matches Some((before, behind)) ==> occurs_at(
            text,
            separator,
            before.len() as int,
        ) && forall|later: int| occurs_at(text, separator, later) ==> later <= before.len(),
{
    if exists|at: int| occurs_at(text, separator, at) {
        lemma_last_occurrence(text, separator, text.len() as int);
        let at = choose|at: int|
            occurs_at(text, separator, at) && forall|later: int|
                occurs_at(text, separator, later) ==> later <= at;
        assert(text.take(at).len() == at);
    }
}

/// A separator that occurs, and not behind `bound`, has a last occurrence.
proof fn lemma_last_occurrence(text: Seq<char>, separator: Seq<char>, bound: int)
    requires
        exists|at: int| occurs_at(text, separator, at),
        forall|at: int| occurs_at(text, separator, at) ==> at <= bound,
    ensures
        exists|at: int|
            occurs_at(text, separator, at) && forall|later: int|
                occurs_at(text, separator, later) ==> later <= at,
    decreases bound,
{
    if !occurs_at(text, separator, bound) {
        lemma_last_occurrence(text, separator, bound - 1);
    }
}

/// Whether `text` begins with `prefix`.
pub(crate) fn starts_with(text: &str, prefix: &str) -> (found: bool)
    ensures
        found == has_prefix(text@, prefix@),
{
    let text_chars: Vec<char> = chars_of(text);
    let prefix_chars: Vec<char> = chars_of(prefix);
    if prefix_chars.len() > text_chars.len() {
        return false;
    }
    for i in 0..prefix_chars.len()
        invariant
            text_chars@ == text@,
            prefix_chars@ == prefix@,
            prefix@.len() <= text@.len(),
            forall|j: int| 0 <= j < i ==> text@[j] == prefix@[j],
    {
        if text_chars[i] != prefix_chars[i] {
            assert(text@.take(prefix@.len() as int)[i as int] != prefix@[i as int]);
            return false;
        }
    }
    assert(text@.take(prefix@.len() as int) =~= prefix@);
    true
}

/// Whether `separator` stands in `text` at position `at`.
fn stands_at(text: &Vec<char>, separator: &Vec<char>, at: usize) -> (found: bool)
    requires
        at + separator@.len() <= text@.len(),
    ensures
        found == occurs_at(text@, separator@, at as int),
{
    let length: usize = text.len();
    for i in 0..separator.len()
        invariant
            length == text@.len(),
            at + separator@.len() <= length,
            forall|j: int| 0 <= j < i ==> text@[at + j] == separator@[j],
    {
        if text[at + i] != separator[i] {
            assert(text@.subrange(at as int, at + separator@.len())[i as int]
                != separator@[i as int]);
            return false;
        }
    }
    assert(text@.subrange(at as int, at + separator@.len()) =~= separator@);
    true
}

/// The parts of `text` before and behind the last occurrence of `separator`.
pub(crate) fn rsplit_once<'a>(text: &'a str, separator: &str) -> (parts: Option<(&'a str, &'a str)>)
    ensures
        parts.deep_view() == split_at_last(text@, separator@),
{
    let chars: Vec<char> = chars_of(text);
    let separator_chars: Vec<char> = chars_of(separator);
    if separator_chars.len() > chars.len() {
        return None;
    }
    let length: usize = chars.len();
    let width: usize = separator_chars.len();
    let mut end: usize = length;
    loop
        invariant
            chars@ == text@,
            separator_chars@ == separator@,
            length == chars@.len(),
            width == separator@.len(),
            width <= end <= length,
            forall|later: int| end - width < later ==> !occurs_at(text@, separator@, later),
        decreases end,
    {
        let at: usize = end - width;
        if stands_at(&chars, &separator_chars, at) {
            proof {
                lemma_split_at_last(text@, separator@, at as int);
                assert(text@.subrange(0, at as int) =~= text@.take(at as int));
                assert(text@.subrange(end as int, length as int) =~= text@.skip(end as int));
            }
            let before: &str = text.substring_char(0, at);
            let behind: &str = text.substring_char(end, length);
            return Some((before, behind));
        }
        if at == 0 {
            return None;
        }
        end = end - 1;
    }
}

/// The texts in order, with `separator` between each two of them.
pub open spec fn joined(parts: Seq<Seq<char>>, separator: Seq<char>) -> Seq<char>
    decreases parts.len(),
{
    if parts.len() == 0 {
        Seq::empty()
    } else if parts.len() == 1 {
        parts[0]
    } else {
        joined(parts.drop_last(), separator) + separator + parts.last()
    }
}

/// The decimal digits of a natural number.
pub open spec fn decimal(n: nat) -> Seq<char>
    decreases n,
{
    if n < 10 {
        seq![('0' as int + n) as char]
    } else {
        decimal(n / 10).push(('0' as int + n % 10) as char)
    }
}

/// The decimal digits of an integer, with a minus sign before a negative one.
pub open spec fn signed_decimal(n: int) -> Seq<char> {
    if n < 0 {
        seq!['-'] + decimal((-n) as nat)
    } else {
        decimal(n as nat)
    }
}

/// The decimal digits of an unsigned number.
pub(crate) fn decimal_text(n: u128) -> (text: String)
    ensures
        text@ == decimal(n as nat),
    decreases n,
{
    let digit: &str = digit_text((n % 10) as u8);
    if n < 10 {
        digit.to_owned()
    } else {
        let mut text: String = decimal_text(n / 10);
        text.append(digit);
        assert(text@ =~= decimal(n as nat));
        text
    }
}

/// A single decimal digit.
fn digit_text(digit: u8) -> (text: &'static str)
    requires
        digit < 10,
    ensures
        text@ == seq![('0' as int + digit) as char],
{
    proof {
        reveal_strlit("0");
        reveal_strlit("1");
        reveal_strlit("2");
        reveal_strlit("3");
        reveal_strlit("4");
        reveal_strlit("5");
        reveal_strlit("6");
        reveal_strlit("7");
        reveal_strlit("8");
        reveal_strlit("9");
    }
    match digit {
        0 => "0",
        1 => "1",
        2 => "2",
        3 => "3",
        4 => "4",
        5 => "5",
        6 => "6",
        7 => "7",
        8 => "8",
        _ => "9",
    }
}

/// The decimal digits of a signed number.
pub(crate) fn signed_decimal_text(n: i64) -> (text: String)
    ensures
        text@ == signed_decimal(n as int),
{
    if n < 0 {
        let magnitude: u128 = (-(n as i128)) as u128;
        let mut text: String = "-".to_owned();
        text.append(decimal_text(magnitude).as_str());
        proof {
            reveal_strlit("-");
            assert(text@ =~= signed_decimal(n as int));
        }
        text
    } else {
        decimal_text(n as u128)
    }
}

/// A copy of an optional string.
pub(crate) fn copy_text(text: &Option<String>) -> (copy: Option<String>)
    ensures
        copy == *text,
{
    match text {
        Some(text) => Some(text.clone()),
        None => None,
    }
}

/// The texts in order, with `separator` between each two of them.
pub(crate) fn join(parts: &Vec<&str>, separator: &str) -> (text: String)
    ensures
        text@ == joined(parts.deep_view(), separator@),
{
    let ghost all = parts.deep_view();
    let mut text: String = String::new();
    for i in 0..parts.len()
        invariant
            all == parts.deep_view(),
            text@ == joined(all.take(i as int), separator@),
    {
        if i > 0 {
            text.append(separator);
        }
        text.append(parts[i]);
        proof {
            assert(all.take(i + 1).drop_last() =~= all.take(i as int));
            assert(all.take(i + 1).last() == parts@[i as int]@);
            assert(text@ =~= joined(all.take(i + 1), separator@));
        }
    }
    assert(all.take(all.len() as int) =~= all);
    text
}

} // verus!
