//! What holds of the texts that the library takes apart and puts together.

use vstd::prelude::*;

use crate::text::{
    decimal, has_prefix, is_blank, is_white_space, joined, lemma_trimmed_blank, signed_decimal,
    trimmed,
};

verus! {

/// The code points that Unicode counts as white space.
pub open spec fn is_unicode_space(c: char) -> bool {
    let n = c as int;
    ||| 0x9 <= n <= 0xd
    ||| n == 0x20
    ||| n == 0x85
    ||| n == 0xa0
    ||| n == 0x1680
    ||| 0x2000 <= n <= 0x200a
    ||| n == 0x2028
    ||| n == 0x2029
    ||| n == 0x202f
    ||| n == 0x205f
    ||| n == 0x3000
}

/// All characters outside of `start..end` are white space, and the characters at
/// the two ends of it, where it has any, are not.
pub open spec fn is_middle(text: Seq<char>, start: int, end: int) -> bool {
    &&& 0 <= start <= end <= text.len()
    &&& forall|i: int| 0 <= i < start ==> is_unicode_space(#[trigger] text[i])
    &&& forall|i: int| end <= i < text.len() ==> is_unicode_space(#[trigger] text[i])
    &&& start < end ==> !is_unicode_space(text[start]) && !is_unicode_space(text[end - 1])
}

/// Trimming leaves what lies between the white space at the two ends of a text.
pub proof fn law_trimming_leaves_the_middle(text: Seq<char>, start: int, end: int)
    requires
        is_middle(text, start, end),
    ensures
        trimmed(text) == text.subrange(start, end),
    decreases text.len(),
{
    if start == end {
        assert forall|i: int| 0 <= i < text.len() implies is_white_space(
            #[trigger] text[i],
        ) by {
            assert(is_unicode_space(text[i]));
        }
        lemma_trimmed_blank(text);
        assert(trimmed(text) =~= text.subrange(start, end));
    } else if start > 0 {
        let rest = text.drop_first();
        assert(is_unicode_space(text[0]));
        assert forall|i: int| 0 <= i < start - 1 implies is_unicode_space(#[trigger] rest[i]) by {
            assert(rest[i] == text[i + 1]);
        }
        assert forall|i: int| end - 1 <= i < rest.len() implies is_unicode_space(
            #[trigger] rest[i],
        ) by {
            assert(rest[i] == text[i + 1]);
        }
        law_trimming_leaves_the_middle(rest, start - 1, end - 1);
        assert(rest.subrange(start - 1, end - 1) =~= text.subrange(start, end));
    } else if end < text.len() {
        let rest = text.drop_last();
        assert(is_unicode_space(text[text.len() - 1]));
        assert forall|i: int| end <= i < rest.len() implies is_unicode_space(
            #[trigger] rest[i],
        ) by {
            assert(rest[i] == text[i]);
        }
        law_trimming_leaves_the_middle(rest, start, end);
        assert(rest.subrange(start, end) =~= text.subrange(start, end));
    } else {
        assert(text.subrange(start, end) =~= text);
    }
}

/// Every text has a middle.
pub proof fn lemma_has_middle(text: Seq<char>)
    ensures
        exists|start: int, end: int| is_middle(text, start, end),
    decreases text.len(),
{
    if text.len() == 0 {
        assert(is_middle(text, 0, 0));
    } else if is_unicode_space(text[0]) {
        let rest = text.drop_first();
        lemma_has_middle(rest);
        let (start, end) = choose|start: int, end: int| is_middle(rest, start, end);
        assert forall|i: int| 0 <= i < start + 1 implies is_unicode_space(#[trigger] text[i]) by {
            if i > 0 {
                assert(is_unicode_space(rest[i - 1]));
            }
        }
        assert forall|i: int| end + 1 <= i < text.len() implies is_unicode_space(
            #[trigger] text[i],
        ) by {
            assert(is_unicode_space(rest[i - 1]));
        }
        assert(is_middle(text, start + 1, end + 1));
    } else if is_unicode_space(text[text.len() - 1]) {
        let rest = text.drop_last();
        lemma_has_middle(rest);
        let (start, end) = choose|start: int, end: int| is_middle(rest, start, end);
        assert forall|i: int| 0 <= i < start implies is_unicode_space(#[trigger] text[i]) by {
            assert(is_unicode_space(rest[i]));
        }
        assert forall|i: int| end <= i < text.len() implies is_unicode_space(
            #[trigger] text[i],
        ) by {
            if i < rest.len() {
                assert(is_unicode_space(rest[i]));
            }
        }
        assert(is_middle(text, start, end));
    } else {
        assert(is_middle(text, 0, text.len() as int));
    }
}

/// A text is blank if and only if all of it is white space.
pub proof fn law_blank(text: Seq<char>)
    ensures
        is_blank(text) <==> forall|i: int|
            0 <= i < text.len() ==> is_unicode_space(#[trigger] text[i]),
{
    if is_blank(text) {
        assert forall|i: int| 0 <= i < text.len() implies is_unicode_space(#[trigger] text[i]) by {
            assert(is_white_space(text[i]));
        }
    }
    if forall|i: int| 0 <= i < text.len() ==> is_unicode_space(#[trigger] text[i]) {
        assert forall|i: int| 0 <= i < text.len() implies is_white_space(
            #[trigger] text[i],
        ) by {
            assert(is_unicode_space(text[i]));
        }
    }
}

/// The text says `[DONE]`, with nothing but white space around it.
pub open spec fn says_done(text: Seq<char>) -> bool {
    exists|start: int, end: int|
        #![trigger is_middle(text, start, end)]
        is_middle(text, start, end) && text.subrange(start, end) == seq![
            '[',
            'D',
            'O',
            'N',
            'E',
            ']',
        ]
}

/// A trimmed text is `[DONE]` if and only if the text says so.
pub proof fn law_done(text: Seq<char>)
    ensures
        trimmed(text) == "[DONE]"@ <==> says_done(text),
        says_done(text) ==> !is_blank(text),
{
    reveal_strlit("[DONE]");
    lemma_has_middle(text);
    lemma_trimmed_blank(text);
    let (start, end) = choose|start: int, end: int| is_middle(text, start, end);
    law_trimming_leaves_the_middle(text, start, end);
    assert("[DONE]"@ =~= seq!['[', 'D', 'O', 'N', 'E', ']']);
    if says_done(text) {
        let (a, b) = choose|a: int, b: int|
            #![trigger is_middle(text, a, b)]
            is_middle(text, a, b) && text.subrange(a, b) == seq!['[', 'D', 'O', 'N', 'E', ']'];
        law_trimming_leaves_the_middle(text, a, b);
    }
}

/// The texts one below the other.
pub open spec fn on_lines(texts: Seq<Seq<char>>) -> Seq<char>
    decreases texts.len(),
{
    if texts.len() == 0 {
        Seq::empty()
    } else if texts.len() == 1 {
        texts[0]
    } else {
        texts[0] + seq!['\n'] + on_lines(texts.drop_first())
    }
}

/// Texts that are joined stand in order with the separator between each two:
/// none gives nothing, one gives itself, and another one in front goes before
/// the separator and the rest.
pub proof fn law_joined(first: Seq<char>, rest: Seq<Seq<char>>, separator: Seq<char>)
    ensures
        joined(Seq::empty(), separator) == Seq::<char>::empty(),
        joined(seq![first], separator) == first,
        rest.len() > 0 ==> joined(seq![first] + rest, separator) == first + separator + joined(
            rest,
            separator,
        ),
    decreases rest.len(),
{
    if rest.len() == 1 {
        let both = seq![first] + rest;
        assert(both.drop_last() =~= seq![first]);
        assert(joined(both.drop_last(), separator) == first);
        assert(both.last() == rest[0]);
        assert(joined(both, separator) == first + separator + rest[0]);
    } else if rest.len() > 1 {
        let all = seq![first] + rest;
        assert(all.drop_last() =~= seq![first] + rest.drop_last());
        law_joined(first, rest.drop_last(), separator);
        let middle = joined(rest.drop_last(), separator);
        assert(all.last() == rest.last());
        assert(joined(all, separator) == joined(all.drop_last(), separator) + separator
            + all.last());
        assert(joined(rest, separator) == middle + separator + rest.last());
        assert((first + separator + middle) + separator + rest.last() =~= first + separator + (
        middle + separator + rest.last()));
    }
}

/// Texts joined by the end of a line stand one below the other.
pub proof fn law_joined_on_lines(texts: Seq<Seq<char>>)
    ensures
        joined(texts, "\n"@) == on_lines(texts),
    decreases texts.len(),
{
    reveal_strlit("\n");
    assert("\n"@ =~= seq!['\n']);
    if texts.len() > 1 {
        let rest = texts.drop_first();
        law_joined_on_lines(rest);
        law_joined(texts[0], rest, "\n"@);
        assert(seq![texts[0]] + rest =~= texts);
    }
}

/// The number that decimal digits write.
pub open spec fn digits_value(digits: Seq<char>) -> int
    decreases digits.len(),
{
    if digits.len() == 0 {
        0
    } else {
        10 * digits_value(digits.drop_last()) + (digits.last() as int - 48)
    }
}

/// A natural number is written in decimal digits that give the number back, and
/// without a zero in front unless it is zero itself.
pub proof fn law_decimal(n: nat)
    ensures
        decimal(n).len() > 0,
        forall|i: int| 0 <= i < decimal(n).len() ==> 48 <= (#[trigger] decimal(n)[i]) as int <= 57,
        digits_value(decimal(n)) == n,
        decimal(n)[0] == '0' ==> decimal(n).len() == 1,
    decreases n,
{
    let digits = decimal(n);
    if n < 10 {
        assert(digits.drop_last() =~= Seq::empty());
        assert(digits_value(digits.drop_last()) == 0);
    } else {
        law_decimal(n / 10);
        let before = decimal(n / 10);
        assert(digits.drop_last() =~= before);
        assert(digits[0] == before[0]);
        assert(digits.last() as int == 48 + n % 10);
        assert forall|i: int| 0 <= i < digits.len() implies 48 <= (
        #[trigger] digits[i]) as int <= 57 by {
            if i < before.len() {
                assert(digits[i] == before[i]);
            }
        }
        if before[0] == '0' {
            assert(before.len() == 1);
            assert(before.drop_last() =~= Seq::empty());
            assert(digits_value(before.drop_last()) == 0);
            assert(digits_value(before) == 0);
        }
    }
}

/// An integer is written as its digits, behind a minus sign where it is
/// negative.
pub proof fn law_signed_decimal(n: int)
    ensures
        n >= 0 ==> signed_decimal(n) == decimal(n as nat),
        n < 0 ==> signed_decimal(n) == seq!['-'] + decimal((0 - n) as nat),
{
}

/// A text begins with a prefix if and only if it is the prefix with something
/// behind it.
pub proof fn law_prefix(text: Seq<char>, prefix: Seq<char>, rest: Seq<char>)
    ensures
        has_prefix(prefix + rest, prefix),
        has_prefix(text, prefix) <==> prefix.len() <= text.len() && forall|i: int|
            0 <= i < prefix.len() ==> #[trigger] text[i] == prefix[i],
{
    assert((prefix + rest).take(prefix.len() as int) =~= prefix);
    if prefix.len() <= text.len() {
        let start = text.take(prefix.len() as int);
        if start == prefix {
            assert forall|i: int| 0 <= i < prefix.len() implies #[trigger] text[i]
                == prefix[i] by {
                assert(start[i] == text[i]);
            }
        }
        if forall|i: int| 0 <= i < prefix.len() ==> #[trigger] text[i] == prefix[i] {
            assert(start =~= prefix);
        }
    }
}

} // verus!
