//! What the splitting, reading and writing of text amounts to.

use vstd::prelude::*;

#[allow(unused_imports)]
use crate::text::{
    all_digits, decimal, digit_char, digit_value, digits_value, index_from, is_digit, is_space,
    law_decimal_reads_back, lower, lower_text, padded, pattern_from, space_at, trimmed,
    unsigned_number,
};

verus! {

/// Of the ASCII characters, the blank and those from the tab to the carriage
/// return are whitespace.
pub proof fn law_ascii_whitespace(c: char)
    requires
        (c as u32) < 0x80,
    ensures
        is_space(c) <==> c == ' ' || '\t' <= c <= '\r',
{
}

/// Beyond ASCII, whitespace is the next line, the two no-break spaces, the
/// spaces of Ogham and of ideographs, the mathematical space, the two
/// separators and the eleven spaces of fixed widths.
pub proof fn law_other_whitespace(c: char)
    requires
        (c as u32) >= 0x80,
    ensures
        is_space(c) <==> c == '\u{85}' || c == '\u{a0}' || c == '\u{1680}' || '\u{2000}' <= c
            <= '\u{200a}' || c == '\u{2028}' || c == '\u{2029}' || c == '\u{202f}' || c
            == '\u{205f}' || c == '\u{3000}',
{
}

/// Splitting finds the first place from which whitespace begins, or ends.
pub proof fn law_space_at_is_the_first(s: Seq<char>, i: int, space: bool)
    requires
        0 <= i <= s.len(),
    ensures
        i <= space_at(s, i, space) <= s.len(),
        forall|j: int| i <= j < space_at(s, i, space) ==> is_space(#[trigger] s[j]) != space,
        space_at(s, i, space) < s.len() ==> is_space(s[space_at(s, i, space)]) == space,
    decreases s.len() - i,
{
    if i < s.len() && is_space(s[i]) != space {
        law_space_at_is_the_first(s, i + 1, space);
    }
}

/// Searching finds the first place of a character, or the end.
pub proof fn law_index_is_the_first(s: Seq<char>, x: char, i: int)
    requires
        0 <= i <= s.len(),
    ensures
        i <= index_from(s, x, i) <= s.len(),
        forall|j: int| i <= j < index_from(s, x, i) ==> #[trigger] s[j] != x,
        index_from(s, x, i) < s.len() ==> s[index_from(s, x, i)] == x,
    decreases s.len() - i,
{
    if i < s.len() && s[i] != x {
        law_index_is_the_first(s, x, i + 1);
    }
}

/// Searching finds the first place of a pattern, where it stands at all.
pub proof fn law_pattern_is_the_first<T>(s: Seq<T>, pattern: Seq<T>, i: int)
    requires
        0 <= i <= s.len(),
        pattern.len() > 0,
    ensures
        match pattern_from(s, pattern, i) {
            Some(at) => {
                &&& i <= at
                &&& at + pattern.len() <= s.len()
                &&& s.subrange(at, at + pattern.len()) == pattern
                &&& forall|j: int|
                    i <= j < at ==> #[trigger] s.subrange(j, j + pattern.len()) != pattern
            },
            None => forall|j: int|
                i <= j && j + pattern.len() <= s.len() ==> #[trigger] s.subrange(
                    j,
                    j + pattern.len(),
                ) != pattern,
        },
    decreases s.len() - i,
{
    if i >= s.len() || i + pattern.len() > s.len() {
    } else if s.subrange(i, i + pattern.len()) == pattern {
    } else {
        law_pattern_is_the_first(s, pattern, i + 1);
    }
}

/// Trimming takes the whitespace off both ends, and nothing else.
pub proof fn law_trimming_strips_both_ends(before: Seq<char>, word: Seq<char>, after: Seq<char>)
    requires
        forall|i: int| 0 <= i < before.len() ==> is_space(#[trigger] before[i]),
        forall|i: int| 0 <= i < after.len() ==> is_space(#[trigger] after[i]),
        word.len() > 0 ==> !is_space(word[0]) && !is_space(word.last()),
    ensures
        trimmed(before + word + after) == word,
    decreases before.len() + after.len(),
{
    let s = before + word + after;
    if after.len() > 0 {
        assert(s.last() == after.last());
        assert(is_space(after[after.len() - 1]));
        assert(s.drop_last() =~= before + word + after.drop_last());
        assert forall|i: int| 0 <= i < after.len() - 1 implies is_space(
            #[trigger] after.drop_last()[i],
        ) by {
            assert(after[i] == after.drop_last()[i]);
        }
        law_trimming_strips_both_ends(before, word, after.drop_last());
    } else if word.len() > 0 {
        assert(s =~= before + word);
        assert(s.last() == word.last());
        law_space_at_is_the_first(s, 0, false);
        let at = space_at(s, 0, false);
        if at < before.len() {
            assert(s[at] == before[at]);
        } else if at > before.len() {
            assert(s[before.len() as int] == word[0]);
        }
        assert(s.subrange(at, s.len() as int) =~= word);
    } else if before.len() > 0 {
        assert(s =~= before);
        assert(is_space(before[before.len() - 1]));
        assert(s.drop_last() =~= before.drop_last() + word + after);
        assert forall|i: int| 0 <= i < before.len() - 1 implies is_space(
            #[trigger] before.drop_last()[i],
        ) by {
            assert(before[i] == before.drop_last()[i]);
        }
        law_trimming_strips_both_ends(before.drop_last(), word, after);
    } else {
        assert(s =~= word);
    }
}

/// Lower case moves the letters from A to Z to those from a to z, each to its
/// own, and leaves every other character.
pub proof fn law_lower_case_moves_capitals(c: char)
    ensures
        'A' <= c <= 'Z' ==> lower(c) as u32 - 'a' as u32 == c as u32 - 'A' as u32,
        !('A' <= c <= 'Z') ==> lower(c) == c,
        lower(lower(c)) == lower(c),
{
}

/// Text is put in lower case character by character.
pub proof fn law_lower_text_is_by_character(s: Seq<char>, i: int)
    requires
        0 <= i < s.len(),
    ensures
        lower_text(s).len() == s.len(),
        lower_text(s)[i] == lower(s[i]),
{
}

/// A digit more is ten times the number and the digit.
pub proof fn law_digits_are_read_in_tens(s: Seq<char>, c: char)
    requires
        '0' <= c <= '9',
    ensures
        digits_value(Seq::empty()) == 0,
        digits_value(s.push(c)) == 10 * digits_value(s) + (c as int - 48),
{
    assert(s.push(c).drop_last() =~= s);
}

/// A number is read from digits alone, at least one, with or without a plus
/// sign in front; from nothing else.
pub proof fn law_numbers_are_digits(s: Seq<char>)
    ensures
        ({
            let only_digits = forall|i: int| 0 <= i < s.len() ==> '0' <= #[trigger] s[i] <= '9';
            &&& s.len() > 0 && only_digits ==> unsigned_number(s) == Some(digits_value(s))
            &&& s.len() > 0 && only_digits ==> unsigned_number(seq!['+'] + s) == Some(
                digits_value(s),
            )
            &&& unsigned_number(s) is Some ==> s.len() > 0 && (only_digits || s[0] == '+')
            &&& unsigned_number(s) is Some && s[0] == '+' ==> s.len() > 1 && forall|i: int|
                1 <= i < s.len() ==> '0' <= #[trigger] s[i] <= '9'
        }),
{
    let signed = seq!['+'] + s;
    assert(signed.drop_first() =~= s);
    if s.len() > 0 && unsigned_number(s) is Some {
        if s[0] == '+' {
            assert forall|i: int| 1 <= i < s.len() implies '0' <= #[trigger] s[i] <= '9' by {
                assert(is_digit(s.drop_first()[i - 1]));
            }
        } else {
            assert forall|i: int| 0 <= i < s.len() implies '0' <= #[trigger] s[i] <= '9' by {
                assert(is_digit(s[i]));
            }
        }
    }
}

/// A number is written in digits that read back as it, without a zero in front
/// but for zero itself.
pub proof fn law_decimal_is_canonical(n: int)
    requires
        n >= 0,
    ensures
        unsigned_number(decimal(n)) == Some(n),
        decimal(n).len() > 0,
        n > 0 ==> decimal(n)[0] != '0',
        n == 0 ==> decimal(n) == seq!['0'],
        forall|i: int| 0 <= i < decimal(n).len() ==> '0' <= #[trigger] decimal(n)[i] <= '9',
    decreases n,
{
    law_decimal_reads_back(n);
    if n >= 10 {
        law_decimal_is_canonical(n / 10);
        assert(decimal(n)[0] == decimal(n / 10)[0]);
    }
    assert forall|i: int| 0 <= i < decimal(n).len() implies '0' <= #[trigger] decimal(n)[i]
        <= '9' by {
        assert(is_digit(decimal(n)[i]));
    }
}

/// A number padded to a width has that many digits, which read back as it where
/// it fits.
pub proof fn law_padded_fills_the_width(n: int, width: nat, bound: int)
    requires
        0 <= n < bound,
        bound == vstd::arithmetic::power::pow(10, width),
    ensures
        padded(n, width).len() == width,
        all_digits(padded(n, width)),
        digits_value(padded(n, width)) == n,
    decreases width,
{
    if width == 0 {
        vstd::arithmetic::power::lemma_pow0(10);
    } else {
        let w = (width - 1) as nat;
        vstd::arithmetic::power::lemma_pow_adds(10, 1, w);
        vstd::arithmetic::power::lemma_pow1(10);
        assert(n / 10 < vstd::arithmetic::power::pow(10, w));
        law_padded_fills_the_width(n / 10, w, vstd::arithmetic::power::pow(10, w));
        let front = padded(n / 10, w);
        let last = digit_char(n % 10);
        assert(is_digit(last) && digit_value(last) == n % 10);
        assert(front.push(last).drop_last() =~= front);
        assert forall|i: int| 0 <= i < width implies is_digit(#[trigger] padded(n, width)[i]) by {
            if i < w {
                assert(padded(n, width)[i] == front[i]);
            }
        }
    }
}

} // verus!
