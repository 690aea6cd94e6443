//! Text: comparing, splitting, reading and writing decimal numbers.

use vstd::prelude::*;
use vstd::string::*;
use vstd::utf8::*;

verus! {

/// Whether two strings hold the same characters.
pub fn str_eq(a: &str, b: &str) -> (same: bool)
    ensures
        same == (a@ == b@),
{
    let x: &[u8] = a.as_bytes();
    let y: &[u8] = b.as_bytes();
    proof {
        encode_utf8_decode_utf8(a@);
        encode_utf8_decode_utf8(b@);
    }
    if x.len() != y.len() {
        return false;
    }
    let mut i: usize = 0;
    while i < x.len()
        invariant
            i <= x.len(),
            x.len() == y.len(),
            x@ == a.spec_bytes(),
            y@ == b.spec_bytes(),
            forall|j: int| 0 <= j < i ==> x@[j] == y@[j],
        decreases x.len() - i,
    {
        if x[i] != y[i] {
            return false;
        }
        i = i + 1;
    }
    assert(x@ =~= y@);
    true
}

/// The characters of a string, for indexing.
pub fn chars_of(text: &str) -> (chars: Vec<char>)
    ensures
        chars@ == text@,
{
    let mut chars: Vec<char> = Vec::new();
    for c in it: text.chars()
        invariant
            it.seq() == text@,
            chars@ == text@.take(it.index() as int),
    {
        chars.push(c);
    }
    assert(text@.take(text@.len() as int) =~= text@);
    chars
}

// ---------------------------------------------------------------------------
// Characters
// ---------------------------------------------------------------------------

/// The characters with the Unicode property White_Space.
pub open spec fn is_space(c: char) -> bool {
    let u = c as u32;
    ||| 0x9 <= u <= 0xd
    ||| u == 0x20
    ||| u == 0x85
    ||| u == 0xa0
    ||| u == 0x1680
    ||| 0x2000 <= u <= 0x200a
    ||| u == 0x2028
    ||| u == 0x2029
    ||| u == 0x202f
    ||| u == 0x205f
    ||| u == 0x3000
}

pub fn is_whitespace(c: char) -> (space: bool)
    ensures
        space == is_space(c),
{
    let u: u32 = c as u32;
    (0x9 <= u && u <= 0xd) || u == 0x20 || u == 0x85 || u == 0xa0 || u == 0x1680 || (0x2000 <= u
        && u <= 0x200a) || u == 0x2028 || u == 0x2029 || u == 0x202f || u == 0x205f || u == 0x3000
}

/// An ASCII letter in lower case; any other character as it is.
pub open spec fn lower(c: char) -> char {
    if 'A' <= c <= 'Z' {
        ((c as u32 + 32) as u32) as char
    } else {
        c
    }
}

pub open spec fn lower_text(s: Seq<char>) -> Seq<char> {
    s.map_values(|c: char| lower(c))
}

fn to_lower(c: char) -> (l: char)
    ensures
        l == lower(c),
{
    if 'A' <= c && c <= 'Z' {
        (c as u8 + 32) as char
    } else {
        c
    }
}

/// Whether `chars`, read without regard to ASCII case, is `word`.
pub fn eq_ignore_case(chars: &[char], word: &str) -> (same: bool)
    ensures
        same == (lower_text(chars@) == lower_text(word@)),
{
    let other: Vec<char> = chars_of(word);
    if chars.len() != other.len() {
        assert(lower_text(chars@).len() != lower_text(word@).len());
        return false;
    }
    let mut i: usize = 0;
    while i < chars.len()
        invariant
            i <= chars.len(),
            chars.len() == other.len(),
            other@ == word@,
            forall|j: int| 0 <= j < i ==> lower(chars@[j]) == lower(other@[j]),
        decreases chars.len() - i,
    {
        if to_lower(chars[i]) != to_lower(other[i]) {
            assert(lower_text(chars@)[i as int] != lower_text(word@)[i as int]);
            return false;
        }
        i = i + 1;
    }
    assert(lower_text(chars@) =~= lower_text(word@));
    true
}

// ---------------------------------------------------------------------------
// Splitting
// ---------------------------------------------------------------------------

/// The first index from `i` on where whitespace begins (`space`) or ends
/// (`!space`); the length where there is none.
pub open spec fn space_at(s: Seq<char>, i: int, space: bool) -> int
    decreases s.len() - i,
{
    if i >= s.len() {
        s.len() as int
    } else if is_space(s[i]) == space {
        i
    } else {
        space_at(s, i + 1, space)
    }
}

pub fn find_space(s: &[char], from: usize, space: bool) -> (at: usize)
    requires
        from <= s@.len(),
    ensures
        from <= at <= s@.len(),
        at == space_at(s@, from as int, space),
{
    let mut i: usize = from;
    while i < s.len()
        invariant
            from <= i <= s@.len(),
            space_at(s@, i as int, space) == space_at(s@, from as int, space),
        decreases s.len() - i,
    {
        if is_whitespace(s[i]) == space {
            return i;
        }
        i = i + 1;
    }
    i
}

/// The part of `s` between its first and last characters that are not
/// whitespace.
pub open spec fn trimmed(s: Seq<char>) -> Seq<char>
    decreases s.len(),
{
    if s.len() == 0 {
        s
    } else if is_space(s.last()) {
        trimmed(s.drop_last())
    } else {
        s.subrange(space_at(s, 0, false), s.len() as int)
    }
}

/// The bounds of the trimmed part.
pub fn trim(s: &[char]) -> (bounds: (usize, usize))
    ensures
        bounds.0 <= bounds.1 <= s@.len(),
        s@.subrange(bounds.0 as int, bounds.1 as int) == trimmed(s@),
{
    let mut end: usize = s.len();
    assert(s@.take(end as int) =~= s@);
    while end > 0 && is_whitespace(s[end - 1])
        invariant
            end <= s@.len(),
            trimmed(s@.take(end as int)) == trimmed(s@),
        decreases end,
    {
        assert(s@.take(end as int).drop_last() =~= s@.take(end - 1));
        end = end - 1;
    }
    let ghost kept = s@.take(end as int);
    if end == 0 {
        assert(s@.subrange(0, 0) =~= kept);
        return (0, 0);
    }
    let mut start: usize = 0;
    while start < end && is_whitespace(s[start])
        invariant
            0 < end <= s@.len(),
            start <= end,
            kept == s@.take(end as int),
            space_at(kept, start as int, false) == space_at(kept, 0, false),
        decreases end - start,
    {
        start = start + 1;
    }
    assert(s@.subrange(start as int, end as int) =~= kept.subrange(start as int, end as int));
    (start, end)
}

/// The first index from `i` on with the value `x`; the length where there is
/// none.
pub open spec fn index_from(s: Seq<char>, x: char, i: int) -> int
    decreases s.len() - i,
{
    if i >= s.len() {
        s.len() as int
    } else if s[i] == x {
        i
    } else {
        index_from(s, x, i + 1)
    }
}

pub proof fn lemma_index_from(s: Seq<char>, x: char, i: int)
    requires
        0 <= i <= s.len(),
    ensures
        i <= index_from(s, x, i) <= s.len(),
    decreases s.len() - i,
{
    if i < s.len() && s[i] != x {
        lemma_index_from(s, x, i + 1);
    }
}

pub fn find_char(s: &[char], x: char, from: usize) -> (at: usize)
    requires
        from <= s@.len(),
    ensures
        from <= at <= s@.len(),
        at == index_from(s@, x, from as int),
{
    let mut i: usize = from;
    while i < s.len()
        invariant
            from <= i <= s@.len(),
            index_from(s@, x, i as int) == index_from(s@, x, from as int),
        decreases s.len() - i,
    {
        if s[i] == x {
            return i;
        }
        i = i + 1;
    }
    i
}

/// The first index from `i` on where `pattern` stands in `s`.
pub open spec fn pattern_from<T>(s: Seq<T>, pattern: Seq<T>, i: int) -> Option<int>
    decreases s.len() - i,
{
    if i >= s.len() || i + pattern.len() > s.len() {
        None
    } else if s.subrange(i, i + pattern.len()) == pattern {
        Some(i)
    } else {
        pattern_from(s, pattern, i + 1)
    }
}

/// The blank line that ends a head.
pub open spec fn blank_line() -> Seq<char> {
    seq!['\r', '\n', '\r', '\n']
}

/// The blank line that ends a head, in bytes.
pub open spec fn blank_line_bytes() -> Seq<u8> {
    seq![13u8, 10u8, 13u8, 10u8]
}

pub fn find_blank_line(s: &[char], from: usize) -> (at: Option<usize>)
    requires
        from <= s@.len(),
    ensures
        match at {
            Some(i) => from <= i && i + 4 <= s@.len() && pattern_from(
                s@,
                blank_line(),
                from as int,
            ) == Some(i as int),
            None => pattern_from(s@, blank_line(), from as int) is None,
        },
{
    let mut i: usize = from;
    while s.len() - i >= 4
        invariant
            from <= i <= s@.len(),
            pattern_from(s@, blank_line(), i as int) == pattern_from(
                s@,
                blank_line(),
                from as int,
            ),
        decreases s.len() - i,
    {
        if s[i] == '\r' && s[i + 1] == '\n' && s[i + 2] == '\r' && s[i + 3] == '\n' {
            assert(s@.subrange(i as int, i + 4) =~= blank_line());
            return Some(i);
        }
        proof {
            let here = s@.subrange(i as int, i + 4);
            assert(here[0] == s@[i as int] && here[1] == s@[i + 1] && here[2] == s@[i + 2]
                && here[3] == s@[i + 3]);
        }
        i = i + 1;
    }
    None
}

pub fn find_blank_line_bytes(s: &[u8]) -> (at: Option<usize>)
    ensures
        match at {
            Some(i) => i + 4 <= s@.len() && pattern_from(s@, blank_line_bytes(), 0) == Some(
                i as int,
            ),
            None => pattern_from(s@, blank_line_bytes(), 0) is None,
        },
{
    let mut i: usize = 0;
    while s.len() - i >= 4
        invariant
            i <= s@.len(),
            pattern_from(s@, blank_line_bytes(), i as int) == pattern_from(
                s@,
                blank_line_bytes(),
                0,
            ),
        decreases s.len() - i,
    {
        if s[i] == 13 && s[i + 1] == 10 && s[i + 2] == 13 && s[i + 3] == 10 {
            assert(s@.subrange(i as int, i + 4) =~= blank_line_bytes());
            return Some(i);
        }
        proof {
            let here = s@.subrange(i as int, i + 4);
            assert(here[0] == s@[i as int] && here[1] == s@[i + 1] && here[2] == s@[i + 2]
                && here[3] == s@[i + 3]);
        }
        i = i + 1;
    }
    None
}

// ---------------------------------------------------------------------------
// Decimal numbers
// ---------------------------------------------------------------------------

pub open spec fn is_digit(c: char) -> bool {
    '0' <= c <= '9'
}

pub open spec fn digit_value(c: char) -> int {
    c as int - '0' as int
}

/// The number that a run of digits stands for.
pub open spec fn digits_value(s: Seq<char>) -> int
    decreases s.len(),
{
    if s.len() == 0 {
        0
    } else {
        10 * digits_value(s.drop_last()) + digit_value(s.last())
    }
}

pub open spec fn all_digits(s: Seq<char>) -> bool {
    forall|i: int| 0 <= i < s.len() ==> is_digit(#[trigger] s[i])
}

/// An unsigned decimal number: at least one digit and nothing else, but for an
/// optional plus sign in front.
pub open spec fn unsigned_number(s: Seq<char>) -> Option<int> {
    let digits = if s.len() > 0 && s[0] == '+' {
        s.drop_first()
    } else {
        s
    };
    if digits.len() > 0 && all_digits(digits) {
        Some(digits_value(digits))
    } else {
        None
    }
}

/// Read an unsigned decimal number; one too large for the type is cut off at
/// the type's greatest value.
pub fn read_unsigned(s: &[char]) -> (value: Option<u64>)
    ensures
        match unsigned_number(s@) {
            Some(n) => value matches Some(v) && v == if n <= u64::MAX {
                n
            } else {
                u64::MAX as int
            },
            None => value is None,
        },
{
    let start: usize = if s.len() > 0 && s[0] == '+' {
        1
    } else {
        0
    };
    let ghost digits = s@.skip(start as int);
    proof {
        if start == 1 {
            assert(digits =~= s@.drop_first());
        } else {
            assert(digits =~= s@);
        }
    }
    if s.len() == start {
        return None;
    }
    let mut value: u64 = 0;
    let mut over: bool = false;
    let mut i: usize = start;
    assert(digits.take(0).len() == 0);
    while i < s.len()
        invariant
            start <= i <= s@.len(),
            digits == s@.skip(start as int),
            digits == (if s@.len() > 0 && s@[0] == '+' {
                s@.drop_first()
            } else {
                s@
            }),
            forall|j: int| 0 <= j < i - start ==> is_digit(#[trigger] digits[j]),
            digits_value(digits.take(i - start)) >= 0,
            !over ==> value == digits_value(digits.take(i - start)),
            over ==> digits_value(digits.take(i - start)) > u64::MAX,
        decreases s.len() - i,
    {
        let c: char = s[i];
        assert(digits[i - start] == c);
        if !('0' <= c && c <= '9') {
            assert(!all_digits(digits));
            return None;
        }
        let d: u64 = (c as u32 - 48) as u64;
        proof {
            assert(digits.take(i + 1 - start).drop_last() =~= digits.take(i - start));
        }
        if !over {
            if value > 1_844_674_407_370_955_161 || value == 1_844_674_407_370_955_161 && d > 5 {
                over = true;
            } else {
                value = 10 * value + d;
            }
        }
        i = i + 1;
    }
    assert(digits.take(i - start) =~= digits);
    Some(
        if over {
            u64::MAX
        } else {
            value
        },
    )
}

pub open spec fn digit_char(d: int) -> char {
    (48 + d) as char
}

/// The decimal digits of a number, without leading zeros.
pub open spec fn decimal(n: int) -> Seq<char>
    decreases n,
{
    if n < 10 {
        seq![digit_char(n)]
    } else {
        decimal(n / 10).push(digit_char(n % 10))
    }
}

/// The last `width` decimal digits of a number.
pub open spec fn padded(n: int, width: nat) -> Seq<char>
    decreases width,
{
    if width == 0 {
        Seq::empty()
    } else {
        padded(n / 10, (width - 1) as nat).push(digit_char(n % 10))
    }
}

fn digit_text(d: u8) -> (s: &'static str)
    requires
        d < 10,
    ensures
        s@ == seq![digit_char(d as int)],
{
    proof {
        reveal_strlit("0");
        reveal_strlit("1");
        reveal_strlit("2");
        reveal_strlit("3");
        reveal_strlit("4");
        reveal_strlit("5");
        reveal_strlit("6");
        reveal_strlit("7");
        reveal_strlit("8");
        reveal_strlit("9");
    }
    let s: &'static str = match d {
        0 => "0",
        1 => "1",
        2 => "2",
        3 => "3",
        4 => "4",
        5 => "5",
        6 => "6",
        7 => "7",
        8 => "8",
        _ => "9",
    };
    assert(s@ =~= seq![digit_char(d as int)]);
    s
}

pub fn append_decimal(out: &mut String, n: u128)
    ensures
        final(out)@ == old(out)@ + decimal(n as int),
    decreases n,
{
    if n >= 10 {
        append_decimal(out, n / 10);
        out.append(digit_text((n % 10) as u8));
        assert(out@ =~= old(out)@ + decimal(n as int));
    } else {
        out.append(digit_text(n as u8));
    }
}

pub fn append_padded(out: &mut String, n: u128, width: u32)
    ensures
        final(out)@ == old(out)@ + padded(n as int, width as nat),
    decreases width,
{
    if width > 0 {
        append_padded(out, n / 10, width - 1);
        out.append(digit_text((n % 10) as u8));
    }
    assert(out@ =~= old(out)@ + padded(n as int, width as nat));
}

/// A number that is written is read back.
pub proof fn law_decimal_reads_back(n: int)
    requires
        n >= 0,
    ensures
        all_digits(decimal(n)),
        unsigned_number(decimal(n)) == Some(n),
    decreases n,
{
    lemma_decimal_digits(n);
    let s = decimal(n);
    assert(s.len() > 0 && is_digit(s[0]));
}

proof fn lemma_decimal_digits(n: int)
    requires
        n >= 0,
    ensures
        decimal(n).len() > 0,
        all_digits(decimal(n)),
        digits_value(decimal(n)) == n,
    decreases n,
{
    if n < 10 {
        let s = decimal(n);
        assert(s.drop_last() =~= Seq::empty());
        assert(digit_value(s.last()) == n);
        assert(digits_value(s.drop_last()) == 0);
    } else {
        lemma_decimal_digits(n / 10);
        let s = decimal(n);
        assert(s.drop_last() =~= decimal(n / 10));
        assert(digit_value(s.last()) == n % 10);
        assert forall|i: int| 0 <= i < s.len() implies is_digit(#[trigger] s[i]) by {
            if i < s.len() - 1 {
                assert(s[i] == decimal(n / 10)[i]);
            }
        }
    }
}

} // verus!
