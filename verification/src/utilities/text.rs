//! Character-level helpers over `str` and `String`.
use vstd::prelude::*;

verus! {

/// What `str::to_lowercase` makes of a text: its lowercase equivalent by the
/// Unicode rules, which may change the number of characters.
pub uninterp spec fn lowercase(text: Seq<char>) -> Seq<char>;

/// Whether `char::is_alphanumeric` holds of a character.
pub uninterp spec fn alphanumeric(c: char) -> bool;

/// Whether `char::is_whitespace` holds of a character.
pub uninterp spec fn whitespace(c: char) -> bool;

/// `str::to_lowercase` returns the lowercase equivalent of the text as a new
/// `String`; the result is named, not spelled out.
pub assume_specification[ str::to_lowercase ](text: &str) -> (lowered: String)
    ensures
        lowered@ == lowercase(text@),
;

/// `char::is_alphanumeric` tells whether the character is alphabetic or
/// numeric by the Unicode tables.
pub assume_specification[ char::is_alphanumeric ](c: char) -> (b: bool)
    ensures
        b == alphanumeric(c),
;

/// `char::is_whitespace` tells whether the character has the Unicode property
/// `White_Space`.
pub assume_specification[ char::is_whitespace ](c: char) -> (b: bool)
    ensures
        b == whitespace(c),
;

/// `String::push` appends one character.
pub assume_specification[ String::push ](s: &mut String, c: char)
    ensures
        final(s)@ == old(s)@.push(c),
;

/// The texts that a sequence of strings holds.
pub open spec fn texts(strings: Seq<String>) -> Seq<Seq<char>> {
    Seq::new(strings.len(), |i: int| strings[i]@)
}

/// `text` cut at every `separator`: the pieces between separators, in order.
/// There is always one piece more than there are separators, so the pieces
/// may be empty.
pub open spec fn split(text: Seq<char>, separator: char) -> Seq<Seq<char>>
    decreases text.len(),
{
    if text.len() == 0 {
        seq![Seq::empty()]
    } else {
        let before = split(text.drop_last(), separator);
        if text.last() == separator {
            before.push(Seq::empty())
        } else {
            before.drop_last().push(before.last().push(text.last()))
        }
    }
}

/// Value of a run of decimal digits, most significant first.
pub open spec fn decimal(digits: Seq<char>) -> int
    decreases digits.len(),
{
    if digits.len() == 0 {
        0
    } else {
        decimal(digits.drop_last()) * 10 + (digits.last() as int - '0' as int)
    }
}

/// Every character is one of `0` to `9`.
pub open spec fn all_digits(digits: Seq<char>) -> bool {
    forall|i: int| 0 <= i < digits.len() ==> '0' <= #[trigger] digits[i] <= '9'
}

/// The integer that a text spells: an optional `+` or `-`, then one or more
/// ASCII digits, with a value that an `i32` can hold. Anything else spells
/// no integer.
pub open spec fn parse_int(text: Seq<char>) -> Option<i32> {
    let signed = text.len() > 0 && (text[0] == '-' || text[0] == '+');
    let digits = if signed {
        text.skip(1)
    } else {
        text
    };
    let value = if text.len() > 0 && text[0] == '-' {
        -decimal(digits)
    } else {
        decimal(digits)
    };
    if digits.len() > 0 && all_digits(digits) && i32::MIN <= value <= i32::MAX {
        Some(value as i32)
    } else {
        None
    }
}

/// A split always has at least one piece.
pub proof fn lemma_split_nonempty(text: Seq<char>, separator: char)
    ensures
        split(text, separator).len() >= 1,
    decreases text.len(),
{
    if text.len() > 0 {
        lemma_split_nonempty(text.drop_last(), separator);
    }
}

/// Dropping trailing digits never raises the value of a run.
pub proof fn lemma_decimal_prefix(digits: Seq<char>, n: int)
    requires
        all_digits(digits),
        0 <= n <= digits.len(),
    ensures
        0 <= decimal(digits.take(n)) <= decimal(digits),
    decreases digits.len() - n,
{
    lemma_decimal_nonnegative(digits.take(n));
    if n < digits.len() {
        lemma_decimal_prefix(digits, n + 1);
        assert(digits.take(n + 1).drop_last() =~= digits.take(n));
    } else {
        assert(digits.take(n) =~= digits);
    }
}

/// A run of digits has a value of at least 0.
pub proof fn lemma_decimal_nonnegative(digits: Seq<char>)
    requires
        all_digits(digits),
    ensures
        0 <= decimal(digits),
    decreases digits.len(),
{
    if digits.len() > 0 {
        lemma_decimal_nonnegative(digits.drop_last());
    }
}

/// The characters of `text`, in order.
pub fn chars_of(text: &str) -> (chars: Vec<char>)
    ensures
        chars@ == text@,
{
    let mut chars: Vec<char> = Vec::new();
    for c in it: text.chars()
        invariant
            chars@ == text@.take(it.index() as int),
            it.seq() == text@,
    {
        chars.push(c);
    }
    chars
}

/// Whether `c` occurs in `text`.
pub fn contains_char(text: &str, c: char) -> (found: bool)
    ensures
        found == text@.contains(c),
{
    let chars = chars_of(text);
    let mut i: usize = 0;
    while i < chars.len()
        invariant
            i <= chars.len(),
            chars@ == text@,
            forall|k: int| 0 <= k < i ==> text@[k] != c,
        decreases chars.len() - i,
    {
        if chars[i] == c {
            return true;
        }
        i += 1;
    }
    false
}

/// Cuts `text` at every `separator`.
pub fn split_on(text: &str, separator: char) -> (pieces: Vec<String>)
    ensures
        texts(pieces@) == split(text@, separator),
{
    let mut pieces: Vec<String> = Vec::new();
    let mut current = String::new();
    for c in it: text.chars()
        invariant
            it.seq() == text@,
            texts(pieces@).push(current@) == split(text@.take(it.index() as int), separator),
    {
        proof {
            assert(text@.take(it.index() + 1).drop_last() =~= text@.take(it.index() as int));
        }
        if c == separator {
            pieces.push(current);
            current = String::new();
        } else {
            current.push(c);
        }
    }
    assert(text@.take(text@.len() as int) =~= text@);
    pieces.push(current);
    pieces
}

/// Reads a decimal integer as `str::parse::<i32>` does.
pub fn parse_i32(text: &str) -> (number: Option<i32>)
    ensures
        number == parse_int(text@),
{
    let chars = chars_of(text);
    let n = chars.len();
    if n == 0 {
        return None;
    }
    let negative = chars[0] == '-';
    let start: usize = if chars[0] == '-' || chars[0] == '+' {
        1
    } else {
        0
    };
    if start == n {
        return None;
    }
    let ghost digits = text@.skip(start as int);
    let mut value: i64 = 0;
    let mut i: usize = start;
    while i < n
        invariant
            start <= i <= n,
            n == chars.len(),
            chars@ == text@,
            digits == text@.skip(start as int),
            digits.len() > 0,
            negative == (text@[0] == '-'),
            start == (if text@[0] == '-' || text@[0] == '+' {
                1int
            } else {
                0int
            }),
            all_digits(digits.take(i - start)),
            value == decimal(digits.take(i - start)),
            0 <= value <= 0x8000_0000,
        decreases n - i,
    {
        let c = chars[i];
        proof {
            assert(digits.take(i - start + 1).drop_last() =~= digits.take(i - start));
            assert(digits.take(i - start + 1).last() == c);
        }
        if !('0' <= c && c <= '9') {
            return None;
        }
        let digit: i64 = (c as u32 - '0' as u32) as i64;
        value = value * 10 + digit;
        if value > 0x8000_0000 {
            proof {
                // the digits read so far already exceed every `i32`; more
                // digits cannot lower the value, and a non-digit spells nothing
                assert(text@.skip(0) =~= text@);
                if all_digits(digits) {
                    lemma_decimal_prefix(digits, i - start + 1);
                }
            }
            return None;
        }
        i += 1;
    }
    proof {
        assert(digits.take(i - start) =~= digits);
        assert(text@.skip(0) =~= text@);
    }
    if negative {
        Some((-value) as i32)
    } else if value <= 0x7fff_ffff {
        Some(value as i32)
    } else {
        None
    }
}

} // verus!
