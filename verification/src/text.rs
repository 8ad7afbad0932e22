//! Sequences of characters: what the translator needs to take a line apart.
//!
//! Source text is read as a sequence of Unicode characters. Whitespace is the
//! Unicode property of that name. Letters and digits are those of ASCII and,
//! beyond ASCII, what the standard library takes for them; everything else
//! here is proved.

use vstd::prelude::*;

verus! {

/// Whether a character is whitespace: whether it is one of the 25 characters
/// with the Unicode property `White_Space`.
pub open spec fn char_is_whitespace(c: char) -> bool {
    ||| '\u{9}' <= c <= '\u{d}'
    ||| c == ' '
    ||| c == '\u{85}'
    ||| c == '\u{a0}'
    ||| c == '\u{1680}'
    ||| '\u{2000}' <= c <= '\u{200a}'
    ||| c == '\u{2028}'
    ||| c == '\u{2029}'
    ||| c == '\u{202f}'
    ||| c == '\u{205f}'
    ||| c == '\u{3000}'
}

/// Whether a character is one of the 128 characters of ASCII.
pub open spec fn is_ascii(c: char) -> bool {
    c <= '\u{7f}'
}

/// Whether a character is one of the letters `a` to `z` and `A` to `Z`.
pub open spec fn is_ascii_letter(c: char) -> bool {
    'a' <= c <= 'z' || 'A' <= c <= 'Z'
}

/// What `char::is_alphabetic` returns for a character.
pub uninterp spec fn unicode_alphabetic(c: char) -> bool;

/// What `char::is_alphanumeric` returns for a character.
pub uninterp spec fn unicode_alphanumeric(c: char) -> bool;

/// Whether a character is a letter. Within ASCII the letters are `a` to `z`
/// and `A` to `Z`; beyond it the standard library decides.
pub open spec fn char_is_alphabetic(c: char) -> bool {
    if is_ascii(c) {
        is_ascii_letter(c)
    } else {
        unicode_alphabetic(c)
    }
}

/// Whether a character is a letter or a digit. Within ASCII these are the
/// letters and the digits `0` to `9`; beyond it the standard library decides.
pub open spec fn char_is_alphanumeric(c: char) -> bool {
    if is_ascii(c) {
        is_ascii_letter(c) || is_decimal_digit(c)
    } else {
        unicode_alphanumeric(c)
    }
}

/// `char::is_whitespace`: whether the character has the Unicode property
/// `White_Space`. The contract lists the characters that have it: the
/// controls U+0009 to U+000D, the space, U+0085, U+00A0, U+1680, U+2000 to
/// U+200A, U+2028, U+2029, U+202F, U+205F and U+3000.
#[verifier::external_body]
pub(crate) fn is_whitespace(c: char) -> (answer: bool)
    ensures
        answer == char_is_whitespace(c),
{
    c.is_whitespace()
}

/// `char::is_alphabetic`: whether the character has the Unicode property
/// `Alphabetic`. The contract says which characters of ASCII have it, the 52
/// letters, and names the answer for every other character.
#[verifier::external_body]
pub(crate) fn is_alphabetic(c: char) -> (answer: bool)
    ensures
        is_ascii(c) ==> answer == is_ascii_letter(c),
        !is_ascii(c) ==> answer == unicode_alphabetic(c),
{
    c.is_alphabetic()
}

/// `char::is_alphanumeric`: whether the character is a letter or a number in
/// the sense of Unicode. The contract says which characters of ASCII are, the
/// 52 letters and the ten digits, and names the answer for every other
/// character.
#[verifier::external_body]
pub(crate) fn is_alphanumeric(c: char) -> (answer: bool)
    ensures
        is_ascii(c) ==> answer == (is_ascii_letter(c) || is_decimal_digit(c)),
        !is_ascii(c) ==> answer == unicode_alphanumeric(c),
{
    c.is_alphanumeric()
}

/// `String::from_iter` over the characters of a slice: the string that holds
/// exactly these characters, in this order.
#[verifier::external_body]
pub(crate) fn string_of(chars: &[char]) -> (text: String)
    ensures
        text@ == chars@,
{
    String::from_iter(chars.iter())
}

/// The characters of a string.
pub(crate) fn to_chars(text: &str) -> (chars: Vec<char>)
    ensures
        chars@ == text@,
{
    let mut chars: Vec<char> = Vec::new();
    for c in it: text.chars()
        invariant
            chars@ == it.seq().take(it.index() as int),
            it.seq() == text@,
    {
        chars.push(c);
    }
    chars
}

/// The number of whitespace characters that a text begins with.
pub open spec fn leading_whitespace(text: Seq<char>) -> nat
    decreases text.len(),
{
    if text.len() > 0 && char_is_whitespace(text[0]) {
        1 + leading_whitespace(text.drop_first())
    } else {
        0
    }
}

/// The number of whitespace characters that a text ends with.
pub open spec fn trailing_whitespace(text: Seq<char>) -> nat
    decreases text.len(),
{
    if text.len() > 0 && char_is_whitespace(text.last()) {
        1 + trailing_whitespace(text.drop_last())
    } else {
        0
    }
}

/// The text without the whitespace that it begins with.
pub open spec fn trim_start(text: Seq<char>) -> Seq<char> {
    text.skip(leading_whitespace(text) as int)
}

/// The text without the whitespace that it ends with.
pub open spec fn trim_end(text: Seq<char>) -> Seq<char> {
    text.take(text.len() - trailing_whitespace(text))
}

/// The text without the whitespace around it.
pub open spec fn trim(text: Seq<char>) -> Seq<char> {
    trim_end(trim_start(text))
}

/// The index of the first occurrence of a character, or the length of the
/// text where it does not occur.
pub open spec fn position(text: Seq<char>, wanted: char) -> int
    decreases text.len(),
{
    if text.len() == 0 || text[0] == wanted {
        0
    } else {
        1 + position(text.drop_first(), wanted)
    }
}

/// The index of the first whitespace character, or the length of the text
/// where it has none.
pub open spec fn whitespace_position(text: Seq<char>) -> int
    decreases text.len(),
{
    if text.len() == 0 || char_is_whitespace(text[0]) {
        0
    } else {
        1 + whitespace_position(text.drop_first())
    }
}

/// How often a character occurs in a text.
pub open spec fn occurrences(text: Seq<char>, wanted: char) -> nat
    decreases text.len(),
{
    if text.len() == 0 {
        0
    } else if text[0] == wanted {
        1 + occurrences(text.drop_first(), wanted)
    } else {
        occurrences(text.drop_first(), wanted)
    }
}

/// Whether every character of a text is a letter or a digit.
pub open spec fn all_alphanumeric(text: Seq<char>) -> bool {
    forall|i: int| 0 <= i < text.len() ==> char_is_alphanumeric(#[trigger] text[i])
}

/// Whether a character is one of the ten decimal digits.
pub open spec fn is_decimal_digit(c: char) -> bool {
    '0' <= c <= '9'
}

/// The lower-case form of one of the letters `A` to `Z`; any other character itself.
pub open spec fn lower(c: char) -> char {
    if 'A' <= c <= 'Z' {
        ((c as u8) + 32) as char
    } else {
        c
    }
}

/// The text with each of the letters `A` to `Z` in lower case.
pub open spec fn lowercase(text: Seq<char>) -> Seq<char> {
    text.map_values(|c: char| lower(c))
}

/// The leading whitespace is part of the text; the characters in it are
/// whitespace, and the character behind it, if there is one, is not.
pub proof fn lemma_leading_whitespace(text: Seq<char>)
    ensures
        leading_whitespace(text) <= text.len(),
        forall|i: int| 0 <= i < leading_whitespace(text) ==> char_is_whitespace(#[trigger] text[i]),
        leading_whitespace(text) < text.len() ==> !char_is_whitespace(
            text[leading_whitespace(text) as int],
        ),
    decreases text.len(),
{
    if text.len() > 0 && char_is_whitespace(text[0]) {
        let rest = text.drop_first();
        lemma_leading_whitespace(rest);
        assert forall|i: int| 0 <= i < leading_whitespace(text) implies char_is_whitespace(
            #[trigger] text[i],
        ) by {
            if i > 0 {
                assert(text[i] == rest[i - 1]);
            }
        }
    }
}

/// The trailing whitespace is part of the text; the characters in it are
/// whitespace, and the character before it, if there is one, is not.
pub proof fn lemma_trailing_whitespace(text: Seq<char>)
    ensures
        trailing_whitespace(text) <= text.len(),
        forall|i: int|
            text.len() - trailing_whitespace(text) <= i < text.len() ==> char_is_whitespace(
                #[trigger] text[i],
            ),
        trailing_whitespace(text) < text.len() ==> !char_is_whitespace(
            text[text.len() - trailing_whitespace(text) - 1],
        ),
    decreases text.len(),
{
    if text.len() > 0 && char_is_whitespace(text.last()) {
        let rest = text.drop_last();
        lemma_trailing_whitespace(rest);
        assert forall|i: int|
            text.len() - trailing_whitespace(text) <= i < text.len() implies char_is_whitespace(
            #[trigger] text[i],
        ) by {
            if i < text.len() - 1 {
                assert(text[i] == rest[i]);
            }
        }
    }
}

/// Trimming gives a part of the text.
pub proof fn lemma_trim_length(text: Seq<char>)
    ensures
        trim(text).len() <= text.len(),
{
    lemma_leading_whitespace(text);
    lemma_trailing_whitespace(trim_start(text));
}

/// The position of a character is within the text or at its end; the
/// character does not occur before it, and stands at it unless it is the end.
pub proof fn lemma_position(text: Seq<char>, wanted: char)
    ensures
        0 <= position(text, wanted) <= text.len(),
        forall|i: int| 0 <= i < position(text, wanted) ==> #[trigger] text[i] != wanted,
        position(text, wanted) < text.len() ==> text[position(text, wanted)] == wanted,
    decreases text.len(),
{
    if !(text.len() == 0 || text[0] == wanted) {
        let rest = text.drop_first();
        lemma_position(rest, wanted);
        assert forall|i: int| 0 <= i < position(text, wanted) implies #[trigger] text[i]
            != wanted by {
            if i > 0 {
                assert(text[i] == rest[i - 1]);
            }
        }
    }
}

/// The position of the first whitespace is within the text or at its end; no
/// character before it is whitespace, and the one at it is, unless it is the end.
pub proof fn lemma_whitespace_position(text: Seq<char>)
    ensures
        0 <= whitespace_position(text) <= text.len(),
        forall|i: int|
            0 <= i < whitespace_position(text) ==> !char_is_whitespace(#[trigger] text[i]),
        whitespace_position(text) < text.len() ==> char_is_whitespace(
            text[whitespace_position(text)],
        ),
    decreases text.len(),
{
    if !(text.len() == 0 || char_is_whitespace(text[0])) {
        let rest = text.drop_first();
        lemma_whitespace_position(rest);
        assert forall|i: int| 0 <= i < whitespace_position(text) implies !char_is_whitespace(
            #[trigger] text[i],
        ) by {
            if i > 0 {
                assert(text[i] == rest[i - 1]);
            }
        }
    }
}

/// A character that occurs in a text has a position within it.
pub proof fn lemma_occurring_character(text: Seq<char>, wanted: char)
    requires
        occurrences(text, wanted) > 0,
    ensures
        0 <= position(text, wanted) < text.len(),
    decreases text.len(),
{
    if text.len() > 0 && text[0] != wanted {
        lemma_occurring_character(text.drop_first(), wanted);
    }
}

/// The part of a slice from one index to another.
pub(crate) fn part(chars: &[char], from: usize, to: usize) -> (piece: &[char])
    requires
        from <= to <= chars@.len(),
    ensures
        piece@ == chars@.subrange(from as int, to as int),
{
    &chars[from..to]
}

/// Counts the whitespace that a text begins with.
pub(crate) fn count_leading_whitespace(chars: &[char]) -> (count: usize)
    ensures
        count == leading_whitespace(chars@),
        count <= chars@.len(),
{
    let mut index: usize = 0;
    assert(chars@.skip(0) =~= chars@);
    while index < chars.len() && is_whitespace(chars[index])
        invariant
            index <= chars.len(),
            leading_whitespace(chars@) == index + leading_whitespace(chars@.skip(index as int)),
        decreases chars.len() - index,
    {
        assert(chars@.skip(index as int).drop_first() =~= chars@.skip(index + 1));
        index += 1;
    }
    index
}

/// Counts the whitespace that a text ends with.
pub(crate) fn count_trailing_whitespace(chars: &[char]) -> (count: usize)
    ensures
        count == trailing_whitespace(chars@),
        count <= chars@.len(),
{
    let length = chars.len();
    let mut count: usize = 0;
    assert(chars@.take(length as int) =~= chars@);
    while count < length && is_whitespace(chars[length - count - 1])
        invariant
            length == chars.len(),
            count <= length,
            trailing_whitespace(chars@) == count + trailing_whitespace(
                chars@.take(length - count),
            ),
        decreases length - count,
    {
        assert(chars@.take(length - count).drop_last() =~= chars@.take(length - count - 1));
        count += 1;
    }
    count
}

/// The text without the whitespace that it begins with.
pub(crate) fn trimmed_start(chars: &[char]) -> (rest: &[char])
    ensures
        rest@ == trim_start(chars@),
{
    let start = count_leading_whitespace(chars);
    part(chars, start, chars.len())
}

/// The text without the whitespace around it.
pub(crate) fn trimmed(chars: &[char]) -> (rest: &[char])
    ensures
        rest@ == trim(chars@),
{
    let inner = trimmed_start(chars);
    let end = inner.len() - count_trailing_whitespace(inner);
    part(inner, 0, end)
}

/// Finds the first occurrence of a character.
pub(crate) fn find(chars: &[char], wanted: char) -> (index: usize)
    ensures
        index == position(chars@, wanted),
        index <= chars@.len(),
{
    let mut index: usize = 0;
    assert(chars@.skip(0) =~= chars@);
    while index < chars.len() && chars[index] != wanted
        invariant
            index <= chars.len(),
            position(chars@, wanted) == index + position(chars@.skip(index as int), wanted),
        decreases chars.len() - index,
    {
        assert(chars@.skip(index as int).drop_first() =~= chars@.skip(index + 1));
        index += 1;
    }
    index
}

/// Finds the first whitespace character.
pub(crate) fn find_whitespace(chars: &[char]) -> (index: usize)
    ensures
        index == whitespace_position(chars@),
        index <= chars@.len(),
{
    let mut index: usize = 0;
    assert(chars@.skip(0) =~= chars@);
    while index < chars.len() && !is_whitespace(chars[index])
        invariant
            index <= chars.len(),
            whitespace_position(chars@) == index + whitespace_position(chars@.skip(index as int)),
        decreases chars.len() - index,
    {
        assert(chars@.skip(index as int).drop_first() =~= chars@.skip(index + 1));
        index += 1;
    }
    index
}

/// Counts the occurrences of a character.
pub(crate) fn count(chars: &[char], wanted: char) -> (total: usize)
    ensures
        total == occurrences(chars@, wanted),
{
    let mut index: usize = 0;
    let mut total: usize = 0;
    assert(chars@.skip(0) =~= chars@);
    while index < chars.len()
        invariant
            index <= chars.len(),
            total <= index,
            occurrences(chars@, wanted) == total + occurrences(chars@.skip(index as int), wanted),
        decreases chars.len() - index,
    {
        assert(chars@.skip(index as int).drop_first() =~= chars@.skip(index + 1));
        if chars[index] == wanted {
            total += 1;
        }
        index += 1;
    }
    total
}

/// Whether every character is a letter or a digit.
pub(crate) fn is_all_alphanumeric(chars: &[char]) -> (answer: bool)
    ensures
        answer == all_alphanumeric(chars@),
{
    let mut index: usize = 0;
    while index < chars.len()
        invariant
            index <= chars.len(),
            forall|i: int| 0 <= i < index ==> char_is_alphanumeric(#[trigger] chars@[i]),
        decreases chars.len() - index,
    {
        if !is_alphanumeric(chars[index]) {
            return false;
        }
        index += 1;
    }
    true
}

/// The lower-case form of one of the letters `A` to `Z`; any other character itself.
pub(crate) fn to_lower(c: char) -> (lowered: char)
    ensures
        lowered == lower(c),
{
    if c >= 'A' && c <= 'Z' {
        ((c as u8) + 32) as char
    } else {
        c
    }
}

/// The text with each of the letters `A` to `Z` in lower case.
pub(crate) fn to_lowercase(chars: &[char]) -> (lowered: Vec<char>)
    ensures
        lowered@ == lowercase(chars@),
{
    let mut lowered: Vec<char> = Vec::new();
    let mut index: usize = 0;
    while index < chars.len()
        invariant
            index <= chars.len(),
            lowered@ == lowercase(chars@.take(index as int)),
        decreases chars.len() - index,
    {
        lowered.push(to_lower(chars[index]));
        index += 1;
    }
    lowered
}

} // verus!
