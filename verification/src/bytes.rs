//! Scanning and comparing runs of bytes.

use vstd::prelude::*;
use vstd::string::*;

verus! {

/// The byte `[`.
pub const BRACKET_OPEN: u8 = 91;

/// The byte `]`.
pub const BRACKET_CLOSE: u8 = 93;

/// The byte `=`.
pub const EQUALS_SIGN: u8 = 61;

/// The byte `+`.
pub const PLUS_SIGN: u8 = 43;

/// The byte `-`.
pub const MINUS_SIGN: u8 = 45;

/// The byte of a blank.
pub const BLANK: u8 = 32;

/// The byte of the digit 0; the other digits follow it in order.
pub const DIGIT_ZERO: u8 = 48;

/// The bytes of a text of ASCII characters: one byte for each character.
pub open spec fn spec_ascii(text: Seq<char>) -> Seq<u8> {
    Seq::new(text.len(), |i: int| text[i] as u8)
}

/// Whether the byte is a blank, a tab, a line feed or a carriage return.
pub open spec fn spec_is_space(byte: u8) -> bool {
    byte == 32 || byte == 9 || byte == 10 || byte == 13
}

/// Whether the byte is a decimal digit.
pub open spec fn spec_is_digit(byte: u8) -> bool {
    48 <= byte <= 57
}

/// Position of the first `byte` at or after `from`, or the length of the
/// bytes where there is none.
pub open spec fn spec_find(bytes: Seq<u8>, from: int, byte: u8) -> int
    decreases bytes.len() - from,
{
    if from < 0 || from >= bytes.len() {
        bytes.len() as int
    } else if bytes[from] == byte {
        from
    } else {
        spec_find(bytes, from + 1, byte)
    }
}

/// Position of the first byte at or after `from` that is not a space, or
/// the length of the bytes where only spaces follow.
pub open spec fn spec_skip_spaces(bytes: Seq<u8>, from: int) -> int
    decreases bytes.len() - from,
{
    if from < 0 || from >= bytes.len() {
        bytes.len() as int
    } else if !spec_is_space(bytes[from]) {
        from
    } else {
        spec_skip_spaces(bytes, from + 1)
    }
}

/// Position of the first space at or after `from`, or the length of the
/// bytes where none follows.
pub open spec fn spec_word_end(bytes: Seq<u8>, from: int) -> int
    decreases bytes.len() - from,
{
    if from < 0 || from >= bytes.len() {
        bytes.len() as int
    } else if spec_is_space(bytes[from]) {
        from
    } else {
        spec_word_end(bytes, from + 1)
    }
}

/// What is found lies at or after the place where the search began.
pub proof fn lemma_find_bounds(bytes: Seq<u8>, from: int, byte: u8)
    requires
        0 <= from <= bytes.len(),
    ensures
        from <= spec_find(bytes, from, byte) <= bytes.len(),
        spec_find(bytes, from, byte) < bytes.len() ==> bytes[spec_find(bytes, from, byte)] == byte,
    decreases bytes.len() - from,
{
    if from < bytes.len() && bytes[from] != byte {
        lemma_find_bounds(bytes, from + 1, byte);
    }
}

/// A run of spaces ends at or after the place where it begins.
pub proof fn lemma_skip_spaces_bounds(bytes: Seq<u8>, from: int)
    requires
        0 <= from <= bytes.len(),
    ensures
        from <= spec_skip_spaces(bytes, from) <= bytes.len(),
        spec_skip_spaces(bytes, from) < bytes.len() ==> !spec_is_space(
            bytes[spec_skip_spaces(bytes, from)],
        ),
    decreases bytes.len() - from,
{
    if from < bytes.len() && spec_is_space(bytes[from]) {
        lemma_skip_spaces_bounds(bytes, from + 1);
    }
}

/// A word ends at or after the place where it begins, and after it where it
/// begins with a byte that is no space.
pub proof fn lemma_word_end_bounds(bytes: Seq<u8>, from: int)
    requires
        0 <= from <= bytes.len(),
    ensures
        from <= spec_word_end(bytes, from) <= bytes.len(),
        from < bytes.len() && !spec_is_space(bytes[from]) ==> from < spec_word_end(bytes, from),
    decreases bytes.len() - from,
{
    if from < bytes.len() && !spec_is_space(bytes[from]) {
        lemma_word_end_bounds(bytes, from + 1);
    }
}

/// Whether the byte is a blank, a tab, a line feed or a carriage return.
pub fn is_space(byte: u8) -> (space: bool)
    ensures
        space == spec_is_space(byte),
{
    byte == 32 || byte == 9 || byte == 10 || byte == 13
}

/// Whether the byte is a decimal digit.
pub fn is_digit(byte: u8) -> (digit: bool)
    ensures
        digit == spec_is_digit(byte),
{
    48 <= byte && byte <= 57
}

/// Position of the first `byte` at or after `from`, or the length of the
/// bytes where there is none.
pub fn find_byte(bytes: &[u8], from: usize, byte: u8) -> (found: usize)
    requires
        from <= bytes@.len(),
    ensures
        found == spec_find(bytes@, from as int, byte),
        from <= found <= bytes@.len(),
        found < bytes@.len() ==> bytes@[found as int] == byte,
{
    let mut at: usize = from;
    while at < bytes.len() && bytes[at] != byte
        invariant
            from <= at <= bytes@.len(),
            spec_find(bytes@, from as int, byte) == spec_find(bytes@, at as int, byte),
        decreases bytes@.len() - at,
    {
        at = at + 1;
    }
    at
}

/// Position of the first byte at or after `from` that is not a space, or
/// the length of the bytes where only spaces follow.
pub fn skip_spaces(bytes: &[u8], from: usize) -> (found: usize)
    requires
        from <= bytes@.len(),
    ensures
        found == spec_skip_spaces(bytes@, from as int),
        from <= found <= bytes@.len(),
        found < bytes@.len() ==> !spec_is_space(bytes@[found as int]),
{
    let mut at: usize = from;
    while at < bytes.len() && is_space(bytes[at])
        invariant
            from <= at <= bytes@.len(),
            spec_skip_spaces(bytes@, from as int) == spec_skip_spaces(bytes@, at as int),
        decreases bytes@.len() - at,
    {
        at = at + 1;
    }
    at
}

/// Position of the first space at or after `from`, or the length of the
/// bytes where none follows.
pub fn word_end(bytes: &[u8], from: usize) -> (found: usize)
    requires
        from <= bytes@.len(),
    ensures
        found == spec_word_end(bytes@, from as int),
        from <= found <= bytes@.len(),
        from < bytes@.len() && !spec_is_space(bytes@[from as int]) ==> from < found,
{
    let mut at: usize = from;
    while at < bytes.len() && !is_space(bytes[at])
        invariant
            from <= at <= bytes@.len(),
            spec_word_end(bytes@, from as int) == spec_word_end(bytes@, at as int),
            from < bytes@.len() && !spec_is_space(bytes@[from as int]) && at < bytes@.len()
                && spec_is_space(bytes@[at as int]) ==> from < at,
        decreases bytes@.len() - at,
    {
        at = at + 1;
    }
    at
}

/// Whether the bytes are those of the given text of ASCII characters.
pub fn is_word(bytes: &[u8], word: &str) -> (same: bool)
    requires
        is_ascii(word),
    ensures
        same == (bytes@ == spec_ascii(word@)),
{
    broadcast use is_ascii_spec_bytes;

    let expected = word.as_bytes();
    if bytes.len() != expected.len() {
        return false;
    }
    let mut at: usize = 0;
    while at < bytes.len()
        invariant
            at <= bytes@.len(),
            bytes@.len() == expected@.len(),
            expected@ == spec_ascii(word@),
            forall|i: int| 0 <= i < at ==> bytes@[i] == expected@[i],
        decreases bytes@.len() - at,
    {
        if bytes[at] != expected[at] {
            return false;
        }
        at = at + 1;
    }
    assert(bytes@ =~= expected@);
    true
}

/// Appends bytes.
pub fn push_bytes(out: &mut Vec<u8>, bytes: &[u8])
    ensures
        final(out)@ == old(out)@ + bytes@,
{
    let mut at: usize = 0;
    while at < bytes.len()
        invariant
            at <= bytes@.len(),
            out@ == old(out)@ + bytes@.subrange(0, at as int),
        decreases bytes@.len() - at,
    {
        out.push(bytes[at]);
        at = at + 1;
    }
    assert(bytes@.subrange(0, at as int) == bytes@);
}

} // verus!
