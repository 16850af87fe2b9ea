//! Validation of free-text descriptions attached to transfers.

use vstd::prelude::*;

verus! {

/// Errors shared by the contracts.
#[derive(Clone, Copy, Debug, PartialEq, Eq, Structural)]
pub enum SharedError {
    /// A value is longer than allowed.
    InvalidLength,
    /// A value holds a character that is not allowed.
    InvalidInput,
}

/// The longest description accepted, in bytes.
pub const MAX_DESCRIPTION_LEN: usize = 256;

/// A byte allowed in a description: an ASCII letter or digit, a space, or
/// one of `. , - _ ! ? '`.
pub open spec fn is_allowed_byte(b: u8) -> bool {
    ||| 0x61 <= b <= 0x7a  // 'a'..='z'
    ||| 0x41 <= b <= 0x5a  // 'A'..='Z'
    ||| 0x30 <= b <= 0x39  // '0'..='9'
    ||| b == 0x20 || b == 0x2e || b == 0x2c || b == 0x2d  // ' ' '.' ',' '-'
    ||| b == 0x5f || b == 0x21 || b == 0x3f || b == 0x27  // '_' '!' '?' '\''
}

/// The verdict on a description: too long, holding a byte that is not
/// allowed, or accepted.
pub open spec fn description_verdict(description: Seq<u8>) -> Result<(), SharedError> {
    if description.len() > MAX_DESCRIPTION_LEN {
        Err(SharedError::InvalidLength)
    } else if exists|i: int| 0 <= i < description.len() && !is_allowed_byte(#[trigger] description[i]) {
        Err(SharedError::InvalidInput)
    } else {
        Ok(())
    }
}

/// Whether `b` may appear in a description.
pub fn allowed_byte(b: u8) -> (r: bool)
    ensures
        r == is_allowed_byte(b),
{
    match b {
        0x61..=0x7a | 0x41..=0x5a | 0x30..=0x39 => true,
        0x20 | 0x2e | 0x2c | 0x2d | 0x5f | 0x21 | 0x3f | 0x27 => true,
        _ => false,
    }
}

/// Checks that a description (the bytes of the text) is at most
/// `MAX_DESCRIPTION_LEN` bytes long and holds only safe, printable ASCII:
/// letters, digits, spaces and basic punctuation.
pub fn sanitize_description(description: &[u8]) -> (r: Result<(), SharedError>)
    ensures
        r == description_verdict(description@),
{
    if description.len() > MAX_DESCRIPTION_LEN {
        return Err(SharedError::InvalidLength);
    }
    let mut i: usize = 0;
    while i < description.len()
        invariant
            i <= description@.len(),
            description@.len() <= MAX_DESCRIPTION_LEN,
            forall|j: int| 0 <= j < i ==> is_allowed_byte(#[trigger] description@[j]),
        decreases description@.len() - i,
    {
        if !allowed_byte(description[i]) {
            assert(!is_allowed_byte(description@[i as int]));
            return Err(SharedError::InvalidInput);
        }
        i = i + 1;
    }
    Ok(())
}

/// An ASCII letter or digit.
pub open spec fn is_ascii_alphanumeric(b: u8) -> bool {
    ('a' as u8 <= b && b <= 'z' as u8) || ('A' as u8 <= b && b <= 'Z' as u8) || ('0' as u8 <= b && b <= '9' as u8)
}

/// The punctuation a description may hold: space and `. , - _ ! ? '`.
pub open spec fn description_punctuation() -> Seq<u8> {
    seq![' ' as u8, '.' as u8, ',' as u8, '-' as u8, '_' as u8, '!' as u8, '?' as u8, '\'' as u8]
}

proof fn lemma_allowed_is_alphabet(b: u8)
    ensures
        is_allowed_byte(b) <==> (is_ascii_alphanumeric(b) || description_punctuation().contains(b)),
{
    let p = description_punctuation();
    assert(p[0] == 0x20 && p[1] == 0x2e && p[2] == 0x2c && p[3] == 0x2d);
    assert(p[4] == 0x5f && p[5] == 0x21 && p[6] == 0x3f && p[7] == 0x27);
    if b == 0x20 { assert(p[0] == b); }
    if b == 0x2e { assert(p[1] == b); }
    if b == 0x2c { assert(p[2] == b); }
    if b == 0x2d { assert(p[3] == b); }
    if b == 0x5f { assert(p[4] == b); }
    if b == 0x21 { assert(p[5] == b); }
    if b == 0x3f { assert(p[6] == b); }
    if b == 0x27 { assert(p[7] == b); }
}

/// A description is accepted exactly when it is at most
/// `MAX_DESCRIPTION_LEN` bytes long and every byte is an ASCII letter or
/// digit or one of space `. , - _ ! ? '` (so "Rent, March" is accepted);
/// an over-long one is refused for its length whatever it holds, and any
/// other byte (a newline, `<`, `@`, a non-ASCII byte) is refused as input.
pub proof fn law_description_alphabet(d: Seq<u8>)
    ensures
        d.len() > 256 ==> description_verdict(d) == Err::<(), SharedError>(SharedError::InvalidLength),
        d.len() <= 256 && (forall|i: int| 0 <= i < d.len() ==> is_ascii_alphanumeric(#[trigger] d[i])
            || description_punctuation().contains(d[i])) ==> description_verdict(d) == Ok::<(), SharedError>(()),
        d.len() <= 256 && (exists|i: int| 0 <= i < d.len() && !is_ascii_alphanumeric(#[trigger] d[i])
            && !description_punctuation().contains(d[i])) ==> description_verdict(d) == Err::<(), SharedError>(
            SharedError::InvalidInput,
        ),
{
    assert forall|i: int| 0 <= i < d.len() implies is_allowed_byte(#[trigger] d[i]) <==> (is_ascii_alphanumeric(d[i])
        || description_punctuation().contains(d[i])) by {
        lemma_allowed_is_alphabet(d[i]);
    }
}

} // verus!
