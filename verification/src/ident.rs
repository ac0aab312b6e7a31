//! Identifiers of batches and of the items in them: random 128-bit values,
//! written on the wire in the usual hyphenated lower-case form.

use vstd::prelude::*;
use vstd::arithmetic::power::pow;

verus! {

/// Length of an identifier's text: 32 hex digits and 4 hyphens.
pub const TEXT_LEN: usize = 36;

/// Lower-case hexadecimal digit for a value below sixteen.
pub open spec fn hex_digit(nibble: int) -> char {
    if nibble < 10 {
        (48 + nibble) as u8 as char
    } else {
        (87 + nibble) as u8 as char
    }
}

/// The `k`-th group of four bits of `bits`, counted from the most significant.
pub open spec fn nibble(bits: u128, k: int) -> int {
    (bits as int / pow(16, (31 - k) as nat)) % 16
}

/// Whether a position of the text holds a hyphen.
pub open spec fn is_hyphen_position(i: int) -> bool {
    i == 8 || i == 13 || i == 18 || i == 23
}

/// Which hex digit stands at a position of the text that holds no hyphen.
pub open spec fn digit_index(i: int) -> int {
    if i < 8 {
        i
    } else if i < 13 {
        i - 1
    } else if i < 18 {
        i - 2
    } else if i < 23 {
        i - 3
    } else {
        i - 4
    }
}

/// Text of an identifier: its 32 hex digits, most significant first, in
/// groups of 8, 4, 4, 4 and 12 with a hyphen between neighbouring groups.
pub open spec fn hyphenated(bits: u128) -> Seq<char> {
    Seq::new(
        36,
        |i: int|
            if is_hyphen_position(i) {
                '-'
            } else {
                hex_digit(nibble(bits, digit_index(i)))
            },
    )
}

/// Marks that every randomly drawn identifier carries: the version digit is
/// 4 and the variant digit is one of 8, 9, a, b.
pub open spec fn is_random_v4(bits: u128) -> bool {
    nibble(bits, 12) == 4 && 8 <= nibble(bits, 16) < 12
}

/// Draws an identifier with `uuid::Uuid::new_v4` and reads it as a number
/// (`as_u128`). Which number comes back is up to the system's random source;
/// the contract claims only the version and variant marks that `new_v4`
/// always sets. Nothing is claimed about two draws being different. Where
/// the system cannot supply random bytes at all, `new_v4` panics.
#[verifier::external_body]
fn random_bits() -> (bits: u128)
    ensures
        is_random_v4(bits),
{
    uuid::Uuid::new_v4().as_u128()
}

/// Formats a number as `uuid::Uuid` displays it (`Uuid::from_u128`, then the
/// `Display` impl, which writes the lower-case hyphenated form). The contract
/// claims that the text is exactly `hyphenated(bits)`: the most significant
/// byte first, two lower-case hex digits for each byte, hyphens after the
/// fourth, sixth, eighth and tenth byte.
#[verifier::external_body]
fn hyphenated_text(bits: u128) -> (text: String)
    ensures
        text@ == hyphenated(bits),
{
    uuid::Uuid::from_u128(bits).to_string()
}

/// Identifier of one batch: the key of its counter and the prefix of the
/// payload of each of its items.
#[derive(Clone, Copy, Debug, PartialEq, Eq, Structural, Hash)]
pub struct BatchId {
    pub bits: u128,
}

/// Identifier of one item of a batch.
#[derive(Clone, Copy, Debug, PartialEq, Eq, Structural, Hash)]
pub struct ItemId {
    pub bits: u128,
}

impl BatchId {
    /// A new random identifier.
    pub fn fresh() -> (id: BatchId)
        ensures
            is_random_v4(id.bits),
    {
        BatchId { bits: random_bits() }
    }

    /// The identifier as it is written in payloads and as a counter key.
    pub fn text(&self) -> (text: String)
        ensures
            text@ == hyphenated(self.bits),
    {
        hyphenated_text(self.bits)
    }
}

impl ItemId {
    /// A new random identifier.
    pub fn fresh() -> (id: ItemId)
        ensures
            is_random_v4(id.bits),
    {
        ItemId { bits: random_bits() }
    }

    /// The identifier as it is written in payloads.
    pub fn text(&self) -> (text: String)
        ensures
            text@ == hyphenated(self.bits),
    {
        hyphenated_text(self.bits)
    }
}

/// An identifier's text is made of hyphens and lower-case hex digits only.
pub proof fn lemma_text_alphabet(bits: u128, i: int)
    requires
        0 <= i < 36,
    ensures
        hyphenated(bits).len() == 36,
        ({
            let c = hyphenated(bits)[i];
            c == '-' || ('0' <= c <= '9') || ('a' <= c <= 'f')
        }),
{
    let n = nibble(bits, digit_index(i));
    assert(0 <= n < 16);
}

} // verus!
