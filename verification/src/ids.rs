//! UUIDs from the `uuid` crate: fresh random ones, and their text.

use vstd::prelude::*;
use crate::text::hex2;
use crate::wire::be_u128;

verus! {

/// The octets of `octets` from index `from` up to `to`, each as two
/// lower-case hexadecimal digits.
pub open spec fn hex_run(octets: Seq<u8>, from: int, to: int) -> Seq<char>
    decreases to - from,
{
    if from >= to {
        Seq::empty()
    } else {
        hex2(octets[from]) + hex_run(octets, from + 1, to)
    }
}

/// The text of the UUID with the given 128 bits: its sixteen octets, most
/// significant first, as 32 lower-case hexadecimal digits in groups of 8,
/// 4, 4, 4 and 12, with hyphens between the groups.
pub open spec fn uuid_hyphenated(bits: u128) -> Seq<char> {
    let octets = be_u128(bits);
    hex_run(octets, 0, 4) + seq!['-'] + hex_run(octets, 4, 6) + seq!['-'] + hex_run(octets, 6, 8)
        + seq!['-'] + hex_run(octets, 8, 10) + seq!['-'] + hex_run(octets, 10, 16)
}

/// The text of a UUID has 36 characters.
pub proof fn lemma_uuid_text_len(bits: u128)
    ensures
        uuid_hyphenated(bits).len() == 36,
{
    reveal_with_fuel(hex_run, 8);
    let octets = be_u128(bits);
    assert(hex_run(octets, 0, 4).len() == 8);
    assert(hex_run(octets, 4, 6).len() == 4);
    assert(hex_run(octets, 6, 8).len() == 4);
    assert(hex_run(octets, 8, 10).len() == 4);
    assert(hex_run(octets, 10, 16).len() == 12);
}

/// `Uuid::from_u128` and then `to_string`: the hyphenated lower-case text
/// of the UUID with the given bits.
#[verifier::external_body]
pub(crate) fn uuid_to_string(bits: u128) -> (text: String)
    ensures
        text@ == uuid_hyphenated(bits),
{
    uuid::Uuid::from_u128(bits).to_string()
}

/// `Uuid::new_v4` and then `as_u128`: the bits of a fresh random UUID.
/// Nothing is claimed of them: two calls may give any two values.
#[verifier::external_body]
pub(crate) fn new_uuid_bits() -> u128 {
    uuid::Uuid::new_v4().as_u128()
}

/// The text of a fresh random UUID.
pub fn new_uuid_text() -> (text: String)
    ensures
        exists|bits: u128| text@ == uuid_hyphenated(bits),
        text@.len() == 36,
{
    let bits = new_uuid_bits();
    proof {
        lemma_uuid_text_len(bits);
    }
    uuid_to_string(bits)
}

} // verus!
