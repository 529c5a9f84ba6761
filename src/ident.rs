//! Game identifiers: UUIDs held as 128-bit values.
use vstd::prelude::*;

verus! {

/// Whether `id` has the layout of a random UUID: version 4, RFC 4122 variant.
pub open spec fn is_random_id(id: u128) -> bool {
    (id >> 76u128) & 0xfu128 == 4 && (id >> 62u128) & 3u128 == 2
}

/// The lowercase hexadecimal digits.
pub open spec fn hex_digits() -> Seq<char> {
    seq!['0', '1', '2', '3', '4', '5', '6', '7', '8', '9', 'a', 'b', 'c', 'd', 'e', 'f']
}

/// The last `n` hexadecimal digits of `v`, most significant first.
pub open spec fn hex_text(v: nat, n: nat) -> Seq<char>
    decreases n,
{
    if n == 0 {
        seq![]
    } else {
        hex_text(v / 16, (n - 1) as nat).push(hex_digits()[(v % 16) as int])
    }
}

/// The hyphenated form of an id: 32 hex digits grouped 8-4-4-4-12.
pub open spec fn hyphenated(id: u128) -> Seq<char> {
    let h = hex_text(id as nat, 32);
    h.subrange(0, 8) + seq!['-'] + h.subrange(8, 12) + seq!['-'] + h.subrange(12, 16)
        + seq!['-'] + h.subrange(16, 20) + seq!['-'] + h.subrange(20, 32)
}

/// Relies on uuid::Uuid::new_v4: random bits, with the version field set to 4
/// and the variant field to RFC 4122.
#[verifier::external_body]
fn random_uuid() -> (r: u128)
    ensures
        is_random_id(r),
{
    uuid::Uuid::new_v4().as_u128()
}

/// Relies on uuid's hyphenated Display of `Uuid::from_u128`: the value's 32
/// lowercase hex digits, most significant first, grouped 8-4-4-4-12.
#[verifier::external_body]
pub(crate) fn uuid_text(id: u128) -> (r: String)
    ensures
        r@ == hyphenated(id),
{
    uuid::Uuid::from_u128(id).hyphenated().to_string()
}

/// A fresh identifier for a new game.
pub fn new_game_id() -> (r: u128)
    ensures
        is_random_id(r),
{
    random_uuid()
}

} // verus!
