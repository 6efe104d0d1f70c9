//! Identifiers that the platform draws at random: correlation ids and the
//! addresses of app connections.

use vstd::prelude::*;

verus! {

/// Whether a 128-bit value is a UUID of version 4 in the RFC's layout: the
/// version digit is 4 and the two variant bits are `10`.
pub open spec fn is_v4(id: u128) -> bool {
    id & 0xF000_C000_0000_0000_0000u128 == 0x4000_8000_0000_0000_0000u128
}

/// The lower-case hexadecimal digit of a number below sixteen.
pub open spec fn hex_digit(n: int) -> char
    recommends
        0 <= n < 16,
{
    seq!['0', '1', '2', '3', '4', '5', '6', '7', '8', '9', 'a', 'b', 'c', 'd', 'e', 'f'][n]
}

/// The last `count` hexadecimal digits of `n`, the most significant first.
pub open spec fn hex_digits(n: nat, count: nat) -> Seq<char>
    decreases count,
{
    if count == 0 {
        Seq::empty()
    } else {
        hex_digits(n / 16, (count - 1) as nat).push(hex_digit((n % 16) as int))
    }
}

/// The text of a UUID: its 32 lower-case hexadecimal digits, the most
/// significant first, in groups of 8, 4, 4, 4 and 12 with a hyphen between
/// each two.
pub open spec fn uuid_text(id: u128) -> Seq<char> {
    let digits = hex_digits(id as nat, 32);
    digits.subrange(0, 8) + seq!['-'] + digits.subrange(8, 12) + seq!['-'] + digits.subrange(
        12,
        16,
    ) + seq!['-'] + digits.subrange(16, 20) + seq!['-'] + digits.subrange(20, 32)
}

/// `uuid::Uuid::new_v4`, taken as a number by `Uuid::as_u128`: a random
/// value with the version and variant bits of a version 4 UUID. The outside
/// function panics where the system gives it no random bytes.
#[verifier::external_body]
fn new_v4() -> (id: u128)
    ensures
        is_v4(id),
{
    uuid::Uuid::new_v4().as_u128()
}

/// `Display` of `uuid::Uuid` for the UUID of the number `id`
/// (`Uuid::from_u128`): the hyphenated lower-case form, whose digits are
/// those of `id` from the most significant byte on.
#[verifier::external_body]
fn hyphenated(id: u128) -> (text: String)
    ensures
        text@ == uuid_text(id),
{
    uuid::Uuid::from_u128(id).to_string()
}

/// A fresh identifier. Two calls may return different values: nothing but
/// the layout is known of the result.
pub fn fresh_id() -> (id: u128)
    ensures
        is_v4(id),
{
    new_v4()
}

/// The address that stands for the identifier `id`.
pub fn id_address(id: u128) -> (addr: String)
    ensures
        addr@ == uuid_text(id),
{
    hyphenated(id)
}

} // verus!
