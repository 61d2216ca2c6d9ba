use vstd::arithmetic::power::pow;
use vstd::prelude::*;

verus! {

/// Identifies a dimension: the 128-bit value of a UUID.
pub type DimensionId = u128;

/// Identifies a smart object: the 128-bit value of a UUID.
pub type SmartObjectId = u128;

/// The bits that hold a UUID's version number and variant.
pub const UUID_VERSION_VARIANT_MASK: u128 = 0xF000_C000_0000_0000_0000;

/// Those bits in a random (version 4, RFC 4122 variant) UUID.
pub const UUID_V4_PATTERN: u128 = 0x4000_8000_0000_0000_0000;

/// Calls `uuid::Uuid::new_v4` and takes the UUID's 128-bit value. Claimed: only that the
/// version and variant bits are those of a version 4 UUID (`new_v4` sets them over random
/// bits); the other bits are random, so nothing else is stated. `new_v4` panics when the
/// operating system's random source fails; that depends on the machine, not on anything
/// a caller passes, so no `requires` can rule it out.
#[verifier::external_body]
pub(crate) fn new_random_id() -> (id: u128)
    ensures
        id & UUID_VERSION_VARIANT_MASK == UUID_V4_PATTERN,
{
    uuid::Uuid::new_v4().as_u128()
}

/// Lower-case hexadecimal digit for `n` in `0..16`.
pub open spec fn hex_digit(n: int) -> char {
    if n < 10 {
        (('0' as int) + n) as char
    } else {
        (('a' as int) + n - 10) as char
    }
}

/// The 32 hexadecimal digits of `id`, most significant first.
pub open spec fn hex_digits(id: u128) -> Seq<char> {
    Seq::new(32, |i: int| hex_digit(((id as int) / pow(16, (31 - i) as nat)) % 16))
}

/// The hyphenated lower-case text of a UUID: its digits grouped 8-4-4-4-12.
pub open spec fn uuid_text(id: u128) -> Seq<char> {
    let h = hex_digits(id);
    h.subrange(0, 8) + seq!['-'] + h.subrange(8, 12) + seq!['-'] + h.subrange(12, 16) + seq!['-']
        + h.subrange(16, 20) + seq!['-'] + h.subrange(20, 32)
}

/// Formats `uuid::Uuid::from_u128(id)` with its `Display` impl. Claimed, as the uuid
/// crate's formatting code writes it: the hyphenated lower-case form `uuid_text(id)`.
#[verifier::external_body]
pub(crate) fn uuid_to_text(id: u128) -> (s: String)
    ensures
        s@ == uuid_text(id),
{
    uuid::Uuid::from_u128(id).to_string()
}

} // verus!
