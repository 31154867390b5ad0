use vstd::prelude::*;
use vstd::arithmetic::power::pow;

verus! {

/// Big-endian value of a byte string.
pub open spec fn be_value(s: Seq<u8>) -> nat
    decreases s.len(),
{
    if s.len() == 0 {
        0
    } else {
        be_value(s.drop_last()) * 256 + s.last() as nat
    }
}

/// The version nibble of a UUID held as a big-endian `u128`.
pub open spec fn uuid_version(v: u128) -> int {
    (v as int / 0x1000_0000_0000_0000_0000int) % 16
}

/// The two variant bits of a UUID held as a big-endian `u128`.
pub open spec fn uuid_variant(v: u128) -> int {
    (v as int / 0x4000_0000_0000_0000int) % 4
}

/// The nil UUID.
pub open spec fn nil_uuid() -> u128 {
    0
}

/// Calls `uuid::Uuid::new_v4` and returns its value as a big-endian `u128`.
/// The crate draws the bits at random and then forces the version nibble
/// to 4 and the variant bits to `10`; only those two facts are claimed.
#[verifier::external_body]
pub fn random_uuid() -> (r: u128)
    ensures
        uuid_version(r) == 4,
        uuid_variant(r) == 2,
{
    uuid::Uuid::new_v4().as_u128()
}

/// Calls `uuid::Uuid::from_slice`: it succeeds exactly on 16-byte input and
/// reads the bytes in big-endian order.
#[verifier::external_body]
pub fn uuid_from_slice(b: &[u8]) -> (r: Option<u128>)
    ensures
        r is Some <==> b@.len() == 16,
        r matches Some(v) ==> v as nat == be_value(b@),
{
    match uuid::Uuid::from_slice(b) {
        Ok(u) => Some(u.as_u128()),
        Err(_) => None,
    }
}

/// Calls `uuid::Uuid::as_bytes` on the UUID with value `v`: the sixteen
/// bytes of `v` in big-endian order.
#[verifier::external_body]
pub fn uuid_to_bytes(v: u128) -> (r: Vec<u8>)
    ensures
        r@.len() == 16,
        be_value(r@) == v as nat,
{
    uuid::Uuid::from_u128(v).as_bytes().to_vec()
}

/// Lowercase hexadecimal digit of value `d` (0 to 15).
pub open spec fn hex_digit(d: int) -> char {
    if d < 10 {
        (48 + d) as char
    } else {
        (87 + d) as char
    }
}

/// The `k`-th of the 32 hexadecimal digits of `v`, most significant first.
pub open spec fn nibble(v: u128, k: int) -> int {
    (v as int / pow(16, (31 - k) as nat)) % 16
}

/// Which hexadecimal digit stands at position `i` of the hyphenated text.
pub open spec fn text_digit_index(i: int) -> int {
    if i < 8 {
        i
    } else if i < 13 {
        i - 1
    } else if i < 18 {
        i - 2
    } else if i < 23 {
        i - 3
    } else {
        i - 4
    }
}

/// The hyphenated lowercase text of a UUID: 8-4-4-4-12 hexadecimal digits.
pub open spec fn uuid_text(v: u128) -> Seq<char> {
    Seq::new(
        36,
        |i: int|
            if i == 8 || i == 13 || i == 18 || i == 23 {
                '-'
            } else {
                hex_digit(nibble(v, text_digit_index(i)))
            },
    )
}

/// Calls `uuid::Uuid::to_string`, which writes the hyphenated lowercase form.
#[verifier::external_body]
pub fn uuid_to_text(v: u128) -> (r: String)
    ensures
        r@ == uuid_text(v),
{
    uuid::Uuid::from_u128(v).to_string()
}

/// A freshly drawn UUID is never nil.
pub proof fn lemma_random_uuid_not_nil(v: u128)
    requires
        uuid_version(v) == 4,
    ensures
        v != nil_uuid(),
{
}

} // verus!
