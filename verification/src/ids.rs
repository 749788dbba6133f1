//! Session identifiers: 128-bit UUIDs, held as their number. The `uuid`
//! crate makes them, reads them and writes them.

use vstd::prelude::*;

verus! {

/// The identifier of a session.
#[derive(Clone, Copy, Debug, PartialEq, Eq, Hash)]
pub struct SessionId {
    pub bits: u128,
}

/// Why a text is no UUID.
#[verifier::external_type_specification]
#[verifier::external_body]
pub struct ExUuidError(uuid::Error);

/// The number of the UUID that a text writes, in any of the forms that
/// `Uuid::parse_str` reads; `None` when it writes none.
pub uninterp spec fn uuid_parsed(text: Seq<char>) -> Option<u128>;

/// The lower-case hexadecimal digit of `n`.
pub open spec fn hex_digit(n: nat) -> char {
    if n < 10 {
        ((0x30 + n) as u8) as char
    } else {
        ((0x57 + n) as u8) as char
    }
}

/// The `k`-th of the 32 hexadecimal digits of `bits`, most significant
/// first.
pub open spec fn nibble(bits: u128, k: int) -> nat {
    ((bits >> ((4 * (31 - k)) as u128)) & 0xf) as nat
}

/// Which hexadecimal digit stands at place `i` of the hyphenated form.
pub open spec fn digit_index(i: int) -> int {
    if i < 8 {
        i
    } else if i < 13 {
        i - 1
    } else if i < 18 {
        i - 2
    } else if i < 23 {
        i - 3
    } else {
        i - 4
    }
}

/// The hyphenated lower-case form of a UUID, such as
/// `67e55044-10b1-426f-9247-bb680e5fe0c8`: 32 hexadecimal digits in groups
/// of 8, 4, 4, 4 and 12.
pub open spec fn hyphenated(bits: u128) -> Seq<char> {
    Seq::new(
        36,
        |i: int|
            if i == 8 || i == 13 || i == 18 || i == 23 {
                '-'
            } else {
                hex_digit(nibble(bits, digit_index(i)))
            },
    )
}

/// Whether `bits` carries the marks of a random (version 4) UUID of the
/// RFC variant.
pub open spec fn is_random_uuid(bits: u128) -> bool {
    (bits >> 76u128) & 0xf == 4 && (bits >> 62u128) & 0x3 == 2
}

/// `Uuid::parse_str`, with the UUID taken as its number by `as_u128`: the
/// UUID that `text` writes, or the crate's error when it writes none.
#[verifier::external_body]
fn parse_uuid(text: &str) -> (r: Result<u128, uuid::Error>)
    ensures
        match r {
            Ok(bits) => uuid_parsed(text@) == Some(bits),
            Err(_) => uuid_parsed(text@) is None,
        },
{
    match uuid::Uuid::parse_str(text) {
        Ok(id) => Ok(id.as_u128()),
        Err(e) => Err(e),
    }
}

/// `Uuid::to_string` of the UUID with the number `bits`: its hyphenated
/// lower-case form.
#[verifier::external_body]
fn uuid_text(bits: u128) -> (r: String)
    ensures
        r@ == hyphenated(bits),
{
    uuid::Uuid::from_u128(bits).to_string()
}

/// `Uuid::new_v4`, taken as its number: a random UUID. Only its version
/// and variant marks are known.
#[verifier::external_body]
fn fresh_uuid() -> (bits: u128)
    ensures
        is_random_uuid(bits),
{
    uuid::Uuid::new_v4().as_u128()
}

/// The identifier that a parse of some text gave, if it gave one.
pub open spec fn id_of(parsed: Option<u128>) -> Option<SessionId> {
    match parsed {
        Some(bits) => Some(SessionId { bits: bits }),
        None => None,
    }
}

impl SessionId {
    /// Reads an identifier from `text`; `None` when `text` writes no UUID.
    pub fn parse(text: &str) -> (r: Option<SessionId>)
        ensures
            r == id_of(uuid_parsed(text@)),
    {
        match parse_uuid(text) {
            Ok(bits) => Some(SessionId { bits: bits }),
            Err(_) => None,
        }
    }

    /// The identifier in hyphenated lower-case form; this is the name of
    /// the session's directory.
    pub fn to_text(&self) -> (r: String)
        ensures
            r@ == hyphenated(self.bits),
            r@.len() == 36,
    {
        uuid_text(self.bits)
    }

    /// A new random identifier.
    pub fn fresh() -> (r: SessionId)
        ensures
            is_random_uuid(r.bits),
    {
        SessionId { bits: fresh_uuid() }
    }

    /// Whether two identifiers are the same.
    pub fn same(&self, other: &SessionId) -> (b: bool)
        ensures
            b == (*self == *other),
    {
        self.bits == other.bits
    }
}

} // verus!
