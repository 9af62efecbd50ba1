//! Random identifiers, from the `uuid` crate.
use uuid::Uuid;
use vstd::prelude::*;

verus! {

/// A hexadecimal digit, in lower case.
pub open spec fn is_hex(c: char) -> bool {
    ('0' <= c && c <= '9') || ('a' <= c && c <= 'f')
}

/// The text form of a random identifier: 32 hexadecimal digits in groups of 8, 4, 4,
/// 4 and 12, of which the third starts with the version, a 4, and the fourth with the
/// variant.
pub open spec fn is_id(s: Seq<char>) -> bool {
    &&& s.len() == 36
    &&& forall|i: int|
        0 <= i < 36 ==> if i == 8 || i == 13 || i == 18 || i == 23 {
            #[trigger] s[i] == '-'
        } else {
            is_hex(s[i])
        }
    &&& s[14] == '4'
    &&& s[19] == '8' || s[19] == '9' || s[19] == 'a' || s[19] == 'b'
}

/// `Uuid::new_v4` as text, by its `Display`: hyphenated and in lower case. Which
/// digits come is left to chance.
#[verifier::external_body]
fn random_uuid_text() -> (r: String)
    ensures
        is_id(r@),
{
    Uuid::new_v4().to_string()
}

/// The bytes of `Uuid::new_v4`: 16 of them, with the version and the variant of a
/// random identifier in the seventh and the ninth. The rest is left to chance.
#[verifier::external_body]
fn random_uuid_bytes() -> (r: Vec<u8>)
    ensures
        r@.len() == 16,
        r@[6] / 16 == 4,
        r@[8] / 64 == 2,
{
    Uuid::new_v4().as_bytes().to_vec()
}

/// A fresh identifier of a session, a connection or a request.
pub fn new_id() -> (r: String)
    ensures
        is_id(r@),
{
    random_uuid_text()
}

/// Fresh bytes for a ping that only its own answer repeats.
pub fn new_probe() -> (r: Vec<u8>)
    ensures
        r@.len() == 16,
        r@[6] / 16 == 4,
        r@[8] / 64 == 2,
{
    random_uuid_bytes()
}

} // verus!
