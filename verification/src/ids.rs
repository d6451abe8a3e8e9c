//! Freshly minted identifiers.

use vstd::prelude::*;

verus! {

/// A lowercase hexadecimal digit.
pub open spec fn hex_digit(c: char) -> bool {
    '0' <= c <= '9' || 'a' <= c <= 'f'
}

/// `uuid::Uuid::new_v4` in its simple form. The bits are random; every outcome is
/// 32 lowercase hexadecimal digits.
#[verifier::external_body]
pub(crate) fn random_simple() -> (r: String)
    ensures
        r@.len() == 32,
        forall|i: int| 0 <= i < 32 ==> hex_digit(#[trigger] r@[i]),
{
    uuid::Uuid::new_v4().simple().to_string()
}

/// `uuid::Uuid::new_v4` in its hyphenated form. The bits are random; every outcome
/// is 32 lowercase hexadecimal digits in groups of 8, 4, 4, 4 and 12 with a hyphen
/// between each two groups.
#[verifier::external_body]
pub(crate) fn random_hyphenated() -> (r: String)
    ensures
        r@.len() == 36,
        forall|i: int|
            0 <= i < 36 ==> if i == 8 || i == 13 || i == 18 || i == 23 {
                #[trigger] r@[i] == '-'
            } else {
                hex_digit(r@[i])
            },
{
    uuid::Uuid::new_v4().to_string()
}

} // verus!
