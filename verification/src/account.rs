//! Account identifiers: their format, and comparing them.

use vstd::prelude::*;
use vstd::utf8::encode_utf8;

verus! {

/// A lower-case letter or a digit.
pub open spec fn is_alphanumeric_byte(b: u8) -> bool {
    (0x61 <= b <= 0x7a) || (0x30 <= b <= 0x39)
}

/// One of `-`, `_` and `.`.
pub open spec fn is_separator_byte(b: u8) -> bool {
    b == 0x2d || b == 0x5f || b == 0x2e
}

/// The format of an account identifier: 2 to 64 bytes, each a lower-case
/// letter, a digit or a separator; no separator at either end, and no two
/// separators in a row.
pub open spec fn valid_account_bytes(bytes: Seq<u8>) -> bool {
    &&& 2 <= bytes.len() <= 64
    &&& forall|i: int|
        0 <= i < bytes.len() ==> is_alphanumeric_byte(#[trigger] bytes[i]) || is_separator_byte(
            bytes[i],
        )
    &&& !is_separator_byte(bytes[0])
    &&& !is_separator_byte(bytes[bytes.len() - 1])
    &&& forall|i: int|
        0 <= i < bytes.len() - 1 ==> !(is_separator_byte(#[trigger] bytes[i])
            && is_separator_byte(bytes[i + 1]))
}

/// A string is a valid account identifier when its UTF-8 bytes are.
pub open spec fn valid_account_id(id: Seq<char>) -> bool {
    valid_account_bytes(encode_utf8(id))
}

/// The text at position `i` of a list of identifiers.
pub open spec fn key_at(ids: Seq<String>, i: int) -> Seq<char> {
    ids[i]@
}

/// Calls `near_sdk::env::is_valid_account_id`, which walks the bytes once and
/// accepts exactly the format that `valid_account_bytes` describes. Trusted:
/// the contract restates that function's loop and is not proved against it.
#[verifier::external_body]
fn is_valid_account_id(account_id: &[u8]) -> (valid: bool)
    ensures
        valid == valid_account_bytes(account_id@),
{
    near_sdk::env::is_valid_account_id(account_id)
}

/// Whether `id` has the format of an account identifier.
pub fn is_valid_account(id: &str) -> (valid: bool)
    ensures
        valid == valid_account_id(id@),
{
    is_valid_account_id(id.as_bytes())
}

/// Whether two strings are the same text.
pub fn same_text(a: &str, b: &str) -> (same: bool)
    ensures
        same == (a@ == b@),
{
    let x = a.as_bytes();
    let y = b.as_bytes();
    if x.len() != y.len() {
        return false;
    }
    let n: usize = x.len();
    let mut i: usize = 0;
    while i < n
        invariant
            i <= n,
            n == x@.len(),
            n == y@.len(),
            x@ == encode_utf8(a@),
            y@ == encode_utf8(b@),
            forall|j: int| 0 <= j < i ==> x@[j] == y@[j],
        decreases n - i,
    {
        if x[i] != y[i] {
            return false;
        }
        i += 1;
    }
    proof {
        assert(x@ =~= y@);
        vstd::utf8::encode_utf8_decode_utf8(a@);
        vstd::utf8::encode_utf8_decode_utf8(b@);
    }
    true
}

} // verus!
