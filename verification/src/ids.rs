//! The identifier generator.
//!
//! Every node and edge id is produced here: a short type prefix, a hyphen,
//! and a 128-bit random value printed as text.  Callers never construct ids
//! any other way, and ids are assigned once and never reused.

use vstd::prelude::*;

verus! {

/// Relies on `uuid::Uuid::new_v4` and its hyphenated text form: a random
/// version-4 UUID always prints as 36 characters — 32 lowercase
/// hexadecimal digits in five hyphen-separated groups.  The digits are
/// random, so nothing more is promised about them.
#[verifier::external_body]
fn random_uuid_text() -> (r: String)
    ensures
        r@.len() == 36,
        r@[8] == '-' && r@[13] == '-' && r@[18] == '-' && r@[23] == '-',
        forall|i: int|
            0 <= i < 36 && i != 8 && i != 13 && i != 18 && i != 23
                ==> crate::secrets::hex_chars().contains(#[trigger] r@[i]),
{
    uuid::Uuid::new_v4().to_string()
}

/// Returns `"{prefix}-{128-bit-random-value-as-text}"`.
///
/// The result always begins with the prefix followed by a hyphen, and its
/// total length is the prefix length plus 1 plus 36.  There is no error
/// path; the collision probability of the random part is treated as
/// effectively zero (a collision is still detected by the repository, which
/// never overwrites an existing row).
pub fn new_id(prefix: &str) -> (r: String)
    ensures
        r@.len() == prefix@.len() + 37,
        r@.subrange(0, prefix@.len() as int) == prefix@,
        r@[prefix@.len() as int] == '-',
{
    let mut out = prefix.to_owned();
    out.append("-");
    let tail = random_uuid_text();
    out.append(tail.as_str());
    proof {
        reveal_strlit("-");
        assert(out@.subrange(0, prefix@.len() as int) =~= prefix@);
    }
    out
}

} // verus!
