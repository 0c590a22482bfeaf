//! Text checks on raw bytes.

use vstd::prelude::*;
use vstd::utf8::valid_utf8;

verus! {

/// The byte strings that a vector of byte vectors holds, in order.
pub open spec fn rows(v: Vec<Vec<u8>>) -> Seq<Seq<u8>> {
    Seq::new(v@.len(), |i: int| v@[i]@)
}

/// Tells whether `bytes` is well-formed UTF-8. Calls `core::str::from_utf8`,
/// which returns `Ok` exactly when its argument is well-formed UTF-8; the
/// contract states that, with vstd's definition of well-formedness.
#[verifier::external_body]
pub(crate) fn is_utf8(bytes: &[u8]) -> (ok: bool)
    ensures
        ok == valid_utf8(bytes@),
{
    core::str::from_utf8(bytes).is_ok()
}

} // verus!
