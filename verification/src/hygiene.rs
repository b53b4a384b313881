//! Overwriting secrets that are no longer needed.

use vstd::prelude::*;
use zeroize::Zeroize;

verus! {

/// Overwrites a text and empties it.
///
/// Calls `zeroize` of `String`, which overwrites the buffer with zeros and sets the length to 0.
/// The contract claims that the text is empty afterwards; that the memory behind it holds zeros
/// is beyond what a contract can say.
#[verifier::external_body]
pub(crate) fn wipe_text(text: &mut String)
    ensures
        final(text)@ == Seq::<char>::empty(),
{
    text.zeroize();
}

/// Overwrites bytes and empties the vector.
///
/// Calls `zeroize` of `Vec`, which overwrites the elements and the spare capacity with zeros and
/// clears the vector. The contract claims that the vector is empty afterwards; that the memory
/// behind it holds zeros is beyond what a contract can say.
#[verifier::external_body]
pub(crate) fn wipe_bytes(bytes: &mut Vec<u8>)
    ensures
        final(bytes)@ == Seq::<u8>::empty(),
{
    bytes.zeroize();
}

} // verus!
