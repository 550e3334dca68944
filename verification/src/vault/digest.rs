//! Digests and Unicode normalisation of texts.

use sha2::Digest;
use unicode_normalization::UnicodeNormalization;
use vstd::prelude::*;

verus! {

/// The SHA-256 digest of a sequence of bytes.
pub uninterp spec fn sha256(bytes: Seq<u8>) -> Seq<u8>;

/// The canonical composition (NFC) of a sequence of characters.
pub uninterp spec fn composed(text: Seq<char>) -> Seq<char>;

/// `sha2::Sha256::digest`: the SHA-256 digest of the bytes.
#[verifier::external_body]
pub(crate) fn sha256_of(bytes: &[u8]) -> (digest: [u8; 32])
    ensures
        digest@ == sha256(bytes@),
{
    sha2::Sha256::digest(bytes).into()
}

/// `unicode_normalization::UnicodeNormalization::nfc`, collected: the text in
/// Unicode Normalization Form C.
#[verifier::external_body]
pub(crate) fn compose(text: &str) -> (key: String)
    ensures
        key@ == composed(text@),
{
    text.nfc().collect()
}

/// Whether two digests are equal.
pub fn same_digest(left: &[u8; 32], right: &[u8; 32]) -> (equal: bool)
    ensures
        equal == (left@ == right@),
{
    let mut i: usize = 0;
    while i < 32
        invariant
            i <= 32,
            forall|k: int| 0 <= k < i ==> left@[k] == right@[k],
        decreases 32 - i,
    {
        if left[i] != right[i] {
            return false;
        }
        i += 1;
    }
    assert(left@ =~= right@);
    true
}

} // verus!
