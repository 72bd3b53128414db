//! The signature verifier: a guard that checks a byte prefix against an
//! expected magic sequence before deeper parsing.

use vstd::prelude::*;

use crate::DecodeError;

verus! {

/// `content` begins with `sig`: it is at least as long, and its prefix of
/// `sig`'s length equals `sig`. An empty signature matches any content.
pub open spec fn prefix_matches(content: Seq<u8>, sig: Seq<u8>) -> bool {
    &&& sig.len() <= content.len()
    &&& content.subrange(0, sig.len() as int) == sig
}

/// Succeeds exactly when `content` begins with the magic signature `sig`;
/// otherwise fails with [`DecodeError::MissingMagic`].
pub fn verify_signature(content: &[u8], sig: &[u8]) -> (r: Result<(), DecodeError>)
    ensures
        r is Ok <==> prefix_matches(content@, sig@),
        r is Err ==> r == Err::<(), DecodeError>(DecodeError::MissingMagic),
{
    let sig_len = sig.len();

    if content.len() < sig_len {
        return Err(DecodeError::MissingMagic);
    }

    let mut i: usize = 0;
    while i < sig_len
        invariant
            i <= sig_len,
            sig_len == sig@.len(),
            sig_len <= content@.len(),
            forall|j: int| 0 <= j < i ==> content@[j] == sig@[j],
        decreases sig_len - i,
    {
        if content[i] != sig[i] {
            proof {
                assert(content@.subrange(0, sig@.len() as int)[i as int] == content@[i as int]);
            }
            return Err(DecodeError::MissingMagic);
        }
        i = i + 1;
    }

    proof {
        assert(content@.subrange(0, sig@.len() as int) =~= sig@);
    }
    Ok(())
}

} // verus!
