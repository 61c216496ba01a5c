//! The hash pad that masks output labels in garbled tables.

use vstd::prelude::*;
use sha2::{Digest, Sha256};
use crate::label::Label;

verus! {

/// The SHA-256 digest of `data`, as `sha2` computes it. The library reasons
/// about the digest only through this name.
pub uninterp spec fn sha256(data: Seq<u8>) -> Seq<u8>;

/// The pad of two labels: the first 128 bits of the SHA-256 digest of their
/// concatenation.
pub open spec fn pad_spec(ka: Seq<u8>, kb: Seq<u8>) -> Seq<u8> {
    truncate_spec(sha256(ka + kb))
}

/// The first 16 bytes of a digest.
pub open spec fn truncate_spec(digest: Seq<u8>) -> Seq<u8> {
    digest.subrange(0, 16)
}

/// Calls `sha2::Sha256::digest` on `data` and hands the 32 bytes back as an
/// array. Trusted: the result is the SHA-256 digest of exactly these bytes.
#[verifier::external_body]
fn sha256_digest(data: &[u8]) -> (digest: [u8; 32])
    ensures
        digest@ == sha256(data@),
{
    Sha256::digest(data).into()
}

/// Joins two labels into the 32-byte message that is hashed.
pub fn concat_labels(ka: &Label, kb: &Label) -> (msg: [u8; 32])
    ensures
        msg@ == ka@ + kb@,
{
    let mut msg: [u8; 32] = [0u8; 32];
    let mut i: usize = 0;
    while i < 16
        invariant
            i <= 16,
            forall|j: int| 0 <= j < i ==> msg@[j] == ka@[j],
            forall|j: int| 0 <= j < i ==> msg@[16 + j] == kb@[j],
        decreases 16 - i,
    {
        msg[i] = ka[i];
        msg[i + 16] = kb[i];
        i += 1;
    }
    assert(msg@ =~= ka@ + kb@);
    msg
}

/// Keeps the first 16 bytes of a 32-byte digest.
pub fn truncate_digest(digest: &[u8; 32]) -> (out: Label)
    ensures
        out@ == truncate_spec(digest@),
{
    let mut out: Label = [0u8; 16];
    let mut i: usize = 0;
    while i < 16
        invariant
            i <= 16,
            forall|j: int| 0 <= j < i ==> out@[j] == digest@[j],
        decreases 16 - i,
    {
        out[i] = digest[i];
        i += 1;
    }
    assert(out@ =~= truncate_spec(digest@));
    out
}

/// SHA-256 based pad `H(ka || kb)`, truncated to the width of a label. It
/// masks the output label of one row of a garbled table.
pub fn pad_sha(ka: &Label, kb: &Label) -> (out: Label)
    ensures
        out@ == pad_spec(ka@, kb@),
{
    let msg = concat_labels(ka, kb);
    let digest = sha256_digest(msg.as_slice());
    truncate_digest(&digest)
}

} // verus!
