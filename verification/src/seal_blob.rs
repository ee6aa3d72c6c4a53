//! The stored blob of the TPM-sealed storage key: a big-endian `u32` length,
//! the private part of that length, and the public part (the rest).

use vstd::prelude::*;
use vstd::slice::{slice_subrange, slice_to_vec};

verus! {

/// Why a sealed-key blob cannot be split.
#[derive(Debug, Clone, Copy, PartialEq, Eq, Structural)]
pub enum SealBlobError {
    /// Shorter than the four bytes of the length.
    Truncated,
    /// Shorter than the private part that the length announces.
    PrivateTruncated,
}

/// The big-endian value of the first four bytes of `b`.
pub open spec fn be_u32_prefix(b: Seq<u8>) -> int {
    b[0] * 0x100_0000 + b[1] * 0x1_0000 + b[2] * 0x100 + b[3]
}

/// The blob's private and public parts, or why it cannot be split.
pub open spec fn seal_blob_parts(b: Seq<u8>) -> Result<(Seq<u8>, Seq<u8>), SealBlobError> {
    if b.len() < 4 {
        Err(SealBlobError::Truncated)
    } else if b.len() < 4 + be_u32_prefix(b) {
        Err(SealBlobError::PrivateTruncated)
    } else {
        let end = 4 + be_u32_prefix(b);
        Ok((b.subrange(4, end), b.subrange(end, b.len() as int)))
    }
}

/// Splits a sealed-key blob into its private part (the announced number of
/// bytes after the four-byte big-endian length) and its public part (the
/// rest).
pub fn split_seal_blob(blob: &[u8]) -> (r: Result<(Vec<u8>, Vec<u8>), SealBlobError>)
    ensures
        match (r, seal_blob_parts(blob@)) {
            (Ok((p, q)), Ok((sp, sq))) => p@ == sp && q@ == sq,
            (Err(e), Err(f)) => e == f,
            _ => false,
        },
{
    if blob.len() < 4 {
        return Err(SealBlobError::Truncated);
    }
    let private_len: u64 = (blob[0] as u64) * 0x100_0000 + (blob[1] as u64) * 0x1_0000
        + (blob[2] as u64) * 0x100 + (blob[3] as u64);
    if (blob.len() as u64) < 4 + private_len {
        return Err(SealBlobError::PrivateTruncated);
    }
    let end = (4 + private_len) as usize;
    let private_part = slice_to_vec(slice_subrange(blob, 4, end));
    let public_part = slice_to_vec(slice_subrange(blob, end, blob.len()));
    Ok((private_part, public_part))
}

} // verus!
