//! CRC-32 checksums, computed by the `crc32fast` crate.

use vstd::prelude::*;

verus! {

/// An in-progress CRC-32 computation of `crc32fast`.
#[verifier::external_type_specification]
#[verifier::external_body]
pub struct ExHasher(crc32fast::Hasher);

/// The CRC-32 (IEEE) checksum of a byte sequence, as `crc32fast::hash`
/// computes it.
pub uninterp spec fn crc32_of(bytes: Seq<u8>) -> u32;

/// The checksum that a hasher would give if it were finalized now.
pub uninterp spec fn hasher_value(h: crc32fast::Hasher) -> u32;

/// `crc32fast::hash`: the checksum of the bytes.
#[verifier::external_body]
pub(crate) fn crc32(bytes: &[u8]) -> (r: u32)
    ensures
        r == crc32_of(bytes@),
{
    crc32fast::hash(bytes)
}

/// `crc32fast::Hasher::new`: a hasher that has seen no byte.
#[verifier::external_body]
pub(crate) fn hasher_new() -> (h: crc32fast::Hasher)
    ensures
        hasher_value(h) == crc32_of(Seq::<u8>::empty()),
{
    crc32fast::Hasher::new()
}

/// `crc32fast::Hasher::update`: a hasher that stood at the checksum of some
/// bytes stands, after the call, at the checksum of those bytes followed by
/// the new ones.
#[verifier::external_body]
pub(crate) fn hasher_update(h: &mut crc32fast::Hasher, bytes: &[u8])
    ensures
        forall|seen: Seq<u8>|
            hasher_value(*old(h)) == #[trigger] crc32_of(seen) ==> hasher_value(*final(h))
                == crc32_of(seen + bytes@),
{
    h.update(bytes)
}

/// `crc32fast::Hasher::finalize`: the checksum that the hasher stands at.
#[verifier::external_body]
pub(crate) fn hasher_finalize(h: crc32fast::Hasher) -> (r: u32)
    ensures
        r == hasher_value(h),
{
    h.finalize()
}

/// `Hasher::finalize` on a copy of the hasher: the checksum that the
/// hasher stands at, with the hasher left as it is.
#[verifier::external_body]
pub(crate) fn hasher_current(h: &crc32fast::Hasher) -> (r: u32)
    ensures
        r == hasher_value(*h),
{
    h.clone().finalize()
}

} // verus!
