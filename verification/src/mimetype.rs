//! The `mimetype` entry that marks an archive as an EPUB.

use crate::checksum::crc32_of;
use crate::error::ZipError;
use crate::lookup::find_entry;
use crate::plan::{buffered_plan, ReadPlan};
use crate::read::inflated_bytes;
use crate::text::str_from_utf8;
use crate::zip::{ZipView, DEFAULT_ZIP_SCRATCH_BYTES};
use vstd::prelude::*;
use vstd::string::StringExecFns;
use vstd::utf8::{decode_utf8, encode_utf8, valid_utf8};

verus! {

/// The media type that the `mimetype` entry of an EPUB must hold.
pub open spec fn epub_mimetype() -> Seq<char> {
    "application/epub+zip"@
}

/// What the content of the `mimetype` entry comes to: accepted, or refused
/// with this message.
pub open spec fn mimetype_verdict(content: Seq<u8>) -> Result<(), Seq<char>> {
    if !valid_utf8(content) {
        Err("mimetype file is not valid UTF-8"@)
    } else if decode_utf8(content) != epub_mimetype() {
        Err("expected 'application/epub+zip', got '"@ + decode_utf8(content) + "'"@)
    } else {
        Ok(())
    }
}

/// A result is the given verdict, with a refusal as `InvalidMimetype`.
pub open spec fn is_verdict(r: Result<(), ZipError>, verdict: Result<(), Seq<char>>) -> bool {
    match verdict {
        Ok(_) => r is Ok,
        Err(msg) => r matches Err(ZipError::InvalidMimetype(m)) && m@ == msg,
    }
}

/// Checks the content of the `mimetype` entry.
pub fn check_mimetype_content(content: &[u8]) -> (r: Result<(), ZipError>)
    ensures
        is_verdict(r, mimetype_verdict(content@)),
        r is Ok <==> content@ == encode_utf8(epub_mimetype()),
{
    broadcast use vstd::utf8::encode_utf8_decode_utf8;
    broadcast use vstd::utf8::encode_utf8_valid_utf8;

    match str_from_utf8(content) {
        None => Err(
            ZipError::InvalidMimetype(String::from_str("mimetype file is not valid UTF-8")),
        ),
        Some(text) => {
            proof {
                vstd::utf8::decode_utf8_encode_utf8(content@);
                assert(text@ == decode_utf8(content@));
            }
            let expected = "application/epub+zip".as_bytes();
            if bytes_equal(content, expected) {
                Ok(())
            } else {
                let mut msg = String::from_str("expected 'application/epub+zip', got '");
                msg.append(text);
                msg.append("'");
                Err(ZipError::InvalidMimetype(msg))
            }
        },
    }
}

/// Says whether two byte slices hold the same bytes.
pub fn bytes_equal(a: &[u8], b: &[u8]) -> (r: bool)
    ensures
        r == (a@ == b@),
{
    if a.len() != b.len() {
        return false;
    }
    let mut i: usize = 0;
    while i < a.len()
        invariant
            i <= a.len(),
            a.len() == b.len(),
            forall|k: int| 0 <= k < i ==> a@[k] == b@[k],
        decreases a.len() - i,
    {
        if a[i] != b[i] {
            return false;
        }
        i += 1;
    }
    assert(a@ =~= b@);
    true
}

/// What the check of the `mimetype` entry comes to for an archive with the
/// given entries.
///
/// The entry must be there and within the size limit. A stored entry is
/// accepted exactly if its bytes are the media type, and a deflated entry
/// exactly if the bytes that inflating it gives are.
pub open spec fn mimetype_outcome(zip: ZipView, r: Result<(), ZipError>) -> bool {
    match find_entry(zip.entries, "mimetype"@) {
        None => is_verdict(r, Err("mimetype file not found in archive"@)),
        Some(i) => {
            let entry = zip.entries[i];
            if (zip.limits matches Some(l) && entry.uncompressed_size > l.max_mimetype_size)
                || entry.uncompressed_size > usize::MAX {
                is_verdict(r, Err("mimetype file too large"@))
            } else {
                match buffered_plan(
                    zip.data,
                    zip.limits,
                    entry,
                    entry.uncompressed_size as int,
                    DEFAULT_ZIP_SCRATCH_BYTES as int,
                ) {
                    ReadPlan::Fail(e) => r == Err::<(), ZipError>(e),
                    ReadPlan::Broken(e, _) => r == Err::<(), ZipError>(e),
                    ReadPlan::Stored(bytes) => is_verdict(r, mimetype_verdict(bytes)),
                    ReadPlan::Inflate(start) => match inflated_bytes(
                        zip.data,
                        entry,
                        start,
                        entry.uncompressed_size as nat,
                        DEFAULT_ZIP_SCRATCH_BYTES as nat,
                    ) {
                        (Ok(_), bytes) => is_verdict(r, mimetype_verdict(bytes)),
                        (Err(e), _) => r == Err::<(), ZipError>(e),
                    },
                }
            }
        },
    }
}

} // verus!
