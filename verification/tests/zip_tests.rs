use mu_epub::central::SIG_CD_ENTRY;
use mu_epub::eocd::{EOCD_MIN_SIZE, SIG_EOCD, SIG_ZIP64_EOCD, SIG_ZIP64_EOCD_LOCATOR};
use mu_epub::error::ZipError;
use mu_epub::read::SIG_LOCAL_FILE_HEADER;
use mu_epub::zip::{CdEntry, StreamingZip, ZipLimits, MAX_CD_ENTRIES, METHOD_STORED};

#[test]
fn test_zip_error_debug() {
    let err = ZipError::FileNotFound;
    assert_eq!(format!("{:?}", err), "FileNotFound");
}

#[test]
fn test_zip_error_invalid_mimetype_debug() {
    let err = ZipError::InvalidMimetype("wrong content".to_string());
    let debug = format!("{:?}", err);
    assert!(debug.contains("InvalidMimetype"));
    assert!(debug.contains("wrong content"));
}

#[test]
fn test_zip_error_invalid_mimetype_equality() {
    let err1 = ZipError::InvalidMimetype("missing".to_string());
    let err2 = ZipError::InvalidMimetype("missing".to_string());
    let err3 = ZipError::InvalidMimetype("different".to_string());
    assert_eq!(err1, err2);
    assert_ne!(err1, err3);
}

#[test]
fn test_zip_error_variants_are_distinct() {
    let errors: Vec<ZipError> = vec![
        ZipError::FileNotFound,
        ZipError::InvalidFormat,
        ZipError::UnsupportedCompression,
        ZipError::DecompressError,
        ZipError::CrcMismatch,
        ZipError::IoError,
        ZipError::CentralDirFull,
        ZipError::BufferTooSmall,
        ZipError::FileTooLarge,
        ZipError::InvalidMimetype("test".to_string()),
        ZipError::UnsupportedZip64,
    ];

    // Each variant should be different from every other
    for (i, a) in errors.iter().enumerate() {
        for (j, b) in errors.iter().enumerate() {
            if i != j {
                assert_ne!(a, b, "variants at index {} and {} should differ", i, j);
            }
        }
    }
}

#[test]
fn test_zip_error_clone() {
    let err = ZipError::InvalidMimetype("test message".to_string());
    let cloned = err.clone();
    assert_eq!(err, cloned);
}

#[test]
fn test_cd_entry_new() {
    let entry = CdEntry::new();
    assert_eq!(entry.method, 0);
    assert_eq!(entry.compressed_size, 0);
    assert_eq!(entry.uncompressed_size, 0);
    assert_eq!(entry.local_header_offset, 0);
    assert_eq!(entry.crc32, 0);
    assert!(entry.filename.is_empty());
}

/// Builds a minimal valid ZIP archive with a single stored file.
fn build_single_file_zip(filename: &str, content: &[u8]) -> Vec<u8> {
    let name_bytes = filename.as_bytes();
    let name_len = name_bytes.len() as u16;
    let content_len = content.len() as u32;
    let crc = crc32fast::hash(content);

    let mut zip = Vec::with_capacity(0);

    // -- Local file header --
    let local_offset = zip.len() as u32;
    zip.extend_from_slice(&SIG_LOCAL_FILE_HEADER.to_le_bytes()); // signature
    zip.extend_from_slice(&20u16.to_le_bytes()); // version needed
    zip.extend_from_slice(&0u16.to_le_bytes()); // flags
    zip.extend_from_slice(&METHOD_STORED.to_le_bytes()); // compression
    zip.extend_from_slice(&0u16.to_le_bytes()); // mod time
    zip.extend_from_slice(&0u16.to_le_bytes()); // mod date
    zip.extend_from_slice(&crc.to_le_bytes()); // CRC32
    zip.extend_from_slice(&content_len.to_le_bytes()); // compressed size
    zip.extend_from_slice(&content_len.to_le_bytes()); // uncompressed size
    zip.extend_from_slice(&name_len.to_le_bytes()); // filename length
    zip.extend_from_slice(&0u16.to_le_bytes()); // extra field length
    zip.extend_from_slice(name_bytes); // filename
    zip.extend_from_slice(content); // file data

    // -- Central directory entry --
    let cd_offset = zip.len() as u32;
    zip.extend_from_slice(&SIG_CD_ENTRY.to_le_bytes()); // signature
    zip.extend_from_slice(&20u16.to_le_bytes()); // version made by
    zip.extend_from_slice(&20u16.to_le_bytes()); // version needed
    zip.extend_from_slice(&0u16.to_le_bytes()); // flags
    zip.extend_from_slice(&METHOD_STORED.to_le_bytes()); // compression
    zip.extend_from_slice(&0u16.to_le_bytes()); // mod time
    zip.extend_from_slice(&0u16.to_le_bytes()); // mod date
    zip.extend_from_slice(&crc.to_le_bytes()); // CRC32
    zip.extend_from_slice(&content_len.to_le_bytes()); // compressed size
    zip.extend_from_slice(&content_len.to_le_bytes()); // uncompressed size
    zip.extend_from_slice(&name_len.to_le_bytes()); // filename length
    zip.extend_from_slice(&0u16.to_le_bytes()); // extra field length
    zip.extend_from_slice(&0u16.to_le_bytes()); // comment length
    zip.extend_from_slice(&0u16.to_le_bytes()); // disk number start
    zip.extend_from_slice(&0u16.to_le_bytes()); // internal attrs
    zip.extend_from_slice(&0u32.to_le_bytes()); // external attrs
    zip.extend_from_slice(&local_offset.to_le_bytes()); // local header offset
    zip.extend_from_slice(name_bytes); // filename

    let cd_size = (zip.len() as u32) - cd_offset;

    // -- End of central directory --
    zip.extend_from_slice(&SIG_EOCD.to_le_bytes()); // signature
    zip.extend_from_slice(&0u16.to_le_bytes()); // disk number
    zip.extend_from_slice(&0u16.to_le_bytes()); // disk with CD
    zip.extend_from_slice(&1u16.to_le_bytes()); // entries on this disk
    zip.extend_from_slice(&1u16.to_le_bytes()); // total entries
    zip.extend_from_slice(&cd_size.to_le_bytes()); // CD size
    zip.extend_from_slice(&cd_offset.to_le_bytes()); // CD offset
    zip.extend_from_slice(&0u16.to_le_bytes()); // comment length

    zip
}

fn build_single_file_zip64(filename: &str, content: &[u8]) -> Vec<u8> {
    let name_bytes = filename.as_bytes();
    let name_len = name_bytes.len() as u16;
    let content_len = content.len() as u64;
    let crc = crc32fast::hash(content);

    let mut zip = Vec::with_capacity(0);

    // -- Local file header --
    let local_offset = zip.len() as u64;
    zip.extend_from_slice(&SIG_LOCAL_FILE_HEADER.to_le_bytes()); // signature
    zip.extend_from_slice(&45u16.to_le_bytes()); // version needed
    zip.extend_from_slice(&0u16.to_le_bytes()); // flags
    zip.extend_from_slice(&METHOD_STORED.to_le_bytes()); // compression
    zip.extend_from_slice(&0u16.to_le_bytes()); // mod time
    zip.extend_from_slice(&0u16.to_le_bytes()); // mod date
    zip.extend_from_slice(&crc.to_le_bytes()); // CRC32
    zip.extend_from_slice(&(content_len as u32).to_le_bytes()); // compressed size
    zip.extend_from_slice(&(content_len as u32).to_le_bytes()); // uncompressed size
    zip.extend_from_slice(&name_len.to_le_bytes()); // filename length
    zip.extend_from_slice(&0u16.to_le_bytes()); // extra field length
    zip.extend_from_slice(name_bytes); // filename
    zip.extend_from_slice(content); // file data

    // -- Central directory entry with ZIP64 extra field --
    let cd_offset = zip.len() as u64;
    let zip64_extra_len = 24u16; // uncompressed + compressed + local header offset
    zip.extend_from_slice(&SIG_CD_ENTRY.to_le_bytes()); // signature
    zip.extend_from_slice(&45u16.to_le_bytes()); // version made by
    zip.extend_from_slice(&45u16.to_le_bytes()); // version needed
    zip.extend_from_slice(&0u16.to_le_bytes()); // flags
    zip.extend_from_slice(&METHOD_STORED.to_le_bytes()); // compression
    zip.extend_from_slice(&0u16.to_le_bytes()); // mod time
    zip.extend_from_slice(&0u16.to_le_bytes()); // mod date
    zip.extend_from_slice(&crc.to_le_bytes()); // CRC32
    zip.extend_from_slice(&u32::MAX.to_le_bytes()); // compressed size sentinel
    zip.extend_from_slice(&u32::MAX.to_le_bytes()); // uncompressed size sentinel
    zip.extend_from_slice(&name_len.to_le_bytes()); // filename length
    zip.extend_from_slice(&(zip64_extra_len + 4).to_le_bytes()); // extra field length
    zip.extend_from_slice(&0u16.to_le_bytes()); // comment length
    zip.extend_from_slice(&0u16.to_le_bytes()); // disk number start
    zip.extend_from_slice(&0u16.to_le_bytes()); // internal attrs
    zip.extend_from_slice(&0u32.to_le_bytes()); // external attrs
    zip.extend_from_slice(&u32::MAX.to_le_bytes()); // local header offset sentinel
    zip.extend_from_slice(name_bytes); // filename
    zip.extend_from_slice(&0x0001u16.to_le_bytes()); // ZIP64 extra header id
    zip.extend_from_slice(&zip64_extra_len.to_le_bytes()); // ZIP64 extra length
    zip.extend_from_slice(&content_len.to_le_bytes()); // uncompressed size
    zip.extend_from_slice(&content_len.to_le_bytes()); // compressed size
    zip.extend_from_slice(&local_offset.to_le_bytes()); // local header offset

    let cd_size = (zip.len() as u64) - cd_offset;

    // -- ZIP64 EOCD record --
    let zip64_eocd_offset = zip.len() as u64;
    zip.extend_from_slice(&SIG_ZIP64_EOCD.to_le_bytes()); // signature
    zip.extend_from_slice(&44u64.to_le_bytes()); // size of ZIP64 EOCD record
    zip.extend_from_slice(&45u16.to_le_bytes()); // version made by
    zip.extend_from_slice(&45u16.to_le_bytes()); // version needed
    zip.extend_from_slice(&0u32.to_le_bytes()); // disk number
    zip.extend_from_slice(&0u32.to_le_bytes()); // disk where CD starts
    zip.extend_from_slice(&1u64.to_le_bytes()); // entries on this disk
    zip.extend_from_slice(&1u64.to_le_bytes()); // total entries
    zip.extend_from_slice(&cd_size.to_le_bytes()); // central directory size
    zip.extend_from_slice(&cd_offset.to_le_bytes()); // central directory offset

    // -- ZIP64 EOCD locator --
    zip.extend_from_slice(&SIG_ZIP64_EOCD_LOCATOR.to_le_bytes()); // signature
    zip.extend_from_slice(&0u32.to_le_bytes()); // disk with ZIP64 EOCD
    zip.extend_from_slice(&zip64_eocd_offset.to_le_bytes()); // ZIP64 EOCD offset
    zip.extend_from_slice(&1u32.to_le_bytes()); // total disks

    // -- Legacy EOCD with ZIP64 sentinels --
    zip.extend_from_slice(&SIG_EOCD.to_le_bytes()); // signature
    zip.extend_from_slice(&0u16.to_le_bytes()); // disk number
    zip.extend_from_slice(&0u16.to_le_bytes()); // disk with CD
    zip.extend_from_slice(&u16::MAX.to_le_bytes()); // entries on this disk sentinel
    zip.extend_from_slice(&u16::MAX.to_le_bytes()); // total entries sentinel
    zip.extend_from_slice(&u32::MAX.to_le_bytes()); // CD size sentinel
    zip.extend_from_slice(&u32::MAX.to_le_bytes()); // CD offset sentinel
    zip.extend_from_slice(&0u16.to_le_bytes()); // comment length

    zip
}

fn add_zip_comment(mut zip: Vec<u8>, comment_len: usize) -> Vec<u8> {
    let eocd_pos = zip.len() - EOCD_MIN_SIZE;
    let comment_len = comment_len as u16;
    zip[eocd_pos + 20..eocd_pos + 22].copy_from_slice(&comment_len.to_le_bytes());
    zip.extend_from_slice(&vec![b'A'; comment_len as usize]);
    zip
}

#[test]
fn test_validate_mimetype_success() {
    let zip_data = build_single_file_zip("mimetype", b"application/epub+zip");
    let zip = StreamingZip::new(zip_data).unwrap();
    assert!(zip.validate_mimetype().is_ok());
}

#[test]
fn test_eocd_found_with_long_comment() {
    let zip_data = add_zip_comment(
        build_single_file_zip("mimetype", b"application/epub+zip"),
        2_000,
    );
    let zip = StreamingZip::new(zip_data).expect("EOCD should be discoverable");
    assert!(zip.validate_mimetype().is_ok());
}

#[test]
fn test_eocd_scan_limit_rejects_long_tail() {
    let zip_data = add_zip_comment(
        build_single_file_zip("mimetype", b"application/epub+zip"),
        2_000,
    );
    let limits = ZipLimits::new(1024 * 1024, 1024).with_max_eocd_scan(128);
    let result = StreamingZip::new_with_limits(zip_data, Some(limits));
    assert!(matches!(result, Err(ZipError::InvalidFormat)));
}

#[test]
fn test_zip64_sentinel_without_locator_is_invalid() {
    let mut zip_data = build_single_file_zip("mimetype", b"application/epub+zip");
    let eocd_pos = zip_data.len() - EOCD_MIN_SIZE;
    zip_data[eocd_pos + 8..eocd_pos + 10].copy_from_slice(&u16::MAX.to_le_bytes());
    let result = StreamingZip::new(zip_data);
    assert!(matches!(result, Err(ZipError::InvalidFormat)));
}

#[test]
fn test_zip64_single_file_archive_is_readable() {
    let content = b"application/epub+zip";
    let zip_data = build_single_file_zip64("mimetype", content);
    let zip = StreamingZip::new(zip_data).expect("ZIP64 archive should parse");
    let entry = zip.get_entry("mimetype").expect("mimetype entry").clone();
    assert_eq!(entry.uncompressed_size, content.len() as u64);
    assert_eq!(entry.compressed_size, content.len() as u64);

    let mut buf = [0u8; 64];
    let n = zip
        .read_file(&entry, &mut buf)
        .expect("ZIP64 entry should read");
    assert_eq!(&buf[..n], content);
}

#[test]
fn test_strict_rejects_too_many_cd_entries() {
    let mut zip_data = build_single_file_zip("mimetype", b"application/epub+zip");
    let eocd_pos = zip_data.len() - EOCD_MIN_SIZE;
    let count = (MAX_CD_ENTRIES as u16) + 1;
    zip_data[eocd_pos + 8..eocd_pos + 10].copy_from_slice(&count.to_le_bytes());
    zip_data[eocd_pos + 10..eocd_pos + 12].copy_from_slice(&count.to_le_bytes());
    let limits = ZipLimits::new(1024 * 1024, 1024).with_strict(true);
    let result = StreamingZip::new_with_limits(zip_data, Some(limits));
    assert!(matches!(result, Err(ZipError::CentralDirFull)));
}

#[test]
fn test_validate_mimetype_wrong_content() {
    let zip_data = build_single_file_zip("mimetype", b"text/plain");
    let zip = StreamingZip::new(zip_data).unwrap();
    let result = zip.validate_mimetype();
    assert!(result.is_err());
    match result.unwrap_err() {
        ZipError::InvalidMimetype(msg) => {
            assert!(msg.contains("text/plain"));
        }
        other => panic!("Expected InvalidMimetype, got {:?}", other),
    }
}

#[test]
fn test_validate_mimetype_missing_file() {
    let zip_data = build_single_file_zip("not_mimetype.txt", b"hello");
    let zip = StreamingZip::new(zip_data).unwrap();
    let result = zip.validate_mimetype();
    assert!(result.is_err());
    match result.unwrap_err() {
        ZipError::InvalidMimetype(msg) => {
            assert!(msg.contains("not found"));
        }
        other => panic!("Expected InvalidMimetype, got {:?}", other),
    }
}

#[test]
fn test_is_valid_epub_true() {
    let zip_data = build_single_file_zip("mimetype", b"application/epub+zip");
    let zip = StreamingZip::new(zip_data).unwrap();
    assert!(zip.is_valid_epub());
}

#[test]
fn test_is_valid_epub_false_wrong_content() {
    let zip_data = build_single_file_zip("mimetype", b"application/zip");
    let zip = StreamingZip::new(zip_data).unwrap();
    assert!(!zip.is_valid_epub());
}

#[test]
fn test_is_valid_epub_false_missing() {
    let zip_data = build_single_file_zip("other.txt", b"some content");
    let zip = StreamingZip::new(zip_data).unwrap();
    assert!(!zip.is_valid_epub());
}

#[test]
fn test_streaming_zip_read_file() {
    let content = b"application/epub+zip";
    let zip_data = build_single_file_zip("mimetype", content);
    let zip = StreamingZip::new(zip_data).unwrap();

    assert_eq!(zip.num_entries(), 1);

    let entry = zip.get_entry("mimetype").unwrap().clone();
    assert_eq!(entry.filename, "mimetype");
    assert_eq!(entry.uncompressed_size, content.len() as u64);
    assert_eq!(entry.method, METHOD_STORED);

    let mut buf = [0u8; 64];
    let n = zip.read_file(&entry, &mut buf).unwrap();
    assert_eq!(&buf[..n], content);
}

#[test]
fn test_read_file_to_writer_with_scratch_streams_stored_entry() {
    let content = b"application/epub+zip";
    let zip_data = build_single_file_zip("mimetype", content);
    let zip = StreamingZip::new(zip_data).unwrap();
    let entry = zip.get_entry("mimetype").unwrap().clone();

    let mut out = Vec::with_capacity(0);
    let mut input = [0u8; 16];
    let mut output = [0u8; 16];
    let n = zip
        .read_file_to_writer_with_scratch(&entry, &mut out, &mut input, &mut output)
        .expect("streaming with scratch should succeed");
    assert_eq!(n, content.len());
    assert_eq!(out, content);
}

#[test]
fn test_read_file_to_writer_with_scratch_rejects_empty_buffers() {
    let content = b"application/epub+zip";
    let zip_data = build_single_file_zip("mimetype", content);
    let zip = StreamingZip::new(zip_data).unwrap();
    let entry = zip.get_entry("mimetype").unwrap().clone();

    let mut out = Vec::with_capacity(0);
    let mut input = [];
    let mut output = [0u8; 16];
    let err = zip
        .read_file_to_writer_with_scratch(&entry, &mut out, &mut input, &mut output)
        .expect_err("empty input buffer must fail");
    assert!(matches!(err, ZipError::BufferTooSmall));
}

#[test]
fn test_read_file_with_scratch_streams_into_output_buffer() {
    let content = b"application/epub+zip";
    let zip_data = build_single_file_zip("mimetype", content);
    let zip = StreamingZip::new(zip_data).unwrap();
    let entry = zip.get_entry("mimetype").unwrap().clone();

    let mut out = [0u8; 64];
    let mut input = [0u8; 8];
    let n = zip
        .read_file_with_scratch(&entry, &mut out, &mut input)
        .expect("read_file_with_scratch should succeed");
    assert_eq!(&out[..n], content);
}

#[test]
fn test_read_file_with_scratch_rejects_empty_input_buffer() {
    let content = b"application/epub+zip";
    let zip_data = build_single_file_zip("mimetype", content);
    let zip = StreamingZip::new(zip_data).unwrap();
    let entry = zip.get_entry("mimetype").unwrap().clone();

    let mut out = [0u8; 64];
    let mut input = [];
    let err = zip
        .read_file_with_scratch(&entry, &mut out, &mut input)
        .expect_err("empty input buffer must fail");
    assert!(matches!(err, ZipError::BufferTooSmall));
}

#[test]
fn test_zip_limits_enforced_when_configured() {
    let content = b"1234567890";
    let zip_data = build_single_file_zip("data.txt", content);
    let limits = ZipLimits::new(8, 8);
    let zip = StreamingZip::new_with_limits(zip_data, Some(limits)).unwrap();
    let entry = zip.get_entry("data.txt").unwrap().clone();
    let mut buf = [0u8; 32];
    let result = zip.read_file(&entry, &mut buf);
    assert!(matches!(result, Err(ZipError::FileTooLarge)));
}

#[test]
fn test_zip_limits_not_enforced_by_default() {
    let content = b"1234567890";
    let zip_data = build_single_file_zip("data.txt", content);
    let zip = StreamingZip::new(zip_data).unwrap();
    let entry = zip.get_entry("data.txt").unwrap().clone();
    let mut buf = [0u8; 32];
    let n = zip.read_file(&entry, &mut buf).unwrap();
    assert_eq!(&buf[..n], content);
}

#[test]
fn test_limits_prevent_excessive_allocations() {
    // Create a minimal ZIP with tight limits
    let limits = ZipLimits::new(1024, 128);

    // The limits should be enforced at the API level
    assert_eq!(limits.max_file_read_size, 1024);
    assert_eq!(limits.max_mimetype_size, 128);
}
