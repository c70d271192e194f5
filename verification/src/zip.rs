//! Reading entries of a ZIP archive held in memory.
//!
//! The central directory is indexed once, into a table of at most
//! [`MAX_CD_ENTRIES`] entries. Entries are then read into a caller's buffer
//! or appended to a caller's vector, stored or inflated, with their CRC-32
//! checked.

use crate::directory::{
    declared_entries, index_archive, lemma_directory_bounded, read_directory,
};
use crate::eocd::{EOCD_MIN_SIZE, MAX_EOCD_SCAN};
use crate::error::ZipError;
use crate::lookup::{entry_views, find_entry, find_offset, position_by_name, position_by_offset};
use crate::mimetype::{check_mimetype_content, is_verdict, mimetype_outcome, mimetype_verdict};
use crate::plan::{buffered_outcome, buffered_plan, streamed_outcome, streamed_plan, ReadPlan};
use crate::read::{
    calc_data_offset, inflate_start, inflate_to_buffer, inflated_bytes,
    lemma_inflate_into_checks, read_stored, stream_inflated, stream_stored,
};
use crate::table::{table_entries, table_slice};
use vstd::prelude::*;
use vstd::string::StringExecFns;

verus! {

/// Maximum number of central directory entries to index.
pub const MAX_CD_ENTRIES: usize = 256;

/// Maximum length in bytes of a file name that is kept.
pub const MAX_FILENAME_LEN: usize = 256;

/// Compression method of an entry that is stored as it is.
pub const METHOD_STORED: u16 = 0;

/// Compression method of an entry that is compressed with DEFLATE.
pub const METHOD_DEFLATED: u16 = 8;

/// Size of the scratch buffers that the reads without a caller's scratch use.
pub const DEFAULT_ZIP_SCRATCH_BYTES: usize = 8192;

/// Runtime-configurable safety limits.
#[derive(Clone, Copy, Debug, PartialEq, Eq, Structural)]
pub struct ZipLimits {
    /// Maximum compressed or uncompressed file size allowed for reads.
    pub max_file_read_size: usize,
    /// Maximum allowed size for the required `mimetype` entry.
    pub max_mimetype_size: usize,
    /// Whether parsing fails on structural anomalies.
    pub strict: bool,
    /// Maximum bytes scanned from the tail while searching for the
    /// end-of-central-directory record.
    pub max_eocd_scan: usize,
}

impl ZipLimits {
    /// Explicit size limits, lenient parsing, and the widest tail scan.
    pub fn new(max_file_read_size: usize, max_mimetype_size: usize) -> (r: Self)
        ensures
            r == (ZipLimits {
                max_file_read_size,
                max_mimetype_size,
                strict: false,
                max_eocd_scan: MAX_EOCD_SCAN,
            }),
    {
        Self { max_file_read_size, max_mimetype_size, strict: false, max_eocd_scan: MAX_EOCD_SCAN }
    }

    /// Enables or disables strict parsing.
    pub fn with_strict(self, strict: bool) -> (r: Self)
        ensures
            r == (ZipLimits { strict, ..self }),
    {
        let mut limits = self;
        limits.strict = strict;
        limits
    }

    /// Sets the cap of the tail scan, raised to the size of a record where
    /// it is smaller.
    pub fn with_max_eocd_scan(self, max_eocd_scan: usize) -> (r: Self)
        ensures
            r == (ZipLimits {
                max_eocd_scan: if max_eocd_scan < EOCD_MIN_SIZE {
                    EOCD_MIN_SIZE
                } else {
                    max_eocd_scan
                },
                ..self
            }),
            r.max_eocd_scan >= EOCD_MIN_SIZE,
    {
        let mut limits = self;
        limits.max_eocd_scan = if max_eocd_scan < EOCD_MIN_SIZE {
            EOCD_MIN_SIZE
        } else {
            max_eocd_scan
        };
        limits
    }
}

/// Central directory entry metadata.
#[derive(Debug)]
pub struct CdEntry {
    /// Compression method (0 = stored, 8 = deflated).
    pub method: u16,
    /// Compressed size in bytes.
    pub compressed_size: u64,
    /// Uncompressed size in bytes.
    pub uncompressed_size: u64,
    /// Offset of the local file header.
    pub local_header_offset: u64,
    /// CRC-32 checksum.
    pub crc32: u32,
    /// File name.
    pub filename: String,
}

/// What a central directory entry holds, with the file name as text.
pub struct CdEntryView {
    /// Compression method.
    pub method: u16,
    /// Compressed size in bytes.
    pub compressed_size: u64,
    /// Uncompressed size in bytes.
    pub uncompressed_size: u64,
    /// Offset of the local file header.
    pub local_header_offset: u64,
    /// CRC-32 checksum.
    pub crc32: u32,
    /// File name.
    pub filename: Seq<char>,
}

impl View for CdEntry {
    type V = CdEntryView;

    open spec fn view(&self) -> CdEntryView {
        CdEntryView {
            method: self.method,
            compressed_size: self.compressed_size,
            uncompressed_size: self.uncompressed_size,
            local_header_offset: self.local_header_offset,
            crc32: self.crc32,
            filename: self.filename@,
        }
    }
}

impl Clone for CdEntry {
    fn clone(&self) -> (r: Self)
        ensures
            r@ == self@,
    {
        CdEntry {
            method: self.method,
            compressed_size: self.compressed_size,
            uncompressed_size: self.uncompressed_size,
            local_header_offset: self.local_header_offset,
            crc32: self.crc32,
            filename: self.filename.clone(),
        }
    }
}

impl CdEntry {
    /// An entry with every number zero and an empty name.
    pub fn new() -> (r: Self)
        ensures
            r@ == (CdEntryView {
                method: 0,
                compressed_size: 0,
                uncompressed_size: 0,
                local_header_offset: 0,
                crc32: 0,
                filename: Seq::<char>::empty(),
            }),
    {
        Self {
            method: 0,
            compressed_size: 0,
            uncompressed_size: 0,
            local_header_offset: 0,
            crc32: 0,
            filename: String::new(),
        }
    }
}

/// What a reader holds: the archive's bytes, its index and its limits.
pub struct ZipView {
    /// The bytes of the archive.
    pub data: Seq<u8>,
    /// The indexed entries, in directory order.
    pub entries: Seq<CdEntryView>,
    /// The limits that the reader was opened with.
    pub limits: Option<ZipLimits>,
}

/// A reader of a ZIP archive held in memory.
pub struct StreamingZip {
    /// The bytes of the archive.
    data: Vec<u8>,
    /// Central directory entries, at most `MAX_CD_ENTRIES`.
    entries: heapless::Vec<CdEntry, MAX_CD_ENTRIES>,
    /// Number of entries that the archive declares.
    num_entries: usize,
    /// Offset of the first central-directory record.
    cd_offset: u64,
    /// Configured limits, if any.
    limits: Option<ZipLimits>,
}

impl View for StreamingZip {
    type V = ZipView;

    closed spec fn view(&self) -> ZipView {
        ZipView {
            data: self.data@,
            entries: entry_views(table_entries(self.entries)),
            limits: self.limits,
        }
    }
}

impl StreamingZip {
    /// The index is that of the data, and the declared number of entries is
    /// kept as far as it fits.
    #[verifier::type_invariant]
    spec fn well_formed(&self) -> bool {
        read_directory(self.data@, self.limits) matches Ok(dir) && dir.entries == entry_views(
            table_entries(self.entries),
        ) && self.num_entries == declared_entries(dir) && self.cd_offset == dir.cd_offset
    }

    /// Opens an archive and indexes its central directory.
    pub fn new(data: Vec<u8>) -> (r: Result<Self, ZipError>)
        ensures
            match read_directory(data@, None) {
                Ok(dir) => r matches Ok(zip) && zip@ == (ZipView {
                    data: data@,
                    entries: dir.entries,
                    limits: None,
                }),
                Err(e) => r matches Err(x) && x == e,
            },
    {
        Self::new_with_limits(data, None)
    }

    /// Opens an archive with explicit limits and indexes its central
    /// directory.
    pub fn new_with_limits(data: Vec<u8>, limits: Option<ZipLimits>) -> (r: Result<Self, ZipError>)
        ensures
            match read_directory(data@, limits) {
                Ok(dir) => r matches Ok(zip) && zip@ == (ZipView {
                    data: data@,
                    entries: dir.entries,
                    limits,
                }),
                Err(e) => r matches Err(x) && x == e,
            },
    {
        match index_archive(data.as_slice(), limits) {
            Ok((entries, num_entries, cd_offset)) => Ok(
                Self { data, entries, num_entries, cd_offset, limits },
            ),
            Err(e) => Err(e),
        }
    }

    /// Finds an entry by name, without regard to ASCII case and to a
    /// leading `/`. The first entry that answers to the name is returned.
    pub fn get_entry(&self, name: &str) -> (r: Option<&CdEntry>)
        ensures
            match find_entry(self@.entries, name@) {
                Some(i) => r matches Some(e) && e@ == self@.entries[i],
                None => r is None,
            },
    {
        let entries = table_slice(&self.entries);
        match position_by_name(entries, name) {
            Some(i) => Some(&entries[i]),
            None => None,
        }
    }

    /// Reads an entry into `buf` and returns the number of bytes written.
    pub fn read_file(&self, entry: &CdEntry, buf: &mut [u8]) -> (r: Result<usize, ZipError>)
        ensures
            buffered_outcome(
                buffered_plan(
                    self@.data,
                    self@.limits,
                    entry@,
                    old(buf)@.len() as int,
                    DEFAULT_ZIP_SCRATCH_BYTES as int,
                ),
                r,
                old(buf)@,
                final(buf)@,
                self@.data,
                entry@,
                DEFAULT_ZIP_SCRATCH_BYTES as int,
            ),
    {
        let mut input_buf: Vec<u8> = vec![0u8; DEFAULT_ZIP_SCRATCH_BYTES];
        self.read_file_with_scratch(entry, buf, input_buf.as_mut_slice())
    }

    /// Reads an entry into `buf`, with a caller's scratch buffer for the
    /// compressed input, and returns the number of bytes written.
    pub fn read_file_with_scratch(&self, entry: &CdEntry, buf: &mut [u8], input_buf: &mut [u8]) -> (r:
        Result<usize, ZipError>)
        ensures
            final(input_buf)@.len() == old(input_buf)@.len(),
            buffered_outcome(
                buffered_plan(
                    self@.data,
                    self@.limits,
                    entry@,
                    old(buf)@.len() as int,
                    old(input_buf)@.len() as int,
                ),
                r,
                old(buf)@,
                final(buf)@,
                self@.data,
                entry@,
                old(input_buf)@.len() as int,
            ),
    {
        if input_buf.len() == 0 {
            return Err(ZipError::BufferTooSmall);
        }
        if let Some(limits) = self.limits {
            if entry.uncompressed_size > limits.max_file_read_size as u64 {
                return Err(ZipError::FileTooLarge);
            }
            if entry.compressed_size > limits.max_file_read_size as u64 {
                return Err(ZipError::FileTooLarge);
            }
        }
        if entry.uncompressed_size > usize::MAX as u64 {
            return Err(ZipError::FileTooLarge);
        }
        let uncompressed_size: usize = entry.uncompressed_size as usize;
        if uncompressed_size > buf.len() {
            return Err(ZipError::BufferTooSmall);
        }
        let data_offset: u64 = match calc_data_offset(self.data.as_slice(), entry) {
            Ok(offset) => offset,
            Err(e) => {
                return Err(e);
            },
        };
        if entry.method == METHOD_STORED {
            read_stored(self.data.as_slice(), entry, data_offset, buf)
        } else if entry.method == METHOD_DEFLATED {
            inflate_to_buffer(self.data.as_slice(), entry, data_offset, buf, input_buf)
        } else {
            Err(ZipError::UnsupportedCompression)
        }
    }

    /// Appends the bytes of an entry to `writer` and returns their number.
    pub fn read_file_to_writer(&self, entry: &CdEntry, writer: &mut Vec<u8>) -> (r: Result<
        usize,
        ZipError,
    >)
        ensures
            streamed_outcome(
                streamed_plan(
                    self@.data,
                    self@.limits,
                    entry@,
                    DEFAULT_ZIP_SCRATCH_BYTES as int,
                    DEFAULT_ZIP_SCRATCH_BYTES as int,
                ),
                r,
                old(writer)@,
                final(writer)@,
                self@.data,
                entry@,
                DEFAULT_ZIP_SCRATCH_BYTES as int,
                DEFAULT_ZIP_SCRATCH_BYTES as int,
            ),
    {
        let mut input_buf: Vec<u8> = vec![0u8; DEFAULT_ZIP_SCRATCH_BYTES];
        let mut output_buf: Vec<u8> = vec![0u8; DEFAULT_ZIP_SCRATCH_BYTES];
        self.read_file_to_writer_with_scratch(
            entry,
            writer,
            input_buf.as_mut_slice(),
            output_buf.as_mut_slice(),
        )
    }

    /// Appends the bytes of an entry to `writer`, with a caller's scratch
    /// buffers, and returns their number. A stored entry is copied in
    /// chunks of the size of `input_buf`; a deflated entry uses both.
    pub fn read_file_to_writer_with_scratch(
        &self,
        entry: &CdEntry,
        writer: &mut Vec<u8>,
        input_buf: &mut [u8],
        output_buf: &mut [u8],
    ) -> (r: Result<usize, ZipError>)
        ensures
            final(input_buf)@.len() == old(input_buf)@.len(),
            final(output_buf)@.len() == old(output_buf)@.len(),
            streamed_outcome(
                streamed_plan(
                    self@.data,
                    self@.limits,
                    entry@,
                    old(input_buf)@.len() as int,
                    old(output_buf)@.len() as int,
                ),
                r,
                old(writer)@,
                final(writer)@,
                self@.data,
                entry@,
                old(input_buf)@.len() as int,
                old(output_buf)@.len() as int,
            ),
    {
        if input_buf.len() == 0 || output_buf.len() == 0 {
            return Err(ZipError::BufferTooSmall);
        }
        if let Some(limits) = self.limits {
            if entry.uncompressed_size > limits.max_file_read_size as u64 {
                return Err(ZipError::FileTooLarge);
            }
            if entry.compressed_size > limits.max_file_read_size as u64 {
                return Err(ZipError::FileTooLarge);
            }
        }
        let data_offset: u64 = match calc_data_offset(self.data.as_slice(), entry) {
            Ok(offset) => offset,
            Err(e) => {
                return Err(e);
            },
        };
        if entry.method == METHOD_STORED {
            stream_stored(self.data.as_slice(), entry, data_offset, writer, input_buf)
        } else if entry.method == METHOD_DEFLATED {
            stream_inflated(
                self.data.as_slice(),
                entry,
                data_offset,
                writer,
                input_buf,
                output_buf,
            )
        } else {
            Err(ZipError::UnsupportedCompression)
        }
    }

    /// Reads the first entry whose local file header lies at the given
    /// offset.
    pub fn read_file_at_offset(&self, local_header_offset: u64, buf: &mut [u8]) -> (r: Result<
        usize,
        ZipError,
    >)
        ensures
            match find_offset(self@.entries, local_header_offset) {
                None => r == Err::<usize, ZipError>(ZipError::FileNotFound) && final(buf)@ == old(
                    buf,
                )@,
                Some(i) => buffered_outcome(
                    buffered_plan(
                        self@.data,
                        self@.limits,
                        self@.entries[i],
                        old(buf)@.len() as int,
                        DEFAULT_ZIP_SCRATCH_BYTES as int,
                    ),
                    r,
                    old(buf)@,
                    final(buf)@,
                    self@.data,
                    self@.entries[i],
                DEFAULT_ZIP_SCRATCH_BYTES as int,
            ),
            },
    {
        let entries = table_slice(&self.entries);
        match position_by_offset(entries, local_header_offset) {
            None => Err(ZipError::FileNotFound),
            Some(i) => self.read_file(&entries[i], buf),
        }
    }

    /// Checks that the archive holds a `mimetype` entry whose content is
    /// exactly `application/epub+zip`.
    pub fn validate_mimetype(&self) -> (r: Result<(), ZipError>)
        ensures
            mimetype_outcome(self@, r),
    {
        let entry = match self.get_entry("mimetype") {
            Some(e) => e,
            None => {
                return Err(
                    ZipError::InvalidMimetype(
                        String::from_str("mimetype file not found in archive"),
                    ),
                );
            },
        };
        if let Some(limits) = self.limits {
            if entry.uncompressed_size > limits.max_mimetype_size as u64 {
                return Err(ZipError::InvalidMimetype(String::from_str("mimetype file too large")));
            }
        }
        if entry.uncompressed_size > usize::MAX as u64 {
            return Err(ZipError::InvalidMimetype(String::from_str("mimetype file too large")));
        }
        let size: usize = entry.uncompressed_size as usize;
        let mut buf: Vec<u8> = vec![0u8; size];
        let bytes_read: usize = match self.read_file(entry, buf.as_mut_slice()) {
            Ok(n) => n,
            Err(e) => {
                return Err(e);
            },
        };
        proof {
            match buffered_plan(
                self@.data,
                self@.limits,
                entry@,
                size as int,
                DEFAULT_ZIP_SCRATCH_BYTES as int,
            ) {
                ReadPlan::Stored(bytes) => {
                    assert(buf@.subrange(0, bytes_read as int) =~= bytes);
                },
                ReadPlan::Inflate(start) => {
                    let run = inflate_start(entry@, start);
                    lemma_inflate_into_checks(
                        self@.data,
                        entry.crc32,
                        size as nat,
                        DEFAULT_ZIP_SCRATCH_BYTES as nat,
                        run,
                    );
                    let out = inflated_bytes(
                        self@.data,
                        entry@,
                        start,
                        size as nat,
                        DEFAULT_ZIP_SCRATCH_BYTES as nat,
                    ).1;
                    assert(buf@.subrange(0, bytes_read as int) =~= out);
                },
                _ => {},
            }
        }
        let content = vstd::slice::slice_subrange(buf.as_slice(), 0, bytes_read);
        let checked = check_mimetype_content(content);
        assert(is_verdict(checked, mimetype_verdict(content@)));
        checked
    }

    /// Says whether the archive passes [`Self::validate_mimetype`].
    pub fn is_valid_epub(&self) -> (r: bool)
        ensures
            exists|checked: Result<(), ZipError>|
                mimetype_outcome(self@, checked) && r == checked is Ok,
    {
        let checked = self.validate_mimetype();
        checked.is_ok()
    }

    /// The number of indexed entries.
    pub fn num_entries(&self) -> (r: usize)
        ensures
            r == self@.entries.len(),
            r <= MAX_CD_ENTRIES,
    {
        proof {
            use_type_invariant(self);
            lemma_directory_bounded(self.data@, self.limits);
        }
        let len: usize = table_slice(&self.entries).len();
        if self.num_entries < len {
            self.num_entries
        } else {
            len
        }
    }

    /// The indexed entries, in directory order. They are the index of the
    /// archive's bytes under the reader's limits.
    pub fn entries(&self) -> (r: &[CdEntry])
        ensures
            entry_views(r@) == self@.entries,
            read_directory(self@.data, self@.limits) matches Ok(dir) && dir.entries
                == self@.entries,
    {
        proof {
            use_type_invariant(self);
        }
        table_slice(&self.entries)
    }

    /// The entry at an index, if there is one.
    pub fn get_entry_by_index(&self, index: usize) -> (r: Option<&CdEntry>)
        ensures
            index < self@.entries.len() ==> (r matches Some(e) && e@ == self@.entries[index as int]),
            index >= self@.entries.len() ==> r is None,
    {
        let entries = table_slice(&self.entries);
        if index < entries.len() {
            Some(&entries[index])
        } else {
            None
        }
    }

    /// The number of entries that the archive declares, as far as it fits
    /// in `usize`. It can exceed the number of indexed entries.
    pub fn declared_entry_count(&self) -> (r: usize)
        ensures
            read_directory(self@.data, self@.limits) matches Ok(dir) && r == declared_entries(dir),
            r >= self@.entries.len(),
    {
        proof {
            use_type_invariant(self);
            lemma_directory_bounded(self.data@, self.limits);
        }
        self.num_entries
    }

    /// The offset of the first central-directory record.
    pub fn central_directory_offset(&self) -> (r: u64)
        ensures
            read_directory(self@.data, self@.limits) matches Ok(dir) && r == dir.cd_offset,
    {
        proof {
            use_type_invariant(self);
        }
        self.cd_offset
    }

    /// The bytes of the archive.
    pub fn bytes(&self) -> (r: &[u8])
        ensures
            r@ == self@.data,
    {
        self.data.as_slice()
    }

    /// The limits that the reader was opened with.
    pub fn limits(&self) -> (r: Option<ZipLimits>)
        ensures
            r == self@.limits,
    {
        self.limits
    }
}

} // verus!
