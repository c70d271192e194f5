//! Error kinds shared by the archive reader and the layers above it.
//!
//! Each error type has a `to_string` method whose result is specified
//! character by character.

use vstd::prelude::*;
use vstd::string::StringExecFns;

verus! {

/// Stable processing phases for typed failures.
#[derive(Debug, Clone, Copy, PartialEq, Eq, Structural)]
#[non_exhaustive]
pub enum ErrorPhase {
    /// Opening the container and discovering the package document.
    Open,
    /// Generic parsing and tokenization.
    Parse,
    /// Style preparation.
    Style,
    /// Layout and pagination.
    Layout,
    /// Backend rendering.
    Render,
}

/// The lower-case name of a phase.
pub open spec fn phase_name(phase: ErrorPhase) -> Seq<char> {
    match phase {
        ErrorPhase::Open => "open"@,
        ErrorPhase::Parse => "parse"@,
        ErrorPhase::Style => "style"@,
        ErrorPhase::Layout => "layout"@,
        ErrorPhase::Render => "render"@,
    }
}

/// The upper-case name of a phase, as it opens a phase error's text.
pub open spec fn phase_label(phase: ErrorPhase) -> Seq<char> {
    match phase {
        ErrorPhase::Open => "OPEN"@,
        ErrorPhase::Parse => "PARSE"@,
        ErrorPhase::Style => "STYLE"@,
        ErrorPhase::Layout => "LAYOUT"@,
        ErrorPhase::Render => "RENDER"@,
    }
}

/// The ASCII upper-case form of a character.
pub open spec fn ascii_upper(c: char) -> char {
    if 'a' <= c && c <= 'z' {
        ((c as u32 - 32) as u32) as char
    } else {
        c
    }
}

/// The label of a phase is its name with every letter in upper case.
pub proof fn lemma_phase_label_is_upper_case_name(phase: ErrorPhase)
    ensures
        phase_label(phase) == phase_name(phase).map_values(|c: char| ascii_upper(c)),
{
    reveal_strlit("open");
    reveal_strlit("parse");
    reveal_strlit("style");
    reveal_strlit("layout");
    reveal_strlit("render");
    reveal_strlit("OPEN");
    reveal_strlit("PARSE");
    reveal_strlit("STYLE");
    reveal_strlit("LAYOUT");
    reveal_strlit("RENDER");
    assert(phase_label(phase) =~= phase_name(phase).map_values(|c: char| ascii_upper(c)));
}

impl ErrorPhase {
    /// The lower-case name of the phase.
    pub fn to_string(&self) -> (s: String)
        ensures
            s@ == phase_name(*self),
    {
        match self {
            ErrorPhase::Open => String::from_str("open"),
            ErrorPhase::Parse => String::from_str("parse"),
            ErrorPhase::Style => String::from_str("style"),
            ErrorPhase::Layout => String::from_str("layout"),
            ErrorPhase::Render => String::from_str("render"),
        }
    }

    /// The upper-case name of the phase.
    pub fn label(&self) -> (s: &'static str)
        ensures
            s@ == phase_label(*self),
    {
        match self {
            ErrorPhase::Open => "OPEN",
            ErrorPhase::Parse => "PARSE",
            ErrorPhase::Style => "STYLE",
            ErrorPhase::Layout => "LAYOUT",
            ErrorPhase::Render => "RENDER",
        }
    }
}

/// `String::into_boxed_str`: the boxed text has the characters of the string.
#[verifier::external_body]
fn into_boxed_str(s: String) -> (b: Box<str>)
    ensures
        b@ == s@,
{
    s.into_boxed_str()
}

/// `Clone` for `Box<str>`: the copy has the same characters.
pub assume_specification[ <Box<str> as Clone>::clone ](b: &Box<str>) -> (r: Box<str>)
    ensures
        r@ == b@,
;

/// Typed actual-versus-limit payload for hard-cap failures.
#[derive(Debug, Clone, PartialEq, Eq)]
pub struct ErrorLimitContext {
    /// Stable limit field name, such as `max_css_bytes`.
    pub kind: Box<str>,
    /// Observed value.
    pub actual: usize,
    /// Configured cap.
    pub limit: usize,
}

impl ErrorLimitContext {
    /// Builds a limit context.
    pub fn new(kind: &str, actual: usize, limit: usize) -> (r: Self)
        ensures
            r.kind@ == kind@,
            r.actual == actual,
            r.limit == limit,
    {
        Self { kind: into_boxed_str(String::from_str(kind)), actual, limit }
    }
}

/// Optional context for typed phase errors.
#[derive(Debug, Clone, PartialEq, Eq)]
pub struct PhaseErrorContext {
    /// Archive path.
    pub path: Option<Box<str>>,
    /// Resource href.
    pub href: Option<Box<str>>,
    /// Chapter index.
    pub chapter_index: Option<usize>,
    /// Source context, such as an inline style location.
    pub source: Option<Box<str>>,
    /// Selector context.
    pub selector: Option<Box<str>>,
    /// Selector index.
    pub selector_index: Option<usize>,
    /// Declaration context.
    pub declaration: Option<Box<str>>,
    /// Declaration index.
    pub declaration_index: Option<usize>,
    /// Tokenizer or read offset in bytes.
    pub token_offset: Option<usize>,
    /// Actual-versus-limit payload.
    pub limit: Option<Box<ErrorLimitContext>>,
}

impl Default for PhaseErrorContext {
    fn default() -> (r: Self)
        ensures
            r.path is None,
            r.href is None,
            r.chapter_index is None,
            r.source is None,
            r.selector is None,
            r.selector_index is None,
            r.declaration is None,
            r.declaration_index is None,
            r.token_offset is None,
            r.limit is None,
    {
        Self {
            path: None,
            href: None,
            chapter_index: None,
            source: None,
            selector: None,
            selector_index: None,
            declaration: None,
            declaration_index: None,
            token_offset: None,
            limit: None,
        }
    }
}

/// Typed error with explicit processing phase and context.
#[derive(Debug, Clone, PartialEq, Eq)]
pub struct PhaseError {
    /// Stable processing phase.
    pub phase: ErrorPhase,
    /// Stable machine-readable code.
    pub code: &'static str,
    /// Human-readable message.
    pub message: Box<str>,
    /// Optional rich context.
    pub context: Option<Box<PhaseErrorContext>>,
}

impl PhaseError {
    /// Creates a typed phase error without context.
    pub fn new(phase: ErrorPhase, code: &'static str, message: &str) -> (r: Self)
        ensures
            r.phase == phase,
            r.code@ == code@,
            r.message@ == message@,
            r.context is None,
    {
        Self { phase, code, message: into_boxed_str(String::from_str(message)), context: None }
    }
}

/// ZIP-specific error variants.
#[derive(Debug, Clone, PartialEq, Eq)]
#[non_exhaustive]
pub enum ZipErrorKind {
    /// File not found in archive.
    FileNotFound,
    /// Invalid ZIP format.
    InvalidFormat,
    /// Unsupported compression method.
    UnsupportedCompression,
    /// Decompression failed.
    DecompressError,
    /// CRC32 mismatch.
    CrcMismatch,
    /// I/O error during ZIP operations.
    IoError,
    /// Central directory full (exceeded max entries).
    CentralDirFull,
    /// Buffer too small for decompressed content.
    BufferTooSmall,
    /// File exceeds maximum allowed size.
    FileTooLarge,
    /// Invalid or missing mimetype file.
    InvalidMimetype(String),
    /// ZIP64 structures are present but unsupported.
    UnsupportedZip64,
}

/// The ZIP error type used across the public interface.
pub type ZipError = ZipErrorKind;

/// The text of a ZIP error.
pub open spec fn zip_error_text(e: ZipErrorKind) -> Seq<char> {
    match e {
        ZipErrorKind::FileNotFound => "file not found in archive"@,
        ZipErrorKind::InvalidFormat => "invalid ZIP format"@,
        ZipErrorKind::UnsupportedCompression => "unsupported compression method"@,
        ZipErrorKind::DecompressError => "decompression failed"@,
        ZipErrorKind::CrcMismatch => "CRC32 checksum mismatch"@,
        ZipErrorKind::IoError => "I/O error"@,
        ZipErrorKind::CentralDirFull => "central directory full"@,
        ZipErrorKind::BufferTooSmall => "buffer too small"@,
        ZipErrorKind::FileTooLarge => "file too large"@,
        ZipErrorKind::InvalidMimetype(msg) => "invalid mimetype: "@ + msg@,
        ZipErrorKind::UnsupportedZip64 => "ZIP64 is not supported"@,
    }
}

impl ZipErrorKind {
    /// The text of the error.
    pub fn to_string(&self) -> (s: String)
        ensures
            s@ == zip_error_text(*self),
    {
        match self {
            ZipErrorKind::FileNotFound => String::from_str("file not found in archive"),
            ZipErrorKind::InvalidFormat => String::from_str("invalid ZIP format"),
            ZipErrorKind::UnsupportedCompression => String::from_str(
                "unsupported compression method",
            ),
            ZipErrorKind::DecompressError => String::from_str("decompression failed"),
            ZipErrorKind::CrcMismatch => String::from_str("CRC32 checksum mismatch"),
            ZipErrorKind::IoError => String::from_str("I/O error"),
            ZipErrorKind::CentralDirFull => String::from_str("central directory full"),
            ZipErrorKind::BufferTooSmall => String::from_str("buffer too small"),
            ZipErrorKind::FileTooLarge => String::from_str("file too large"),
            ZipErrorKind::InvalidMimetype(msg) => {
                let mut s = String::from_str("invalid mimetype: ");
                s.append(msg.as_str());
                s
            },
            ZipErrorKind::UnsupportedZip64 => String::from_str("ZIP64 is not supported"),
        }
    }
}

/// The character of a decimal digit.
pub open spec fn digit_char(d: nat) -> char {
    if d == 0 {
        '0'
    } else if d == 1 {
        '1'
    } else if d == 2 {
        '2'
    } else if d == 3 {
        '3'
    } else if d == 4 {
        '4'
    } else if d == 5 {
        '5'
    } else if d == 6 {
        '6'
    } else if d == 7 {
        '7'
    } else if d == 8 {
        '8'
    } else {
        '9'
    }
}

/// The decimal digits of a number, most significant first, without leading
/// zeros.
pub open spec fn decimal(n: nat) -> Seq<char>
    decreases n,
{
    if n < 10 {
        seq![digit_char(n)]
    } else {
        decimal(n / 10).push(digit_char(n % 10))
    }
}

fn digit_str(d: usize) -> (s: &'static str)
    requires
        d < 10,
    ensures
        s@ == seq![digit_char(d as nat)],
{
    proof {
        reveal_strlit("0");
        reveal_strlit("1");
        reveal_strlit("2");
        reveal_strlit("3");
        reveal_strlit("4");
        reveal_strlit("5");
        reveal_strlit("6");
        reveal_strlit("7");
        reveal_strlit("8");
        reveal_strlit("9");
    }
    let s: &'static str = if d == 0 {
        "0"
    } else if d == 1 {
        "1"
    } else if d == 2 {
        "2"
    } else if d == 3 {
        "3"
    } else if d == 4 {
        "4"
    } else if d == 5 {
        "5"
    } else if d == 6 {
        "6"
    } else if d == 7 {
        "7"
    } else if d == 8 {
        "8"
    } else {
        "9"
    };
    assert(s@ =~= seq![digit_char(d as nat)]);
    s
}

/// Writes a number in decimal.
pub fn decimal_string(n: usize) -> (s: String)
    ensures
        s@ == decimal(n as nat),
    decreases n,
{
    if n < 10 {
        String::from_str(digit_str(n))
    } else {
        let mut s = decimal_string(n / 10);
        s.append(digit_str(n % 10));
        assert(s@ =~= decimal((n / 10) as nat).push(digit_char((n % 10) as nat)));
        s
    }
}

/// Top-level error type.
#[derive(Debug, Clone, PartialEq, Eq)]
#[non_exhaustive]
pub enum EpubError {
    /// Typed phase-aware error with structured context.
    Phase(PhaseError),
    /// ZIP archive error.
    Zip(ZipError),
    /// XML or XHTML parsing error.
    Parse(String),
    /// Invalid EPUB structure.
    InvalidEpub(String),
    /// Navigation parsing error.
    Navigation(String),
    /// CSS parsing error.
    Css(String),
    /// I/O error, by description.
    Io(String),
    /// Chapter index requested is out of bounds.
    ChapterOutOfBounds {
        /// Requested chapter index.
        index: usize,
        /// Total number of chapters available.
        chapter_count: usize,
    },
    /// Spine references a manifest item that does not exist.
    ManifestItemMissing {
        /// Missing manifest `id` referenced by spine `idref`.
        idref: String,
    },
    /// Chapter content could not be decoded as UTF-8.
    ChapterNotUtf8 {
        /// Chapter href in the archive.
        href: String,
    },
}

/// The text of a top-level error.
pub open spec fn epub_error_text(e: EpubError) -> Seq<char> {
    match e {
        EpubError::Phase(err) => phase_label(err.phase) + " error ["@ + err.code@ + "]: "@
            + err.message@,
        EpubError::Zip(kind) => "ZIP error: "@ + zip_error_text(kind),
        EpubError::Parse(msg) => "Parse error: "@ + msg@,
        EpubError::InvalidEpub(msg) => "Invalid EPUB: "@ + msg@,
        EpubError::Navigation(msg) => "Navigation error: "@ + msg@,
        EpubError::Css(msg) => "CSS error: "@ + msg@,
        EpubError::Io(msg) => "I/O error: "@ + msg@,
        EpubError::ChapterOutOfBounds { index, chapter_count } => "Chapter index "@ + decimal(
            index as nat,
        ) + " out of bounds (chapter count: "@ + decimal(chapter_count as nat) + ")"@,
        EpubError::ManifestItemMissing { idref } => "Spine item '"@ + idref@
            + "' does not exist in manifest"@,
        EpubError::ChapterNotUtf8 { href } => "Chapter content is not valid UTF-8: "@ + href@,
    }
}

fn prefixed(prefix: &str, rest: &str) -> (s: String)
    ensures
        s@ == prefix@ + rest@,
{
    let mut s = String::from_str(prefix);
    s.append(rest);
    s
}

impl EpubError {
    /// The text of the error.
    pub fn to_string(&self) -> (s: String)
        ensures
            s@ == epub_error_text(*self),
    {
        match self {
            EpubError::Phase(err) => {
                let mut s = String::from_str(err.phase.label());
                s.append(" error [");
                s.append(err.code);
                s.append("]: ");
                s.append(&*err.message);
                s
            },
            EpubError::Zip(kind) => {
                let inner = kind.to_string();
                prefixed("ZIP error: ", inner.as_str())
            },
            EpubError::Parse(msg) => prefixed("Parse error: ", msg.as_str()),
            EpubError::InvalidEpub(msg) => prefixed("Invalid EPUB: ", msg.as_str()),
            EpubError::Navigation(msg) => prefixed("Navigation error: ", msg.as_str()),
            EpubError::Css(msg) => prefixed("CSS error: ", msg.as_str()),
            EpubError::Io(msg) => prefixed("I/O error: ", msg.as_str()),
            EpubError::ChapterOutOfBounds { index, chapter_count } => {
                let mut s = String::from_str("Chapter index ");
                let a = decimal_string(*index);
                s.append(a.as_str());
                s.append(" out of bounds (chapter count: ");
                let b = decimal_string(*chapter_count);
                s.append(b.as_str());
                s.append(")");
                s
            },
            EpubError::ManifestItemMissing { idref } => {
                let mut s = String::from_str("Spine item '");
                s.append(idref.as_str());
                s.append("' does not exist in manifest");
                s
            },
            EpubError::ChapterNotUtf8 { href } => prefixed(
                "Chapter content is not valid UTF-8: ",
                href.as_str(),
            ),
        }
    }
}

impl From<PhaseError> for EpubError {
    fn from(err: PhaseError) -> (r: Self) {
        EpubError::Phase(err)
    }
}

impl vstd::std_specs::convert::FromSpecImpl<PhaseError> for EpubError {
    open spec fn obeys_from_spec() -> bool {
        true
    }

    open spec fn from_spec(err: PhaseError) -> Self {
        EpubError::Phase(err)
    }
}

} // verus!
