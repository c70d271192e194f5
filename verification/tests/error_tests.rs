use mu_epub::error::{
    decimal_string, EpubError, ErrorLimitContext, ErrorPhase, PhaseError, PhaseErrorContext,
    ZipErrorKind,
};

#[test]
fn test_epub_error_display() {
    let err = EpubError::Parse("bad xml".into());
    assert_eq!(err.to_string(), "Parse error: bad xml");
}

#[test]
fn test_phase_error_display() {
    let err = EpubError::Phase(PhaseError::new(
        ErrorPhase::Style,
        "STYLE_LIMIT",
        "limit exceeded",
    ));
    assert_eq!(err.to_string(), "STYLE error [STYLE_LIMIT]: limit exceeded");
}

#[test]
fn test_zip_error_kind_debug() {
    let kind = ZipErrorKind::FileNotFound;
    assert_eq!(format!("{:?}", kind), "FileNotFound");
}

#[test]
fn test_invalid_mimetype_error() {
    let err = EpubError::Zip(ZipErrorKind::InvalidMimetype("wrong content type".into()));
    let display = err.to_string();
    assert!(display.contains("ZIP error"));
}

#[test]
fn phase_names_are_lower_case_and_labels_upper_case() {
    let phases = [
        (ErrorPhase::Open, "open", "OPEN"),
        (ErrorPhase::Parse, "parse", "PARSE"),
        (ErrorPhase::Style, "style", "STYLE"),
        (ErrorPhase::Layout, "layout", "LAYOUT"),
        (ErrorPhase::Render, "render", "RENDER"),
    ];
    for (phase, name, label) in phases {
        assert_eq!(phase.to_string(), name);
        assert_eq!(phase.label(), label);
        assert_eq!(phase.to_string().to_ascii_uppercase(), phase.label());
    }
}

#[test]
fn every_phase_opens_its_error_text() {
    let cases = [
        (ErrorPhase::Open, "OPEN error [E]: m"),
        (ErrorPhase::Parse, "PARSE error [E]: m"),
        (ErrorPhase::Style, "STYLE error [E]: m"),
        (ErrorPhase::Layout, "LAYOUT error [E]: m"),
        (ErrorPhase::Render, "RENDER error [E]: m"),
    ];
    for (phase, text) in cases {
        assert_eq!(EpubError::Phase(PhaseError::new(phase, "E", "m")).to_string(), text);
    }
}

#[test]
fn zip_error_text_of_every_variant() {
    assert_eq!(ZipErrorKind::FileNotFound.to_string(), "file not found in archive");
    assert_eq!(ZipErrorKind::InvalidFormat.to_string(), "invalid ZIP format");
    assert_eq!(
        ZipErrorKind::UnsupportedCompression.to_string(),
        "unsupported compression method"
    );
    assert_eq!(ZipErrorKind::DecompressError.to_string(), "decompression failed");
    assert_eq!(ZipErrorKind::CrcMismatch.to_string(), "CRC32 checksum mismatch");
    assert_eq!(ZipErrorKind::IoError.to_string(), "I/O error");
    assert_eq!(ZipErrorKind::CentralDirFull.to_string(), "central directory full");
    assert_eq!(ZipErrorKind::BufferTooSmall.to_string(), "buffer too small");
    assert_eq!(ZipErrorKind::FileTooLarge.to_string(), "file too large");
    assert_eq!(
        ZipErrorKind::InvalidMimetype("text/plain".to_string()).to_string(),
        "invalid mimetype: text/plain"
    );
    assert_eq!(ZipErrorKind::UnsupportedZip64.to_string(), "ZIP64 is not supported");
}

#[test]
fn epub_error_text_of_every_variant() {
    assert_eq!(
        EpubError::Zip(ZipErrorKind::CrcMismatch).to_string(),
        "ZIP error: CRC32 checksum mismatch"
    );
    assert_eq!(
        EpubError::Zip(ZipErrorKind::InvalidMimetype("x".to_string())).to_string(),
        "ZIP error: invalid mimetype: x"
    );
    assert_eq!(EpubError::InvalidEpub("no opf".to_string()).to_string(), "Invalid EPUB: no opf");
    assert_eq!(EpubError::Navigation("nav".to_string()).to_string(), "Navigation error: nav");
    assert_eq!(EpubError::Css("brace".to_string()).to_string(), "CSS error: brace");
    assert_eq!(EpubError::Io("closed".to_string()).to_string(), "I/O error: closed");
    assert_eq!(
        EpubError::ChapterOutOfBounds { index: 12, chapter_count: 7 }.to_string(),
        "Chapter index 12 out of bounds (chapter count: 7)"
    );
    assert_eq!(
        EpubError::ManifestItemMissing { idref: "ch1".to_string() }.to_string(),
        "Spine item 'ch1' does not exist in manifest"
    );
    assert_eq!(
        EpubError::ChapterNotUtf8 { href: "a.xhtml".to_string() }.to_string(),
        "Chapter content is not valid UTF-8: a.xhtml"
    );
}

#[test]
fn decimal_string_matches_std_formatting() {
    for n in [0usize, 1, 9, 10, 11, 99, 100, 101, 255, 256, 1000, 65535, 4294967295, usize::MAX] {
        assert_eq!(decimal_string(n), format!("{}", n));
    }
    assert_eq!(decimal_string(1205), "1205");
}

#[test]
fn limit_context_keeps_its_fields() {
    let ctx = ErrorLimitContext::new("max_css_bytes", 600_000, 524_288);
    assert_eq!(&*ctx.kind, "max_css_bytes");
    assert_eq!(ctx.actual, 600_000);
    assert_eq!(ctx.limit, 524_288);
    assert_eq!(ctx.clone(), ctx);
}

#[test]
fn phase_error_new_has_no_context() {
    let err = PhaseError::new(ErrorPhase::Open, "INVALID_MIMETYPE", "wrong type");
    assert_eq!(err.phase, ErrorPhase::Open);
    assert_eq!(err.code, "INVALID_MIMETYPE");
    assert_eq!(&*err.message, "wrong type");
    assert!(err.context.is_none());
}

#[test]
fn phase_error_context_default_is_empty() {
    let ctx = PhaseErrorContext::default();
    assert!(ctx.path.is_none());
    assert!(ctx.href.is_none());
    assert!(ctx.chapter_index.is_none());
    assert!(ctx.source.is_none());
    assert!(ctx.selector.is_none());
    assert!(ctx.selector_index.is_none());
    assert!(ctx.declaration.is_none());
    assert!(ctx.declaration_index.is_none());
    assert!(ctx.token_offset.is_none());
    assert!(ctx.limit.is_none());
}

#[test]
fn phase_error_converts_into_epub_error() {
    let err = PhaseError::new(ErrorPhase::Layout, "L", "m");
    let wrapped: EpubError = err.clone().into();
    assert_eq!(wrapped, EpubError::Phase(err));
}

#[test]
fn limit_context_travels_with_a_phase_error() {
    let mut err = PhaseError::new(ErrorPhase::Style, "STYLE_LIMIT", "too many selectors");
    err.context = Some(Box::new(PhaseErrorContext {
        chapter_index: Some(3),
        limit: Some(Box::new(ErrorLimitContext::new("max_selectors", 5000, 4096))),
        ..PhaseErrorContext::default()
    }));
    let ctx = err.context.clone().unwrap();
    let limit = ctx.limit.clone().unwrap();
    assert_eq!(&*limit.kind, "max_selectors");
    assert_eq!(limit.actual, 5000);
    assert_eq!(limit.limit, 4096);
    assert_eq!(ctx.chapter_index, Some(3));
    assert_eq!(
        EpubError::Phase(err).to_string(),
        "STYLE error [STYLE_LIMIT]: too many selectors"
    );
}
