//! A ZIP reader for EPUB containers, with the error taxonomy that the
//! container and rendering layers share.
//!
//! The archive is held in memory as a byte sequence. Every parsing step is
//! specified as a function of those bytes, and the executable code is proved
//! to compute exactly that function. An entry can be read into a buffer,
//! appended to a vector, or taken chunk by chunk.

pub mod central;
pub mod checksum;
pub mod directory;
pub mod eocd;
pub mod error;
pub mod inflate;
pub mod le;
pub mod lookup;
pub mod mimetype;
pub mod plan;
pub mod read;
pub mod stream;
pub mod table;
pub mod text;
pub mod zip;

pub use error::{
    EpubError, ErrorLimitContext, ErrorPhase, PhaseError, PhaseErrorContext, ZipError,
    ZipErrorKind,
};
