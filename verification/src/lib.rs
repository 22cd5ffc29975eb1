//! Read-side engine for PDF-like documents: the primitive value model with
//! reference resolution, the stream filter codecs, and the typed font and
//! colour-space records built on them.
//!
//! Every function carries a contract over a mathematical view of its data;
//! the few calls into other crates sit behind small wrappers whose doc
//! comments say what is taken on trust.

pub mod cmap;
pub mod enc;
pub mod encoding;
pub mod error;
pub mod font;
pub mod object;
pub mod primitive;
pub mod stream;
pub mod text;

pub use crate::error::PdfError;
