//! The error taxonomy shared by every component.

use crate::primitive::ObjNr;
use vstd::prelude::*;

verus! {

/// `jpeg_decoder::Error`, the failure that the JPEG decoder reports. It is
/// declared so that an error can carry it as its cause; nothing is claimed
/// of what it holds.
#[verifier::external_type_specification]
#[verifier::external_body]
pub struct ExJpegError(jpeg_decoder::Error);

/// `std::io::Error`, the failure of reading or writing. It is declared so
/// that an error can carry it as its cause; nothing is claimed of what it
/// holds.
#[verifier::external_type_specification]
#[verifier::external_body]
pub struct ExIoError(std::io::Error);

/// Everything that can go wrong while reading a document.
#[derive(Debug)]
#[allow(inconsistent_fields)]
pub enum PdfError {
    // Syntax / parsing
    /// Unexpected end of input.
    EOF,
    /// Text could not be parsed into a value.
    Parse { msg: String },
    /// Bytes were not valid in the expected text encoding.
    Encoding { msg: String },
    /// An index lies outside a sequence of length `len`.
    Bounds { index: usize, len: usize },
    /// A token other than the expected one was found at `pos`.
    UnexpectedLexeme { pos: usize, lexeme: String, expected: &'static str },
    /// No object starts with the token found at `pos`.
    UnknownType { pos: usize, first_lexeme: String, rest: String },
    /// `name` is not a variant of the enumeration `id`.
    UnknownVariant { id: &'static str, name: String },
    /// A keyword was searched for and not found.
    NotFound { word: String },
    /// A reference was met where none may be followed.
    Reference,
    /// Bad entry kind in a cross-reference stream.
    XRefStreamType { found: u64 },
    /// Parsing ran past the end of a content stream.
    ContentReadPastBoundary,
    // Encode / decode
    /// The two bytes at `pos` are not a pair of hexadecimal digits.
    HexDecode { pos: usize, bytes: [u8; 2] },
    /// The end of base-85 data is missing or malformed.
    Ascii85TailError,
    /// A row starts with a tag that names no predictor.
    IncorrectPredictorType { n: u8 },
    /// A filter or form that this library does not decode.
    Unimplemented { what: &'static str },
    // Dictionary
    /// Field `field` of record `typ` could not be built from its value.
    FromPrimitive { typ: &'static str, field: &'static str, source: Box<PdfError> },
    /// A required key is absent from the dictionary of a `typ` record.
    MissingEntry { typ: &'static str, field: String },
    /// Key `key` holds `found` where `value` was required.
    KeyValueMismatch { key: String, value: String, found: String },
    /// The dictionary declares another type than the one expected.
    WrongDictionaryType { expected: String, found: String },
    // Misc
    /// The referenced object is marked free.
    FreeObject { obj_nr: u64 },
    /// The referenced object does not exist.
    NullRef { obj_nr: u64 },
    /// A primitive of another kind than the expected one was found.
    UnexpectedPrimitive { expected: &'static str, found: &'static str },
    /// Index into an object stream out of bounds.
    ObjStmOutOfBounds { index: usize, max: usize },
    /// Page number out of bounds.
    PageOutOfBounds { page_nr: u32, max: u32 },
    /// The page is not in the page tree.
    PageNotFound { page_nr: u32 },
    /// The cross-reference table says nothing about this object.
    UnspecifiedXRefEntry { id: ObjNr },
    /// Wrong user password.
    InvalidPassword,
    /// The JPEG decoder failed.
    Jpeg { source: jpeg_decoder::Error },
    /// Reading or writing failed.
    Io { source: std::io::Error },
    /// Any other failure, described in words.
    Other { msg: String },
    /// An absent value at a place in the source.
    NoneError { file: &'static str, line: u32, column: u32 },
    /// A failure passed on from a place in the source.
    Try { file: &'static str, line: u32, column: u32, source: Box<PdfError> },
    /// A failure passed on from a place in the source, with the values at hand.
    TryContext {
        file: &'static str,
        line: u32,
        column: u32,
        context: Vec<(&'static str, String)>,
        source: Box<PdfError>,
    },
}

/// Mathematical view of a [`PdfError`]: text as character sequences, and the
/// two foreign causes reduced to their presence.
#[allow(inconsistent_fields)]
pub ghost enum ErrorView {
    EOF,
    Parse { msg: Seq<char> },
    Encoding { msg: Seq<char> },
    Bounds { index: usize, len: usize },
    UnexpectedLexeme { pos: usize, lexeme: Seq<char>, expected: Seq<char> },
    UnknownType { pos: usize, first_lexeme: Seq<char>, rest: Seq<char> },
    UnknownVariant { id: Seq<char>, name: Seq<char> },
    NotFound { word: Seq<char> },
    Reference,
    XRefStreamType { found: u64 },
    ContentReadPastBoundary,
    HexDecode { pos: usize, bytes: Seq<u8> },
    Ascii85TailError,
    IncorrectPredictorType { n: u8 },
    Unimplemented { what: Seq<char> },
    FromPrimitive { typ: Seq<char>, field: Seq<char>, source: Box<ErrorView> },
    MissingEntry { typ: Seq<char>, field: Seq<char> },
    KeyValueMismatch { key: Seq<char>, value: Seq<char>, found: Seq<char> },
    WrongDictionaryType { expected: Seq<char>, found: Seq<char> },
    FreeObject { obj_nr: u64 },
    NullRef { obj_nr: u64 },
    UnexpectedPrimitive { expected: Seq<char>, found: Seq<char> },
    ObjStmOutOfBounds { index: usize, max: usize },
    PageOutOfBounds { page_nr: u32, max: u32 },
    PageNotFound { page_nr: u32 },
    UnspecifiedXRefEntry { id: ObjNr },
    InvalidPassword,
    Jpeg,
    Io,
    Other { msg: Seq<char> },
    NoneError { file: Seq<char>, line: u32, column: u32 },
    Try { file: Seq<char>, line: u32, column: u32, source: Box<ErrorView> },
    TryContext {
        file: Seq<char>,
        line: u32,
        column: u32,
        context: Seq<(Seq<char>, Seq<char>)>,
        source: Box<ErrorView>,
    },
}

/// The view of an error, by recursion on its causes.
pub open spec fn error_view(e: PdfError) -> ErrorView
    decreases e,
{
    match e {
        PdfError::EOF => ErrorView::EOF,
        PdfError::Parse { msg } => ErrorView::Parse { msg: msg@ },
        PdfError::Encoding { msg } => ErrorView::Encoding { msg: msg@ },
        PdfError::Bounds { index, len } => ErrorView::Bounds { index, len },
        PdfError::UnexpectedLexeme { pos, lexeme, expected } => ErrorView::UnexpectedLexeme {
            pos,
            lexeme: lexeme@,
            expected: expected@,
        },
        PdfError::UnknownType { pos, first_lexeme, rest } => ErrorView::UnknownType {
            pos,
            first_lexeme: first_lexeme@,
            rest: rest@,
        },
        PdfError::UnknownVariant { id, name } => ErrorView::UnknownVariant { id: id@, name: name@ },
        PdfError::NotFound { word } => ErrorView::NotFound { word: word@ },
        PdfError::Reference => ErrorView::Reference,
        PdfError::XRefStreamType { found } => ErrorView::XRefStreamType { found },
        PdfError::ContentReadPastBoundary => ErrorView::ContentReadPastBoundary,
        PdfError::HexDecode { pos, bytes } => ErrorView::HexDecode { pos, bytes: bytes@ },
        PdfError::Ascii85TailError => ErrorView::Ascii85TailError,
        PdfError::IncorrectPredictorType { n } => ErrorView::IncorrectPredictorType { n },
        PdfError::Unimplemented { what } => ErrorView::Unimplemented { what: what@ },
        PdfError::FromPrimitive { typ, field, source } => ErrorView::FromPrimitive {
            typ: typ@,
            field: field@,
            source: Box::new(error_view(*source)),
        },
        PdfError::MissingEntry { typ, field } => ErrorView::MissingEntry {
            typ: typ@,
            field: field@,
        },
        PdfError::KeyValueMismatch { key, value, found } => ErrorView::KeyValueMismatch {
            key: key@,
            value: value@,
            found: found@,
        },
        PdfError::WrongDictionaryType { expected, found } => ErrorView::WrongDictionaryType {
            expected: expected@,
            found: found@,
        },
        PdfError::FreeObject { obj_nr } => ErrorView::FreeObject { obj_nr },
        PdfError::NullRef { obj_nr } => ErrorView::NullRef { obj_nr },
        PdfError::UnexpectedPrimitive { expected, found } => ErrorView::UnexpectedPrimitive {
            expected: expected@,
            found: found@,
        },
        PdfError::ObjStmOutOfBounds { index, max } => ErrorView::ObjStmOutOfBounds { index, max },
        PdfError::PageOutOfBounds { page_nr, max } => ErrorView::PageOutOfBounds { page_nr, max },
        PdfError::PageNotFound { page_nr } => ErrorView::PageNotFound { page_nr },
        PdfError::UnspecifiedXRefEntry { id } => ErrorView::UnspecifiedXRefEntry { id },
        PdfError::InvalidPassword => ErrorView::InvalidPassword,
        PdfError::Jpeg { source } => ErrorView::Jpeg,
        PdfError::Io { source } => ErrorView::Io,
        PdfError::Other { msg } => ErrorView::Other { msg: msg@ },
        PdfError::NoneError { file, line, column } => ErrorView::NoneError {
            file: file@,
            line,
            column,
        },
        PdfError::Try { file, line, column, source } => ErrorView::Try {
            file: file@,
            line,
            column,
            source: Box::new(error_view(*source)),
        },
        PdfError::TryContext { file, line, column, context, source } => ErrorView::TryContext {
            file: file@,
            line,
            column,
            context: Seq::new(
                context@.len(),
                |i: int| (context@[i].0@, context@[i].1@),
            ),
            source: Box::new(error_view(*source)),
        },
    }
}

impl View for PdfError {
    type V = ErrorView;

    open spec fn view(&self) -> ErrorView {
        error_view(*self)
    }
}

/// The view of a result: the view of the value or of the error.
pub open spec fn result_view<T: View>(r: Result<T, PdfError>) -> Result<T::V, ErrorView> {
    match r {
        Ok(v) => Ok(v@),
        Err(e) => Err(e@),
    }
}

impl ErrorView {
    /// The error that this one passes on, if it passes one on that is itself
    /// a view of a [`PdfError`].
    pub open spec fn cause(self) -> Option<ErrorView> {
        match self {
            ErrorView::FromPrimitive { source, .. } => Some(*source),
            ErrorView::Try { source, .. } => Some(*source),
            ErrorView::TryContext { source, .. } => Some(*source),
            _ => None,
        }
    }

    /// Whether the failure is, at its root, the end of the input: `EOF`
    /// itself or `EOF` passed on through any number of `Try` and
    /// `TryContext` layers.
    pub open spec fn is_eof(self) -> bool
        decreases self,
    {
        match self {
            ErrorView::EOF => true,
            ErrorView::Try { source, .. } => source.is_eof(),
            ErrorView::TryContext { source, .. } => source.is_eof(),
            _ => false,
        }
    }
}

impl PdfError {
    /// Whether the failure is, at its root, the end of the input.
    pub fn is_eof(&self) -> (b: bool)
        ensures
            b == self@.is_eof(),
        decreases self,
    {
        match self {
            PdfError::EOF => true,
            PdfError::Try { source, .. } => source.is_eof(),
            PdfError::TryContext { source, .. } => source.is_eof(),
            _ => false,
        }
    }

    /// The error that this one passes on. `None` at the root of a chain, and
    /// for the variants whose cause is a foreign error.
    pub fn source(&self) -> (s: Option<&PdfError>)
        ensures
            match s {
                Some(inner) => self@.cause() == Some(inner@),
                None => self@.cause() is None,
            },
    {
        match self {
            PdfError::FromPrimitive { source, .. } => Some(&**source),
            PdfError::Try { source, .. } => Some(&**source),
            PdfError::TryContext { source, .. } => Some(&**source),
            _ => None,
        }
    }
}


/// A place to hand stream data to while debugging. The library keeps
/// nothing of it; a program that wants the data written out does so
/// itself.
pub fn dump_data(_data: &[u8]) {
}

} // verus!
