//! Stream filters: the codecs that turn the stored bytes of a stream into its
//! content, and the dispatch over the kinds of filter.

pub mod ascii85;
pub mod flate;
pub mod hex;
pub mod predictor;

pub use crate::enc::ascii85::{decode_85, encode_85, substr, sym_85, word_85};
pub use crate::enc::flate::{flate_decode, unpredict, LZWFlateParams};
pub use crate::enc::hex::{decode_hex, decode_nibble, encode_hex};
pub use crate::enc::predictor::{filter, filter_paeth, unfilter, PredictorType};

use crate::enc::ascii85::decode_85_spec;
use crate::enc::flate::{deflate_inflated, flate_spec, zlib_inflated};
use crate::enc::hex::hex_decode_spec;
use crate::error::{result_view, ErrorView, PdfError};
use crate::object::{dictionary_of, int_field_or, opt_int_field, take_int_or, take_opt_int, Resolve};
use crate::primitive::{dict_remove, DictView, Dictionary, Primitive, PrimitiveView};
use crate::text::{debug_quoted, joined, quoted, str_eq};
use vstd::prelude::*;

verus! {

/// Parameters of the DCT (JPEG) filter.
#[derive(Debug, Clone, Copy)]
pub struct DCTDecodeParams {
    /// Whether sample values were transformed before encoding: 0 for no,
    /// 1 for yes (three components to YUV, four to YUVK).
    pub color_transform: Option<i32>,
}

/// A filter of a stream, with its parameters.
#[derive(Debug, Clone, Copy)]
pub enum StreamFilter {
    ASCIIHexDecode,
    ASCII85Decode,
    LZWDecode(LZWFlateParams),
    FlateDecode(LZWFlateParams),
    /// JPEG 2000.
    JPXDecode,
    DCTDecode(DCTDecodeParams),
    CCITTFaxDecode,
    Crypt,
}

/// The parameters that a Flate or LZW parameter dictionary gives, each
/// with its default where the key is absent.
pub open spec fn flate_params_of<R: Resolve>(p: PrimitiveView, r: &R) -> Result<
    LZWFlateParams,
    ErrorView,
> {
    let typ = "LZWFlateParams"@;
    match dictionary_of(p, r) {
        Err(e) => Err(e),
        Ok(d0) => match int_field_or(d0, typ, "Predictor"@, 1, r) {
            Err(e) => Err(e),
            Ok(predictor) => {
                let d1 = dict_remove(d0, "Predictor"@);
                match int_field_or(d1, typ, "Colors"@, 1, r) {
                    Err(e) => Err(e),
                    Ok(n_components) => {
                        let d2 = dict_remove(d1, "Colors"@);
                        match int_field_or(d2, typ, "BitsPerComponent"@, 8, r) {
                            Err(e) => Err(e),
                            Ok(bits_per_component) => {
                                let d3 = dict_remove(d2, "BitsPerComponent"@);
                                match int_field_or(d3, typ, "Columns"@, 1, r) {
                                    Err(e) => Err(e),
                                    Ok(columns) => {
                                        let d4 = dict_remove(d3, "Columns"@);
                                        match int_field_or(d4, typ, "EarlyChange"@, 1, r) {
                                            Err(e) => Err(e),
                                            Ok(early_change) => Ok(
                                                LZWFlateParams {
                                                    predictor,
                                                    n_components,
                                                    bits_per_component,
                                                    columns,
                                                    early_change,
                                                },
                                            ),
                                        }
                                    },
                                }
                            },
                        }
                    },
                }
            },
        },
    }
}

/// The parameters that a DCT parameter dictionary gives.
pub open spec fn dct_params_of<R: Resolve>(p: PrimitiveView, r: &R) -> Result<
    DCTDecodeParams,
    ErrorView,
> {
    match dictionary_of(p, r) {
        Err(e) => Err(e),
        Ok(d) => match opt_int_field(d, "DCTDecodeParams"@, "ColorTransform"@, r) {
            Err(e) => Err(e),
            Ok(color_transform) => Ok(DCTDecodeParams { color_transform }),
        },
    }
}

impl LZWFlateParams {
    /// Reads the parameters from a dictionary. Absent keys take their
    /// defaults: predictor 1, one component, eight bits, one column, early
    /// change 1.
    pub fn from_primitive(p: Primitive, r: &impl Resolve) -> (res: Result<
        LZWFlateParams,
        PdfError,
    >)
        ensures
            match res {
                Ok(params) => flate_params_of(p@, r) == Ok::<LZWFlateParams, ErrorView>(params),
                Err(e) => flate_params_of(p@, r) == Err::<LZWFlateParams, ErrorView>(e@),
            },
    {
        let mut dict = match p.to_dictionary(r) {
            Ok(d) => d,
            Err(e) => {
                return Err(e);
            },
        };
        let predictor = match take_int_or(&mut dict, "LZWFlateParams", "Predictor", 1, r) {
            Ok(n) => n,
            Err(e) => {
                return Err(e);
            },
        };
        let n_components = match take_int_or(&mut dict, "LZWFlateParams", "Colors", 1, r) {
            Ok(n) => n,
            Err(e) => {
                return Err(e);
            },
        };
        let bits_per_component = match take_int_or(
            &mut dict,
            "LZWFlateParams",
            "BitsPerComponent",
            8,
            r,
        ) {
            Ok(n) => n,
            Err(e) => {
                return Err(e);
            },
        };
        let columns = match take_int_or(&mut dict, "LZWFlateParams", "Columns", 1, r) {
            Ok(n) => n,
            Err(e) => {
                return Err(e);
            },
        };
        let early_change = match take_int_or(&mut dict, "LZWFlateParams", "EarlyChange", 1, r) {
            Ok(n) => n,
            Err(e) => {
                return Err(e);
            },
        };
        Ok(LZWFlateParams { predictor, n_components, bits_per_component, columns, early_change })
    }
}

impl DCTDecodeParams {
    /// Reads the parameters from a dictionary.
    pub fn from_primitive(p: Primitive, r: &impl Resolve) -> (res: Result<
        DCTDecodeParams,
        PdfError,
    >)
        ensures
            match res {
                Ok(params) => dct_params_of(p@, r) == Ok::<DCTDecodeParams, ErrorView>(params),
                Err(e) => dct_params_of(p@, r) == Err::<DCTDecodeParams, ErrorView>(e@),
            },
    {
        let mut dict = match p.to_dictionary(r) {
            Ok(d) => d,
            Err(e) => {
                return Err(e);
            },
        };
        match take_opt_int(&mut dict, "DCTDecodeParams", "ColorTransform", r) {
            Ok(color_transform) => Ok(DCTDecodeParams { color_transform }),
            Err(e) => Err(e),
        }
    }
}

/// The filter that a name and a parameter dictionary stand for.
pub open spec fn filter_of<R: Resolve>(kind: Seq<char>, params: DictView, r: &R) -> Result<
    StreamFilter,
    ErrorView,
> {
    let p = PrimitiveView::Dictionary(params);
    if kind == "ASCIIHexDecode"@ {
        Ok(StreamFilter::ASCIIHexDecode)
    } else if kind == "ASCII85Decode"@ {
        Ok(StreamFilter::ASCII85Decode)
    } else if kind == "LZWDecode"@ {
        match flate_params_of(p, r) {
            Ok(x) => Ok(StreamFilter::LZWDecode(x)),
            Err(e) => Err(e),
        }
    } else if kind == "FlateDecode"@ {
        match flate_params_of(p, r) {
            Ok(x) => Ok(StreamFilter::FlateDecode(x)),
            Err(e) => Err(e),
        }
    } else if kind == "JPXDecode"@ {
        Ok(StreamFilter::JPXDecode)
    } else if kind == "DCTDecode"@ {
        match dct_params_of(p, r) {
            Ok(x) => Ok(StreamFilter::DCTDecode(x)),
            Err(e) => Err(e),
        }
    } else if kind == "CCITTFaxDecode"@ {
        Ok(StreamFilter::CCITTFaxDecode)
    } else if kind == "Crypt"@ {
        Ok(StreamFilter::Crypt)
    } else {
        Err(ErrorView::Other { msg: "Unrecognized filter type "@ + debug_quoted(kind) })
    }
}

impl StreamFilter {
    /// The filter that `kind` names, with the parameters that `params`
    /// holds for it. Fails where `kind` names no filter, and where a
    /// parameter cannot be read.
    pub fn from_kind_and_params(kind: &str, params: Dictionary, r: &impl Resolve) -> (res: Result<
        StreamFilter,
        PdfError,
    >)
        ensures
            match res {
                Ok(f) => filter_of(kind@, params@, r) == Ok::<StreamFilter, ErrorView>(f),
                Err(e) => filter_of(kind@, params@, r) == Err::<StreamFilter, ErrorView>(e@),
            },
    {
        let params = Primitive::Dictionary(params);
        if str_eq(kind, "ASCIIHexDecode") {
            Ok(StreamFilter::ASCIIHexDecode)
        } else if str_eq(kind, "ASCII85Decode") {
            Ok(StreamFilter::ASCII85Decode)
        } else if str_eq(kind, "LZWDecode") {
            match LZWFlateParams::from_primitive(params, r) {
                Ok(x) => Ok(StreamFilter::LZWDecode(x)),
                Err(e) => Err(e),
            }
        } else if str_eq(kind, "FlateDecode") {
            match LZWFlateParams::from_primitive(params, r) {
                Ok(x) => Ok(StreamFilter::FlateDecode(x)),
                Err(e) => Err(e),
            }
        } else if str_eq(kind, "JPXDecode") {
            Ok(StreamFilter::JPXDecode)
        } else if str_eq(kind, "DCTDecode") {
            match DCTDecodeParams::from_primitive(params, r) {
                Ok(x) => Ok(StreamFilter::DCTDecode(x)),
                Err(e) => Err(e),
            }
        } else if str_eq(kind, "CCITTFaxDecode") {
            Ok(StreamFilter::CCITTFaxDecode)
        } else if str_eq(kind, "Crypt") {
            Ok(StreamFilter::Crypt)
        } else {
            let shown = quoted(kind);
            Err(PdfError::Other { msg: joined("Unrecognized filter type ", shown.as_str()) })
        }
    }
}

/// Decodes a JPEG image with `jpeg_decoder::Decoder`. Trusted: the call
/// returns. Nothing is claimed of the samples or of the error, which may
/// differ from one machine to another.
#[verifier::external_body]
fn jpeg_decode(data: &[u8]) -> (res: Result<Vec<u8>, jpeg_decoder::Error>) {
    jpeg_decoder::Decoder::new(data).decode()
}

/// What the DCT filter returns for what the JPEG decoder returned: the
/// samples as they are, a failure wrapped as `Jpeg`.
pub fn jpeg_outcome(decoded: Result<Vec<u8>, jpeg_decoder::Error>) -> (res: Result<
    Vec<u8>,
    PdfError,
>)
    ensures
        match decoded {
            Ok(pixels) => res == Ok::<Vec<u8>, PdfError>(pixels),
            Err(_) => res matches Err(e) && e@ == ErrorView::Jpeg,
        },
{
    match decoded {
        Ok(pixels) => Ok(pixels),
        Err(source) => Err(PdfError::Jpeg { source }),
    }
}

/// Decodes a JPEG image into its samples. A failure of the decoder comes
/// back wrapped as `Jpeg`.
pub fn dct_decode(data: &[u8], params: &DCTDecodeParams) -> (res: Result<Vec<u8>, PdfError>)
    ensures
        res matches Err(e) ==> e@ == ErrorView::Jpeg,
{
    jpeg_outcome(jpeg_decode(data))
}

/// The error for a filter that is not decoded here.
pub open spec fn unimplemented(what: Seq<char>) -> ErrorView {
    ErrorView::Unimplemented { what }
}

/// What one filter makes of `data`, where that depends on `data` and the
/// filter alone; `None` for the DCT filter, whose result the JPEG decoder
/// decides.
pub open spec fn decode_spec(data: Seq<u8>, filter: StreamFilter) -> Option<
    Result<Seq<u8>, ErrorView>,
> {
    match filter {
        StreamFilter::ASCIIHexDecode => Some(hex_decode_spec(data)),
        StreamFilter::ASCII85Decode => Some(
            match decode_85_spec(data) {
                Some(bytes) => Ok(bytes),
                None => Err(ErrorView::Ascii85TailError),
            },
        ),
        StreamFilter::FlateDecode(params) => Some(
            flate_spec(zlib_inflated(data), deflate_inflated(data), params),
        ),
        StreamFilter::DCTDecode(_) => None,
        StreamFilter::LZWDecode(_) => Some(Err(unimplemented("LZWDecode"@))),
        StreamFilter::JPXDecode => Some(Err(unimplemented("JPXDecode"@))),
        StreamFilter::CCITTFaxDecode => Some(Err(unimplemented("CCITTFaxDecode"@))),
        StreamFilter::Crypt => Some(Err(unimplemented("Crypt"@))),
    }
}

/// Applies one filter to `data`.
///
/// The LZW, JPX, CCITT fax and Crypt filters are not decoded: they fail
/// with `Unimplemented`, which names the filter, and never pass data
/// through. A failure of the DCT filter is a `Jpeg` error.
pub fn decode(data: &[u8], filter: &StreamFilter) -> (res: Result<Vec<u8>, PdfError>)
    ensures
        decode_spec(data@, *filter) matches Some(r) ==> result_view(res) == r,
        *filter is DCTDecode ==> (res matches Err(e) ==> e@ == ErrorView::Jpeg),
{
    match *filter {
        StreamFilter::ASCIIHexDecode => decode_hex(data),
        StreamFilter::ASCII85Decode => decode_85(data),
        StreamFilter::FlateDecode(ref params) => flate_decode(data, params),
        StreamFilter::DCTDecode(ref params) => dct_decode(data, params),
        StreamFilter::LZWDecode(_) => Err(PdfError::Unimplemented { what: "LZWDecode" }),
        StreamFilter::JPXDecode => Err(PdfError::Unimplemented { what: "JPXDecode" }),
        StreamFilter::CCITTFaxDecode => Err(PdfError::Unimplemented { what: "CCITTFaxDecode" }),
        StreamFilter::Crypt => Err(PdfError::Unimplemented { what: "Crypt" }),
    }
}

} // verus!
