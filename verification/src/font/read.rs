//! Building a font from its dictionary.

use crate::encoding::{encoding_of, Encoding};
use crate::error::{result_view, ErrorView, PdfError};
use crate::font::descriptor::{descriptor_of, FontDescriptor};
use crate::font::{
    data_view, font_type_of, font_view, fonts_view, lemma_type0_view, standard_from, type0_view,
    CIDFont, CIDFontView, Font, FontData, FontDataView, FontType, FontView, StandardFonts,
    StandardFontsView, TFont, TFontView, Type0Font, Type0FontView,
};
use crate::object::{
    at, chase, dictionary_of, in_field, lemma_chase_end, number_of, numbers_of, opt_field,
    opt_int_field, required, take_number_or, take_numbers, take_opt_int, take_opt_name, too_deep,
    with_default, wrap_field, name_of, Resolve, MAX_DEPTH,
};
use crate::primitive::{
    dict_get, dict_remove, expect_spec, prims_view, require_spec, unexpected, zero, DictView,
    Dictionary, Number, Primitive, PrimitiveView, Real,
};
use crate::stream::{plain_stream_spec, take_opt_stream, Stream};
use std::rc::Rc;
use vstd::prelude::*;

verus! {

/// What a Type 1 or TrueType font dictionary says. The fields are read
/// in the order of the record; the first that fails is the failure of the
/// whole.
pub open spec fn tfont_from<R: Resolve>(d0: DictView, r: &R) -> Result<TFontView, ErrorView> {
    let t = "TFont"@;
    let name = opt_field(dict_get(d0, "Name"@), t, "Name"@, name_of(at(d0, "Name"@), r));
    let d1 = dict_remove(d0, "Name"@);
    let first_char = opt_int_field(d1, t, "FirstChar"@, r);
    let d2 = dict_remove(d1, "FirstChar"@);
    let last_char = opt_int_field(d2, t, "LastChar"@, r);
    let d3 = dict_remove(d2, "LastChar"@);
    let widths = with_default(
        dict_get(d3, "Widths"@),
        t,
        "Widths"@,
        Seq::<Number>::empty(),
        numbers_of(at(d3, "Widths"@), r),
    );
    let d4 = dict_remove(d3, "Widths"@);
    let font_descriptor = required(
        dict_get(d4, "FontDescriptor"@),
        t,
        "FontDescriptor"@,
        descriptor_of(at(d4, "FontDescriptor"@), r),
    );
    if name is Err {
        Err(name->Err_0)
    } else if first_char is Err {
        Err(first_char->Err_0)
    } else if last_char is Err {
        Err(last_char->Err_0)
    } else if widths is Err {
        Err(widths->Err_0)
    } else if font_descriptor is Err {
        Err(font_descriptor->Err_0)
    } else {
        Ok(
            TFontView {
                name: name->Ok_0,
                first_char: first_char->Ok_0,
                last_char: last_char->Ok_0,
                widths: widths->Ok_0,
                font_descriptor: font_descriptor->Ok_0,
            },
        )
    }
}

/// A list of values as they stand: none where the value is null, the
/// items of an array, or the one value.
pub open spec fn values_of<R: Resolve>(p: PrimitiveView, r: &R) -> Result<
    Seq<PrimitiveView>,
    ErrorView,
> {
    match chase(p, r, MAX_DEPTH as nat) {
        Err(e) => Err(e),
        Ok(PrimitiveView::Null) => Ok(Seq::empty()),
        Ok(PrimitiveView::Array(items)) => Ok(items),
        Ok(q) => Ok(seq![q]),
    }
}

/// What a CID-keyed font dictionary says. What is left of the dictionary
/// after its fields are read is kept.
pub open spec fn cid_font_from<R: Resolve>(d0: DictView, r: &R) -> Result<CIDFontView, ErrorView> {
    let t = "CIDFont"@;
    let system_info = required(
        dict_get(d0, "CIDSystemInfo"@),
        t,
        "CIDSystemInfo"@,
        dictionary_of(at(d0, "CIDSystemInfo"@), r),
    );
    let d1 = dict_remove(d0, "CIDSystemInfo"@);
    let font_descriptor = required(
        dict_get(d1, "FontDescriptor"@),
        t,
        "FontDescriptor"@,
        descriptor_of(at(d1, "FontDescriptor"@), r),
    );
    let d2 = dict_remove(d1, "FontDescriptor"@);
    let default_width = with_default(
        dict_get(d2, "DW"@),
        t,
        "DW"@,
        zero(),
        number_of(at(d2, "DW"@), r),
    );
    let d3 = dict_remove(d2, "DW"@);
    let widths = with_default(
        dict_get(d3, "W"@),
        t,
        "W"@,
        Seq::<PrimitiveView>::empty(),
        values_of(at(d3, "W"@), r),
    );
    let d4 = dict_remove(d3, "W"@);
    if system_info is Err {
        Err(system_info->Err_0)
    } else if font_descriptor is Err {
        Err(font_descriptor->Err_0)
    } else if default_width is Err {
        Err(default_width->Err_0)
    } else if widths is Err {
        Err(widths->Err_0)
    } else {
        Ok(
            CIDFontView {
                system_info: system_info->Ok_0,
                font_descriptor: font_descriptor->Ok_0,
                default_width: default_width->Ok_0,
                widths: widths->Ok_0,
                other: d4,
            },
        )
    }
}

/// The glyph indices that bytes spell, two bytes each, high byte first.
/// A last odd byte is left out.
pub open spec fn gid_table(bytes: Seq<u8>) -> Seq<u16> {
    Seq::new(bytes.len() / 2, |i: int| (bytes[2 * i] as int * 256 + bytes[2 * i + 1] as int) as u16)
}

/// The table from character identifier to glyph index under
/// `CIDToGIDMap`: the content of a stream, read as glyph indices. No
/// table, which says that the identifiers are the indices, where the key
/// is absent or holds anything but a stream or a reference. The outer
/// `None` says that a JPEG decoder decides the content.
pub open spec fn cid_map_of<R: Resolve>(found: Option<PrimitiveView>, r: &R) -> Option<
    Result<Option<Seq<u16>>, ErrorView>,
> {
    match found {
        Some(p) => {
            if p is Stream || p is Reference {
                match plain_stream_spec(p, r) {
                    Err(e) => Some(Err(e)),
                    Ok(s) => match s.content() {
                        None => None,
                        Some(Err(e)) => Some(Err(e)),
                        Some(Ok(bytes)) => Some(Ok(Some(gid_table(bytes)))),
                    },
                }
            } else {
                Some(Ok(None))
            }
        },
        None => Some(Ok(None)),
    }
}

/// The font that a value stands for, with fonts nested at most `depth`
/// deep. `None` where a JPEG decoder decides a part of it.
///
/// The dictionary has to say `Type` `Font` and to hold `BaseFont` and
/// `Subtype`; `Encoding` and `ToUnicode` are read where they are there.
/// What is left of the dictionary then is kept, and decides the rest:
/// see [`font_data_of`].
pub open spec fn font_of<R: Resolve>(
    p: PrimitiveView,
    r: &R,
    std: StandardFontsView,
    depth: nat,
) -> Option<Result<FontView, ErrorView>>
    decreases depth, 6int, 0int,
{
    match dictionary_of(p, r) {
        Err(e) => Some(Err(e)),
        Ok(d0) => match expect_spec(d0, "Font"@, "Type"@, "Font"@, true) {
            Err(e) => Some(Err(e)),
            Ok(_) => match require_spec(d0, "Font"@, "BaseFont"@) {
                Err(e) => Some(Err(e)),
                Ok(PrimitiveView::Name(base_font)) => {
                    let d1 = dict_remove(d0, "BaseFont"@);
                    match require_spec(d1, "Font"@, "Subtype"@) {
                        Err(e) => Some(Err(e)),
                        Ok(kind) => match font_type_of(kind, r) {
                            Err(e) => Some(Err(e)),
                            Ok(subtype) => {
                                let d2 = dict_remove(d1, "Subtype"@);
                                let encoding = match dict_get(d2, "Encoding"@) {
                                    None => Ok(None),
                                    Some(e) => match encoding_of(e, r) {
                                        Ok(x) => Ok(Some(x)),
                                        Err(e) => Err(e),
                                    },
                                };
                                let d3 = dict_remove(d2, "Encoding"@);
                                let to_unicode = match dict_get(d3, "ToUnicode"@) {
                                    None => Ok(None),
                                    Some(s) => match plain_stream_spec(s, r) {
                                        Ok(x) => Ok(Some(x)),
                                        Err(e) => Err(e),
                                    },
                                };
                                let d4 = dict_remove(d3, "ToUnicode"@);
                                if encoding is Err {
                                    Some(Err(encoding->Err_0))
                                } else if to_unicode is Err {
                                    Some(Err(to_unicode->Err_0))
                                } else {
                                    match font_data_of(d4, base_font, subtype, r, std, depth) {
                                        None => None,
                                        Some(Err(e)) => Some(Err(e)),
                                        Some(Ok(data)) => Some(
                                            Ok(
                                                FontView {
                                                    subtype,
                                                    name: base_font,
                                                    data,
                                                    encoding: encoding->Ok_0,
                                                    to_unicode: to_unicode->Ok_0,
                                                    other: d4,
                                                },
                                            ),
                                        ),
                                    }
                                }
                            },
                        },
                    }
                },
                Ok(q) => Some(Err(unexpected("Name"@, q))),
            },
        },
    }
}

/// What a font is. Where its base font name is exactly the name of a
/// standard font, it is that font, whatever its declared kind and
/// whatever else its dictionary holds; nothing else is looked at. Else
/// its declared kind decides.
pub open spec fn font_data_of<R: Resolve>(
    d: DictView,
    base_font: Seq<char>,
    subtype: FontType,
    r: &R,
    std: StandardFontsView,
    depth: nat,
) -> Option<Result<FontDataView, ErrorView>>
    decreases depth, 5int, 0int,
{
    match standard_from(std, base_font, 0) {
        Some(program) => Some(Ok(FontDataView::Standard(program))),
        None => match subtype {
            FontType::Type0 => match type0_from(d, r, std, depth) {
                None => None,
                Some(Err(e)) => Some(Err(e)),
                Some(Ok(t)) => Some(Ok(FontDataView::Type0(t))),
            },
            FontType::Type1 => match tfont_from(d, r) {
                Err(e) => Some(Err(e)),
                Ok(t) => Some(Ok(FontDataView::Type1(t))),
            },
            FontType::TrueType => match tfont_from(d, r) {
                Err(e) => Some(Err(e)),
                Ok(t) => Some(Ok(FontDataView::TrueType(t))),
            },
            FontType::CIDFontType0 => match cid_font_from(d, r) {
                Err(e) => Some(Err(e)),
                Ok(c) => Some(Ok(FontDataView::CIDFontType0(c))),
            },
            FontType::CIDFontType2 => match cid_map_of(dict_get(d, "CIDToGIDMap"@), r) {
                None => None,
                Some(Err(e)) => Some(Err(e)),
                Some(Ok(map)) => match cid_font_from(dict_remove(d, "CIDToGIDMap"@), r) {
                    Err(e) => Some(Err(e)),
                    Ok(c) => Some(Ok(FontDataView::CIDFontType2(c, map))),
                },
            },
            _ => Some(Ok(FontDataView::Other(d))),
        },
    }
}

/// What a Type 0 font dictionary says.
pub open spec fn type0_from<R: Resolve>(
    d0: DictView,
    r: &R,
    std: StandardFontsView,
    depth: nat,
) -> Option<Result<Type0FontView, ErrorView>>
    decreases depth, 4int, 0int,
{
    let t = "Type0Font"@;
    let descendants = match dict_get(d0, "DescendantFonts"@) {
        None => Some(Ok(Seq::empty())),
        Some(p) => match descendants_of(p, r, std, depth) {
            None => None,
            Some(Ok(fonts)) => Some(Ok(fonts)),
            Some(Err(e)) => Some(Err(in_field(t, "DescendantFonts"@, e))),
        },
    };
    let d1 = dict_remove(d0, "DescendantFonts"@);
    let to_unicode = opt_field(
        dict_get(d1, "ToUnicode"@),
        t,
        "ToUnicode"@,
        plain_stream_spec(at(d1, "ToUnicode"@), r),
    );
    match descendants {
        None => None,
        Some(Err(e)) => Some(Err(e)),
        Some(Ok(descendant_fonts)) => match to_unicode {
            Err(e) => Some(Err(e)),
            Ok(to_unicode) => Some(Ok(Type0FontView { descendant_fonts, to_unicode })),
        },
    }
}

/// The fonts that a Type 0 font is composed of: none where the value is
/// null, those of an array, or the one font that the value is.
pub open spec fn descendants_of<R: Resolve>(
    p: PrimitiveView,
    r: &R,
    std: StandardFontsView,
    depth: nat,
) -> Option<Result<Seq<FontView>, ErrorView>>
    decreases depth, 3int, 0int,
{
    match chase(p, r, MAX_DEPTH as nat) {
        Err(e) => Some(Err(e)),
        Ok(PrimitiveView::Null) => Some(Ok(Seq::empty())),
        Ok(PrimitiveView::Array(items)) => fonts_upto(items, r, std, depth, items.len()),
        Ok(q) => match nested_font_of(q, r, std, depth) {
            None => None,
            Some(Err(e)) => Some(Err(e)),
            Some(Ok(f)) => Some(Ok(seq![f])),
        },
    }
}

/// The first `n` of a list of fonts.
pub open spec fn fonts_upto<R: Resolve>(
    items: Seq<PrimitiveView>,
    r: &R,
    std: StandardFontsView,
    depth: nat,
    n: nat,
) -> Option<Result<Seq<FontView>, ErrorView>>
    decreases depth, 2int, n,
{
    if n == 0 {
        Some(Ok(Seq::empty()))
    } else {
        match fonts_upto(items, r, std, depth, (n - 1) as nat) {
            None => None,
            Some(Err(e)) => Some(Err(e)),
            Some(Ok(done)) => match nested_font_of(items[n - 1], r, std, depth) {
                None => None,
                Some(Err(e)) => Some(Err(e)),
                Some(Ok(f)) => Some(Ok(done.push(f))),
            },
        }
    }
}

/// A font inside another: the value is followed through references and
/// read one level deeper. Fails where no level is left.
pub open spec fn nested_font_of<R: Resolve>(
    p: PrimitiveView,
    r: &R,
    std: StandardFontsView,
    depth: nat,
) -> Option<Result<FontView, ErrorView>>
    decreases depth, 1int, 0int,
{
    if depth == 0 {
        Some(Err(too_deep()))
    } else {
        match chase(p, r, MAX_DEPTH as nat) {
            Err(e) => Some(Err(e)),
            Ok(q) => font_of(q, r, std, (depth - 1) as nat),
        }
    }
}


/// Takes the descriptor, which has to be there, out of `dict`.
fn take_descriptor(dict: &mut Dictionary, typ: &'static str, r: &impl Resolve) -> (res: Result<
    FontDescriptor,
    PdfError,
>)
    ensures
        final(dict)@ == dict_remove(old(dict)@, "FontDescriptor"@),
        result_view(res) == required(
            dict_get(old(dict)@, "FontDescriptor"@),
            typ@,
            "FontDescriptor"@,
            descriptor_of(at(old(dict)@, "FontDescriptor"@), r),
        ),
{
    match dict.remove("FontDescriptor") {
        None => Err(PdfError::MissingEntry { typ, field: "FontDescriptor".to_owned() }),
        Some(p) => match FontDescriptor::from_primitive(p, r) {
            Ok(x) => Ok(x),
            Err(e) => Err(wrap_field(typ, "FontDescriptor", e)),
        },
    }
}

impl TFont {
    /// Reads what a Type 1 or TrueType font dictionary says.
    pub fn from_dict(dict: Dictionary, r: &impl Resolve) -> (res: Result<TFont, PdfError>)
        ensures
            result_view(res) == tfont_from(dict@, r),
    {
        let mut dict = dict;
        let name = match take_opt_name(&mut dict, "TFont", "Name", r) {
            Ok(x) => x,
            Err(e) => {
                return Err(e);
            },
        };
        let first_char = match take_opt_int(&mut dict, "TFont", "FirstChar", r) {
            Ok(x) => x,
            Err(e) => {
                return Err(e);
            },
        };
        let last_char = match take_opt_int(&mut dict, "TFont", "LastChar", r) {
            Ok(x) => x,
            Err(e) => {
                return Err(e);
            },
        };
        let widths = match take_numbers(&mut dict, "TFont", "Widths", r) {
            Ok(x) => x,
            Err(e) => {
                return Err(e);
            },
        };
        let font_descriptor = match take_descriptor(&mut dict, "TFont", r) {
            Ok(x) => x,
            Err(e) => {
                return Err(e);
            },
        };
        Ok(TFont { name, first_char, last_char, widths, font_descriptor })
    }
}

/// Reads a list of values as they stand.
fn values_from_primitive(p: Primitive, r: &impl Resolve) -> (res: Result<Vec<Primitive>, PdfError>)
    ensures
        match res {
            Ok(v) => values_of(p@, r) == Ok::<Seq<PrimitiveView>, ErrorView>(prims_view(v@)),
            Err(e) => values_of(p@, r) == Err::<Seq<PrimitiveView>, ErrorView>(e@),
        },
{
    match p.resolved(r) {
        Err(e) => Err(e),
        Ok(Primitive::Null) => {
            let v: Vec<Primitive> = Vec::new();
            assert(prims_view(v@) =~= Seq::empty());
            Ok(v)
        },
        Ok(Primitive::Array(items)) => Ok(items),
        Ok(q) => {
            let mut v: Vec<Primitive> = Vec::new();
            let ghost view = q@;
            v.push(q);
            assert(prims_view(v@) =~= seq![view]);
            Ok(v)
        },
    }
}

impl CIDFont {
    /// Reads what a CID-keyed font dictionary says.
    pub fn from_dict(dict: Dictionary, r: &impl Resolve) -> (res: Result<CIDFont, PdfError>)
        ensures
            result_view(res) == cid_font_from(dict@, r),
    {
        let mut dict = dict;
        let system_info = match dict.remove("CIDSystemInfo") {
            None => {
                return Err(
                    PdfError::MissingEntry { typ: "CIDFont", field: "CIDSystemInfo".to_owned() },
                );
            },
            Some(p) => match p.to_dictionary(r) {
                Ok(d) => d,
                Err(e) => {
                    return Err(wrap_field("CIDFont", "CIDSystemInfo", e));
                },
            },
        };
        let font_descriptor = match take_descriptor(&mut dict, "CIDFont", r) {
            Ok(x) => x,
            Err(e) => {
                return Err(e);
            },
        };
        let nothing = Number::Real(Real { bits: 0 });
        let default_width = match take_number_or(&mut dict, "CIDFont", "DW", nothing, r) {
            Ok(x) => x,
            Err(e) => {
                return Err(e);
            },
        };
        let widths = match dict.remove("W") {
            None => {
                let v: Vec<Primitive> = Vec::new();
                assert(prims_view(v@) =~= Seq::empty());
                v
            },
            Some(p) => match values_from_primitive(p, r) {
                Ok(v) => v,
                Err(e) => {
                    return Err(wrap_field("CIDFont", "W", e));
                },
            },
        };
        Ok(CIDFont { system_info, font_descriptor, default_width, widths, _other: dict })
    }
}

/// Reads glyph indices from bytes, two bytes each, high byte first.
pub fn read_gid_table(bytes: &[u8]) -> (table: Vec<u16>)
    ensures
        table@ == gid_table(bytes@),
{
    let len = bytes.len();
    let n = len / 2;
    let mut table: Vec<u16> = Vec::new();
    let mut i: usize = 0;
    while i < n
        invariant
            i <= n,
            len == bytes@.len(),
            n == len / 2,
            table@.len() == i,
            forall|j: int| 0 <= j < i ==> table@[j] == gid_table(bytes@)[j],
        decreases n - i,
    {
        table.push(bytes[2 * i] as u16 * 256 + bytes[2 * i + 1] as u16);
        i += 1;
    }
    assert(table@ =~= gid_table(bytes@));
    table
}

/// Reads the table from character identifier to glyph index.
fn read_cid_map(found: Option<Primitive>, r: &impl Resolve) -> (res: Result<
    Option<Vec<u16>>,
    PdfError,
>)
    ensures
        cid_map_of(crate::object::opt_view(found), r) matches Some(expected) ==> match res {
            Ok(Some(table)) => expected == Ok::<Option<Seq<u16>>, ErrorView>(Some(table@)),
            Ok(None) => expected == Ok::<Option<Seq<u16>>, ErrorView>(None),
            Err(e) => expected == Err::<Option<Seq<u16>>, ErrorView>(e@),
        },
{
    let p = match found {
        Some(p) => p,
        None => {
            return Ok(None);
        },
    };
    let is_table = match &p {
        Primitive::Stream(_) => true,
        Primitive::Reference(_) => true,
        _ => false,
    };
    if !is_table {
        return Ok(None);
    }
    let stream = match Stream::<()>::from_primitive(p, r) {
        Ok(s) => s,
        Err(e) => {
            return Err(e);
        },
    };
    match stream.data() {
        Ok(data) => Ok(Some(read_gid_table(data.as_slice()))),
        Err(e) => Err(e),
    }
}

impl Font {
    /// Writing a font out is not provided: this fails with
    /// `Unimplemented` and leaves `out` as it is.
    pub fn serialize(&self, out: &mut Vec<u8>) -> (res: Result<(), PdfError>)
        ensures
            res matches Err(e) && e@ == (ErrorView::Unimplemented { what: "serialize"@ }),
            final(out)@ == old(out)@,
    {
        Err(PdfError::Unimplemented { what: "serialize" })
    }

    /// Builds a font from its dictionary.
    ///
    /// The dictionary has to say `Type` `Font` and to hold `BaseFont` and
    /// `Subtype`: a missing key fails with `MissingEntry`, which names
    /// `Font` and the key. A base font name that is exactly the name of a
    /// standard font makes the font that standard font, whatever its
    /// declared kind, and nothing of its descriptor or program is looked
    /// at. Else the declared kind decides what is read. Fonts nested
    /// deeper than `MAX_DEPTH` are refused.
    pub fn from_primitive(p: Primitive, resolve: &impl Resolve, standard: &StandardFonts) -> (res:
        Result<Font, PdfError>)
        ensures
            font_of(p@, resolve, standard@, MAX_DEPTH as nat) matches Some(expected)
                ==> result_view(res) == expected,
    {
        Font::read(p, resolve, standard, MAX_DEPTH)
    }

    /// Builds a font whose nested fonts go at most `depth` deep.
    fn read(p: Primitive, r: &impl Resolve, standard: &StandardFonts, depth: usize) -> (res: Result<
        Font,
        PdfError,
    >)
        ensures
            font_of(p@, r, standard@, depth as nat) matches Some(expected) ==> result_view(res)
                == expected,
        decreases depth, 6int, 0int,
    {
        let mut dict = match p.to_dictionary(r) {
            Ok(d) => d,
            Err(e) => {
                return Err(e);
            },
        };
        match dict.expect("Font", "Type", "Font", true) {
            Ok(_) => {},
            Err(e) => {
                return Err(e);
            },
        }
        let base_font = match dict.require("Font", "BaseFont") {
            Ok(p) => match p.to_name() {
                Ok(name) => name,
                Err(e) => {
                    return Err(e);
                },
            },
            Err(e) => {
                return Err(e);
            },
        };
        let subtype = match dict.require("Font", "Subtype") {
            Ok(p) => match FontType::from_primitive(p, r) {
                Ok(x) => x,
                Err(e) => {
                    return Err(e);
                },
            },
            Err(e) => {
                return Err(e);
            },
        };
        let encoding = match dict.remove("Encoding") {
            Some(p) => match Encoding::from_primitive(p, r) {
                Ok(x) => Some(x),
                Err(e) => {
                    return Err(e);
                },
            },
            None => None,
        };
        let to_unicode = match dict.remove("ToUnicode") {
            Some(p) => match Stream::<()>::from_primitive(p, r) {
                Ok(x) => Some(x),
                Err(e) => {
                    return Err(e);
                },
            },
            None => None,
        };
        let _other = dict.clone();
        let data = match Font::read_data(dict, base_font.as_str(), subtype, r, standard, depth) {
            Ok(data) => data,
            Err(e) => {
                return Err(e);
            },
        };
        Ok(Font { subtype, name: base_font, data, encoding, to_unicode, _other })
    }

    /// Reads what a font is.
    fn read_data(
        dict: Dictionary,
        base_font: &str,
        subtype: FontType,
        r: &impl Resolve,
        standard: &StandardFonts,
        depth: usize,
    ) -> (res: Result<FontData, PdfError>)
        ensures
            font_data_of(dict@, base_font@, subtype, r, standard@, depth as nat) matches Some(
                expected,
            ) ==> match res {
                Ok(data) => expected == Ok::<FontDataView, ErrorView>(
                    data_view(data),
                ),
                Err(e) => expected == Err::<FontDataView, ErrorView>(e@),
            },
        decreases depth, 5int, 0int,
    {
        match standard.find(base_font) {
            Some(program) => {
                return Ok(FontData::Standard(program.clone()));
            },
            None => {},
        }
        match subtype {
            FontType::Type0 => match Font::read_type0(dict, r, standard, depth) {
                Ok(t) => {
                    proof {
                        lemma_type0_view(t);
                    }
                    Ok(FontData::Type0(t))
                },
                Err(e) => Err(e),
            },
            FontType::Type1 => match TFont::from_dict(dict, r) {
                Ok(t) => Ok(FontData::Type1(t)),
                Err(e) => Err(e),
            },
            FontType::TrueType => match TFont::from_dict(dict, r) {
                Ok(t) => Ok(FontData::TrueType(t)),
                Err(e) => Err(e),
            },
            FontType::CIDFontType0 => match CIDFont::from_dict(dict, r) {
                Ok(c) => Ok(FontData::CIDFontType0(c)),
                Err(e) => Err(e),
            },
            FontType::CIDFontType2 => {
                let mut dict = dict;
                let cid_map = match read_cid_map(dict.remove("CIDToGIDMap"), r) {
                    Ok(map) => map,
                    Err(e) => {
                        return Err(e);
                    },
                };
                match CIDFont::from_dict(dict, r) {
                    Ok(cid_font) => Ok(FontData::CIDFontType2(cid_font, cid_map)),
                    Err(e) => Err(e),
                }
            },
            _ => Ok(FontData::Other(dict)),
        }
    }

    /// Reads what a Type 0 font dictionary says.
    fn read_type0(dict: Dictionary, r: &impl Resolve, standard: &StandardFonts, depth: usize) -> (res:
        Result<Type0Font, PdfError>)
        ensures
            type0_from(dict@, r, standard@, depth as nat) matches Some(expected) ==> match res {
                Ok(t) => expected == Ok::<Type0FontView, ErrorView>(type0_view(t)),
                Err(e) => expected == Err::<Type0FontView, ErrorView>(e@),
            },
        decreases depth, 4int, 0int,
    {
        let mut dict = dict;
        let descendant_fonts = match dict.remove("DescendantFonts") {
            None => {
                let v: Vec<Rc<Font>> = Vec::new();
                assert(fonts_view(v@) =~= Seq::empty());
                v
            },
            Some(p) => match Font::read_descendants(p, r, standard, depth) {
                Ok(v) => v,
                Err(e) => {
                    return Err(wrap_field("Type0Font", "DescendantFonts", e));
                },
            },
        };
        let to_unicode = match take_opt_stream(&mut dict, "Type0Font", "ToUnicode", r) {
            Ok(x) => x,
            Err(e) => {
                return Err(e);
            },
        };
        Ok(Type0Font { descendant_fonts, to_unicode })
    }

    /// Reads the fonts that a Type 0 font is composed of.
    #[verifier::loop_isolation(false)]
    fn read_descendants(
        p: Primitive,
        r: &impl Resolve,
        standard: &StandardFonts,
        depth: usize,
    ) -> (res: Result<Vec<Rc<Font>>, PdfError>)
        ensures
            descendants_of(p@, r, standard@, depth as nat) matches Some(expected) ==> match res {
                Ok(v) => expected == Ok::<Seq<FontView>, ErrorView>(fonts_view(v@)),
                Err(e) => expected == Err::<Seq<FontView>, ErrorView>(e@),
            },
        decreases depth, 3int, 0int,
    {
        let q = match p.resolved(r) {
            Ok(q) => q,
            Err(e) => {
                return Err(e);
            },
        };
        proof {
            lemma_chase_end(p@, r, MAX_DEPTH as nat);
            lemma_chase_end(q@, r, MAX_DEPTH as nat);
        }
        match q {
            Primitive::Null => {
                let v: Vec<Rc<Font>> = Vec::new();
                assert(fonts_view(v@) =~= Seq::empty());
                Ok(v)
            },
            Primitive::Array(items) => {
                let ghost views = prims_view(items@);
                let mut out: Vec<Rc<Font>> = Vec::new();
                let n = items.len();
                let mut i: usize = 0;
                assert(fonts_view(out@) =~= Seq::empty());
                while i < n
                    invariant
                        i <= n,
                        n == items@.len(),
                        fonts_upto(views, r, standard@, depth as nat, n as nat) is Some
                            ==> fonts_upto(views, r, standard@, depth as nat, i as nat) == Some(
                            Ok::<Seq<FontView>, ErrorView>(fonts_view(out@)),
                        ),
                    decreases n - i,
                {
                    proof {
                        lemma_fonts_prefix(
                            views,
                            r,
                            standard@,
                            depth as nat,
                            i as nat + 1,
                            n as nat,
                        );
                    }
                    match Font::read_nested(items[i].clone(), r, standard, depth) {
                        Ok(f) => {
                            let ghost before = fonts_view(out@);
                            out.push(f);
                            assert(fonts_view(out@) =~= before.push(font_view(*f)));
                        },
                        Err(e) => {
                            return Err(e);
                        },
                    }
                    i += 1;
                }
                Ok(out)
            },
            other => match Font::read_nested(other, r, standard, depth) {
                Ok(f) => {
                    let mut v: Vec<Rc<Font>> = Vec::new();
                    v.push(f);
                    assert(fonts_view(v@) =~= seq![font_view(*f)]);
                    Ok(v)
                },
                Err(e) => Err(e),
            },
        }
    }

    /// Reads a font that stands inside another.
    fn read_nested(p: Primitive, r: &impl Resolve, standard: &StandardFonts, depth: usize) -> (res:
        Result<Rc<Font>, PdfError>)
        ensures
            nested_font_of(p@, r, standard@, depth as nat) matches Some(expected) ==> match res {
                Ok(f) => expected == Ok::<FontView, ErrorView>(font_view(*f)),
                Err(e) => expected == Err::<FontView, ErrorView>(e@),
            },
        decreases depth, 1int, 0int,
    {
        if depth == 0 {
            return Err(crate::object::too_deep_error());
        }
        let q = match p.resolved(r) {
            Ok(q) => q,
            Err(e) => {
                return Err(e);
            },
        };
        match Font::read(q, r, standard, depth - 1) {
            Ok(f) => Ok(Rc::new(f)),
            Err(e) => Err(e),
        }
    }
}

/// Where the whole list of fonts is decided, so is each of its prefixes;
/// and where a prefix fails, the whole fails with it.
proof fn lemma_fonts_prefix<R: Resolve>(
    items: Seq<PrimitiveView>,
    r: &R,
    std: StandardFontsView,
    depth: nat,
    n: nat,
    m: nat,
)
    requires
        n <= m,
    ensures
        fonts_upto(items, r, std, depth, m) is Some ==> fonts_upto(items, r, std, depth, n) is Some,
        fonts_upto(items, r, std, depth, m) is Some ==> (fonts_upto(items, r, std, depth, n) matches Some(
            Err(e),
        ) ==> fonts_upto(items, r, std, depth, m) == Some(Err::<Seq<FontView>, ErrorView>(e))),
    decreases m - n,
{
    if n < m {
        lemma_fonts_prefix(items, r, std, depth, n, (m - 1) as nat);
    }
}


/// A dictionary that says it is a font and names its base font, but
/// holds no `Subtype`, builds no font: the failure is `MissingEntry`, and
/// it names `Font` and `Subtype`.
pub proof fn lemma_missing_subtype<R: Resolve>(
    p: PrimitiveView,
    d: DictView,
    base_font: Seq<char>,
    r: &R,
    std: StandardFontsView,
    depth: nat,
)
    requires
        dictionary_of(p, r) == Ok::<DictView, ErrorView>(d),
        dict_get(d, "Type"@) == Some(PrimitiveView::Name("Font"@)),
        dict_get(d, "BaseFont"@) == Some(PrimitiveView::Name(base_font)),
        dict_get(d, "Subtype"@) is None,
    ensures
        font_of(p, r, std, depth) == Some(
            Err::<FontView, ErrorView>(
                ErrorView::MissingEntry { typ: "Font"@, field: "Subtype"@ },
            ),
        ),
{
    reveal_strlit("BaseFont");
    reveal_strlit("Subtype");
    assert("BaseFont"@.len() != "Subtype"@.len());
    crate::primitive::lemma_get_after_remove(d, "BaseFont"@, "Subtype"@);
}

/// A base font name that is exactly the name of a standard font makes
/// the font that standard font, whatever kind it declares and whatever
/// its dictionary holds.
pub proof fn lemma_standard_font_wins<R: Resolve>(
    d: DictView,
    base_font: Seq<char>,
    subtype: FontType,
    r: &R,
    std: StandardFontsView,
    depth: nat,
)
    requires
        standard_from(std, base_font, 0) is Some,
    ensures
        font_data_of(d, base_font, subtype, r, std, depth) == Some(
            Ok::<FontDataView, ErrorView>(
                FontDataView::Standard(standard_from(std, base_font, 0).unwrap()),
            ),
        ),
{
}

} // verus!
