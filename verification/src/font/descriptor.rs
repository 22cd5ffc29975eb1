//! The font descriptor: metrics, flags, and the embedded font program.

use crate::error::{result_view, ErrorView, PdfError};
use crate::object::{
    array_of, at, is_dangling, name_of, number_of, opt_bytes, opt_field, required, string_of,
    take_name, take_number, take_number_or, take_opt_number, take_opt_string, take_unsigned,
    unsigned_of, with_default, wrap_field, Resolve,
};
use crate::primitive::{
    dict_get, dict_remove, unexpected, zero, DictView, Dictionary, Number, Primitive,
    PrimitiveView, Real,
};
use crate::stream::{
    opt_stream, plain_stream_spec, stream_spec, take_opt_stream, Stream, StreamView,
};
use crate::text::str_eq;
use vstd::prelude::*;

verus! {

/// Flag bit of a font descriptor: all glyphs have the same width.
pub const FLAG_FIXED_PITCH: u32 = 0x1;

/// Flag bit: glyphs have serifs.
pub const FLAG_SERIF: u32 = 0x2;

/// Flag bit: the font holds glyphs outside the standard Latin set.
pub const FLAG_SYMBOLIC: u32 = 0x4;

/// Flag bit: glyphs resemble cursive handwriting.
pub const FLAG_SCRIPT: u32 = 0x8;

/// Flag bit: the font uses the standard Latin set or a part of it.
pub const FLAG_NONSYMBOLIC: u32 = 0x20;

/// Flag bit: glyphs have dominant slanted strokes.
pub const FLAG_ITALIC: u32 = 0x40;

/// Flag bit: the font has no lower-case letters.
pub const FLAG_ALL_CAP: u32 = 0x1_0000;

/// Flag bit: lower-case letters are drawn as small capitals.
pub const FLAG_SMALL_CAP: u32 = 0x2_0000;

/// Flag bit: bold glyphs are to stay bold at small sizes.
pub const FLAG_FORCE_BOLD: u32 = 0x4_0000;

/// How wide a font is set.
#[derive(Debug, PartialEq, Eq, PartialOrd, Ord, Clone, Copy, Structural)]
pub enum FontStretch {
    UltraCondensed,
    ExtraCondensed,
    Condensed,
    SemiCondensed,
    Normal,
    SemiExpanded,
    Expanded,
    ExtraExpanded,
    UltraExpanded,
}

/// The format of a font program stored under `FontFile3`.
#[derive(Debug, Clone, Copy, PartialEq, Eq, Structural)]
pub enum FontTypeExt {
    Type1C,
    CIDFontType0C,
    OpenType,
}

/// What the dictionary of a `FontFile3` stream says.
#[derive(Debug, Clone, Copy, PartialEq, Eq, Structural)]
pub struct FontStream3 {
    pub subtype: FontTypeExt,
}

impl View for FontStream3 {
    type V = FontStream3;

    open spec fn view(&self) -> FontStream3 {
        *self
    }
}

/// A rectangle, by its four edges.
#[derive(Debug, Clone, Copy, PartialEq, Eq, Structural)]
pub struct Rect {
    pub left: Number,
    pub bottom: Number,
    pub right: Number,
    pub top: Number,
}

/// The metrics and the program of a font.
#[derive(Debug)]
pub struct FontDescriptor {
    pub font_name: String,
    pub font_family: Option<crate::primitive::PdfString>,
    pub font_stretch: Option<FontStretch>,
    pub font_weight: Option<Number>,
    pub flags: u32,
    pub font_bbox: Rect,
    pub italic_angle: Number,
    pub ascent: Number,
    pub descent: Number,
    pub leading: Number,
    pub cap_height: Number,
    pub xheight: Number,
    pub stem_v: Number,
    pub stem_h: Number,
    pub avg_width: Number,
    pub max_width: Number,
    pub missing_width: Number,
    /// The font program, in one of three places; at most one is filled.
    pub font_file: Option<Stream<()>>,
    pub font_file2: Option<Stream<()>>,
    pub font_file3: Option<Stream<FontStream3>>,
    pub char_set: Option<crate::primitive::PdfString>,
}

/// Mathematical view of a [`FontDescriptor`].
pub ghost struct FontDescriptorView {
    pub font_name: Seq<char>,
    pub font_family: Option<Seq<u8>>,
    pub font_stretch: Option<FontStretch>,
    pub font_weight: Option<Number>,
    pub flags: u32,
    pub font_bbox: Rect,
    pub italic_angle: Number,
    pub ascent: Number,
    pub descent: Number,
    pub leading: Number,
    pub cap_height: Number,
    pub xheight: Number,
    pub stem_v: Number,
    pub stem_h: Number,
    pub avg_width: Number,
    pub max_width: Number,
    pub missing_width: Number,
    pub font_file: Option<StreamView<()>>,
    pub font_file2: Option<StreamView<()>>,
    pub font_file3: Option<StreamView<FontStream3>>,
    pub char_set: Option<Seq<u8>>,
}

impl View for FontDescriptor {
    type V = FontDescriptorView;

    open spec fn view(&self) -> FontDescriptorView {
        FontDescriptorView {
            font_name: self.font_name@,
            font_family: opt_bytes(self.font_family),
            font_stretch: self.font_stretch,
            font_weight: self.font_weight,
            flags: self.flags,
            font_bbox: self.font_bbox,
            italic_angle: self.italic_angle,
            ascent: self.ascent,
            descent: self.descent,
            leading: self.leading,
            cap_height: self.cap_height,
            xheight: self.xheight,
            stem_v: self.stem_v,
            stem_h: self.stem_h,
            avg_width: self.avg_width,
            max_width: self.max_width,
            missing_width: self.missing_width,
            font_file: opt_stream(self.font_file),
            font_file2: opt_stream(self.font_file2),
            font_file3: opt_stream(self.font_file3),
            char_set: opt_bytes(self.char_set),
        }
    }
}

/// The stretch that a name stands for.
pub open spec fn stretch_named(name: Seq<char>) -> Result<FontStretch, ErrorView> {
    if name == "UltraCondensed"@ {
        Ok(FontStretch::UltraCondensed)
    } else if name == "ExtraCondensed"@ {
        Ok(FontStretch::ExtraCondensed)
    } else if name == "Condensed"@ {
        Ok(FontStretch::Condensed)
    } else if name == "SemiCondensed"@ {
        Ok(FontStretch::SemiCondensed)
    } else if name == "Normal"@ {
        Ok(FontStretch::Normal)
    } else if name == "SemiExpanded"@ {
        Ok(FontStretch::SemiExpanded)
    } else if name == "Expanded"@ {
        Ok(FontStretch::Expanded)
    } else if name == "ExtraExpanded"@ {
        Ok(FontStretch::ExtraExpanded)
    } else if name == "UltraExpanded"@ {
        Ok(FontStretch::UltraExpanded)
    } else {
        Err(ErrorView::UnknownVariant { id: "FontStretch"@, name })
    }
}

/// The stretch that a value stands for.
pub open spec fn stretch_of<R: Resolve>(p: PrimitiveView, r: &R) -> Result<FontStretch, ErrorView> {
    match name_of(p, r) {
        Err(e) => Err(e),
        Ok(name) => stretch_named(name),
    }
}

/// The font program format that a name stands for.
pub open spec fn type_ext_named(name: Seq<char>) -> Result<FontTypeExt, ErrorView> {
    if name == "Type1C"@ {
        Ok(FontTypeExt::Type1C)
    } else if name == "CIDFontType0C"@ {
        Ok(FontTypeExt::CIDFontType0C)
    } else if name == "OpenType"@ {
        Ok(FontTypeExt::OpenType)
    } else {
        Err(ErrorView::UnknownVariant { id: "FontTypeExt"@, name })
    }
}

/// The number that a value is, without following references.
pub open spec fn plain_number(p: PrimitiveView) -> Result<Number, ErrorView> {
    match p {
        PrimitiveView::Integer(n) => Ok(Number::Integer(n)),
        PrimitiveView::Number(x) => Ok(Number::Real(x)),
        q => Err(unexpected("Number"@, q)),
    }
}

/// The rectangle that an array of four numbers stands for.
pub open spec fn rect_of<R: Resolve>(p: PrimitiveView, r: &R) -> Result<Rect, ErrorView> {
    match array_of(p, r) {
        Err(e) => Err(e),
        Ok(arr) => {
            if arr.len() != 4 {
                Err(ErrorView::Other { msg: "len != 4"@ })
            } else {
                match plain_number(arr[0]) {
                    Err(e) => Err(e),
                    Ok(left) => match plain_number(arr[1]) {
                        Err(e) => Err(e),
                        Ok(bottom) => match plain_number(arr[2]) {
                            Err(e) => Err(e),
                            Ok(right) => match plain_number(arr[3]) {
                                Err(e) => Err(e),
                                Ok(top) => Ok(Rect { left, bottom, right, top }),
                            },
                        },
                    },
                }
            }
        },
    }
}

/// The stream under `FontFile3`: its dictionary has to name the format
/// of the program under `Subtype`.
pub open spec fn font_stream3_of<R: Resolve>(p: PrimitiveView, r: &R) -> Result<
    StreamView<FontStream3>,
    ErrorView,
> {
    match stream_spec(p, r) {
        Err(e) => Err(e),
        Ok(s) => {
            let subtype = required(
                dict_get(s.info, "Subtype"@),
                "FontStream3"@,
                "Subtype"@,
                match name_of(at(s.info, "Subtype"@), r) {
                    Err(e) => Err(e),
                    Ok(name) => type_ext_named(name),
                },
            );
            match subtype {
                Err(e) => Err(e),
                Ok(subtype) => Ok(s.with_info(FontStream3 { subtype })),
            }
        },
    }
}

/// A number that a descriptor has to hold under `key`.
pub open spec fn needed_number<R: Resolve>(d: DictView, key: Seq<char>, r: &R) -> Result<
    Number,
    ErrorView,
> {
    required(dict_get(d, key), "FontDescriptor"@, key, number_of(at(d, key), r))
}

/// A number that a descriptor may hold under `key`: zero where the key
/// is absent.
pub open spec fn number_or_zero<R: Resolve>(d: DictView, key: Seq<char>, r: &R) -> Result<
    Number,
    ErrorView,
> {
    with_default(dict_get(d, key), "FontDescriptor"@, key, zero(), number_of(at(d, key), r))
}

/// The descriptor that a dictionary stands for. The fields are read in
/// the order of the record, and the first that fails is the failure of
/// the whole: a key that has to be there and is not fails with
/// `MissingEntry`, a value that cannot be read fails with
/// `FromPrimitive`, which names the field.
pub open spec fn descriptor_from<R: Resolve>(d0: DictView, r: &R) -> Result<
    FontDescriptorView,
    ErrorView,
> {
    let t = "FontDescriptor"@;
    let font_name = required(
        dict_get(d0, "FontName"@),
        t,
        "FontName"@,
        name_of(at(d0, "FontName"@), r),
    );
    let d1 = dict_remove(d0, "FontName"@);
    let font_family = opt_field(
        dict_get(d1, "FontFamily"@),
        t,
        "FontFamily"@,
        string_of(at(d1, "FontFamily"@), r),
    );
    let d2 = dict_remove(d1, "FontFamily"@);
    let font_stretch = opt_field(
        dict_get(d2, "FontStretch"@),
        t,
        "FontStretch"@,
        stretch_of(at(d2, "FontStretch"@), r),
    );
    let d3 = dict_remove(d2, "FontStretch"@);
    let font_weight = opt_field(
        dict_get(d3, "FontWeight"@),
        t,
        "FontWeight"@,
        number_of(at(d3, "FontWeight"@), r),
    );
    let d4 = dict_remove(d3, "FontWeight"@);
    let flags = required(
        dict_get(d4, "Flags"@),
        t,
        "Flags"@,
        unsigned_of(at(d4, "Flags"@), r),
    );
    let d5 = dict_remove(d4, "Flags"@);
    let font_bbox = required(
        dict_get(d5, "FontBBox"@),
        t,
        "FontBBox"@,
        rect_of(at(d5, "FontBBox"@), r),
    );
    let d6 = dict_remove(d5, "FontBBox"@);
    let italic_angle = needed_number(d6, "ItalicAngle"@, r);
    let d7 = dict_remove(d6, "ItalicAngle"@);
    let ascent = needed_number(d7, "Ascent"@, r);
    let d8 = dict_remove(d7, "Ascent"@);
    let descent = needed_number(d8, "Descent"@, r);
    let d9 = dict_remove(d8, "Descent"@);
    let leading = number_or_zero(d9, "Leading"@, r);
    let d10 = dict_remove(d9, "Leading"@);
    let cap_height = needed_number(d10, "CapHeight"@, r);
    let d11 = dict_remove(d10, "CapHeight"@);
    let xheight = number_or_zero(d11, "XHeight"@, r);
    let d12 = dict_remove(d11, "XHeight"@);
    let stem_v = number_or_zero(d12, "StemV"@, r);
    let d13 = dict_remove(d12, "StemV"@);
    let stem_h = number_or_zero(d13, "StemH"@, r);
    let d14 = dict_remove(d13, "StemH"@);
    let avg_width = number_or_zero(d14, "AvgWidth"@, r);
    let d15 = dict_remove(d14, "AvgWidth"@);
    let max_width = number_or_zero(d15, "MaxWidth"@, r);
    let d16 = dict_remove(d15, "MaxWidth"@);
    let missing_width = number_or_zero(d16, "MissingWidth"@, r);
    let d17 = dict_remove(d16, "MissingWidth"@);
    let font_file = opt_field(
        dict_get(d17, "FontFile"@),
        t,
        "FontFile"@,
        plain_stream_spec(at(d17, "FontFile"@), r),
    );
    let d18 = dict_remove(d17, "FontFile"@);
    let font_file2 = opt_field(
        dict_get(d18, "FontFile2"@),
        t,
        "FontFile2"@,
        plain_stream_spec(at(d18, "FontFile2"@), r),
    );
    let d19 = dict_remove(d18, "FontFile2"@);
    let font_file3 = opt_field(
        dict_get(d19, "FontFile3"@),
        t,
        "FontFile3"@,
        font_stream3_of(at(d19, "FontFile3"@), r),
    );
    let d20 = dict_remove(d19, "FontFile3"@);
    let char_set = opt_field(
        dict_get(d20, "CharSet"@),
        t,
        "CharSet"@,
        string_of(at(d20, "CharSet"@), r),
    );
    if font_name is Err {
        Err(font_name->Err_0)
    } else if font_family is Err {
        Err(font_family->Err_0)
    } else if font_stretch is Err {
        Err(font_stretch->Err_0)
    } else if font_weight is Err {
        Err(font_weight->Err_0)
    } else if flags is Err {
        Err(flags->Err_0)
    } else if font_bbox is Err {
        Err(font_bbox->Err_0)
    } else if italic_angle is Err {
        Err(italic_angle->Err_0)
    } else if ascent is Err {
        Err(ascent->Err_0)
    } else if descent is Err {
        Err(descent->Err_0)
    } else if leading is Err {
        Err(leading->Err_0)
    } else if cap_height is Err {
        Err(cap_height->Err_0)
    } else if xheight is Err {
        Err(xheight->Err_0)
    } else if stem_v is Err {
        Err(stem_v->Err_0)
    } else if stem_h is Err {
        Err(stem_h->Err_0)
    } else if avg_width is Err {
        Err(avg_width->Err_0)
    } else if max_width is Err {
        Err(max_width->Err_0)
    } else if missing_width is Err {
        Err(missing_width->Err_0)
    } else if font_file is Err {
        Err(font_file->Err_0)
    } else if font_file2 is Err {
        Err(font_file2->Err_0)
    } else if font_file3 is Err {
        Err(font_file3->Err_0)
    } else if char_set is Err {
        Err(char_set->Err_0)
    } else {
        Ok(
            FontDescriptorView {
                font_name: font_name->Ok_0,
                font_family: font_family->Ok_0,
                font_stretch: font_stretch->Ok_0,
                font_weight: font_weight->Ok_0,
                flags: flags->Ok_0,
                font_bbox: font_bbox->Ok_0,
                italic_angle: italic_angle->Ok_0,
                ascent: ascent->Ok_0,
                descent: descent->Ok_0,
                leading: leading->Ok_0,
                cap_height: cap_height->Ok_0,
                xheight: xheight->Ok_0,
                stem_v: stem_v->Ok_0,
                stem_h: stem_h->Ok_0,
                avg_width: avg_width->Ok_0,
                max_width: max_width->Ok_0,
                missing_width: missing_width->Ok_0,
                font_file: font_file->Ok_0,
                font_file2: font_file2->Ok_0,
                font_file3: font_file3->Ok_0,
                char_set: char_set->Ok_0,
            },
        )
    }
}

/// The descriptor that a value is or refers to.
pub open spec fn descriptor_of<R: Resolve>(p: PrimitiveView, r: &R) -> Result<
    FontDescriptorView,
    ErrorView,
> {
    match crate::object::dictionary_of(p, r) {
        Err(e) => Err(e),
        Ok(d) => descriptor_from(d, r),
    }
}

/// The program that a descriptor holds: the content of the first of its
/// three places that is filled. The outer `None` says that no place is
/// filled; the inner one, that a JPEG decoder decides the content.
pub open spec fn program_of(d: FontDescriptorView) -> Option<Option<Result<Seq<u8>, ErrorView>>> {
    if d.font_file is Some {
        Some(d.font_file->Some_0.content())
    } else if d.font_file2 is Some {
        Some(d.font_file2->Some_0.content())
    } else if d.font_file3 is Some {
        Some(d.font_file3->Some_0.content())
    } else {
        None
    }
}

impl FontStretch {
    /// The stretch that a name stands for.
    pub fn from_name(name: &str) -> (res: Result<FontStretch, PdfError>)
        ensures
            match res {
                Ok(x) => stretch_named(name@) == Ok::<FontStretch, ErrorView>(x),
                Err(e) => stretch_named(name@) == Err::<FontStretch, ErrorView>(e@),
            },
    {
        if str_eq(name, "UltraCondensed") {
            Ok(FontStretch::UltraCondensed)
        } else if str_eq(name, "ExtraCondensed") {
            Ok(FontStretch::ExtraCondensed)
        } else if str_eq(name, "Condensed") {
            Ok(FontStretch::Condensed)
        } else if str_eq(name, "SemiCondensed") {
            Ok(FontStretch::SemiCondensed)
        } else if str_eq(name, "Normal") {
            Ok(FontStretch::Normal)
        } else if str_eq(name, "SemiExpanded") {
            Ok(FontStretch::SemiExpanded)
        } else if str_eq(name, "Expanded") {
            Ok(FontStretch::Expanded)
        } else if str_eq(name, "ExtraExpanded") {
            Ok(FontStretch::ExtraExpanded)
        } else if str_eq(name, "UltraExpanded") {
            Ok(FontStretch::UltraExpanded)
        } else {
            Err(PdfError::UnknownVariant { id: "FontStretch", name: name.to_owned() })
        }
    }

    /// Reads a stretch from a name, through references if need be.
    pub fn from_primitive(p: Primitive, r: &impl Resolve) -> (res: Result<FontStretch, PdfError>)
        ensures
            match res {
                Ok(x) => stretch_of(p@, r) == Ok::<FontStretch, ErrorView>(x),
                Err(e) => stretch_of(p@, r) == Err::<FontStretch, ErrorView>(e@),
            },
    {
        match crate::object::name_from_primitive(p, r) {
            Ok(name) => FontStretch::from_name(name.as_str()),
            Err(e) => Err(e),
        }
    }
}

impl FontTypeExt {
    /// The font program format that a name stands for.
    pub fn from_name(name: &str) -> (res: Result<FontTypeExt, PdfError>)
        ensures
            match res {
                Ok(x) => type_ext_named(name@) == Ok::<FontTypeExt, ErrorView>(x),
                Err(e) => type_ext_named(name@) == Err::<FontTypeExt, ErrorView>(e@),
            },
    {
        if str_eq(name, "Type1C") {
            Ok(FontTypeExt::Type1C)
        } else if str_eq(name, "CIDFontType0C") {
            Ok(FontTypeExt::CIDFontType0C)
        } else if str_eq(name, "OpenType") {
            Ok(FontTypeExt::OpenType)
        } else {
            Err(PdfError::UnknownVariant { id: "FontTypeExt", name: name.to_owned() })
        }
    }
}

impl Rect {
    /// Reads a rectangle from an array of four numbers.
    pub fn from_primitive(p: Primitive, r: &impl Resolve) -> (res: Result<Rect, PdfError>)
        ensures
            match res {
                Ok(x) => rect_of(p@, r) == Ok::<Rect, ErrorView>(x),
                Err(e) => rect_of(p@, r) == Err::<Rect, ErrorView>(e@),
            },
    {
        let arr = match p.into_array(r) {
            Ok(arr) => arr,
            Err(e) => {
                return Err(e);
            },
        };
        if arr.len() != 4 {
            return Err(PdfError::Other { msg: "len != 4".to_string() });
        }
        let left = match arr[0].as_number() {
            Ok(x) => x,
            Err(e) => {
                return Err(e);
            },
        };
        let bottom = match arr[1].as_number() {
            Ok(x) => x,
            Err(e) => {
                return Err(e);
            },
        };
        let right = match arr[2].as_number() {
            Ok(x) => x,
            Err(e) => {
                return Err(e);
            },
        };
        let top = match arr[3].as_number() {
            Ok(x) => x,
            Err(e) => {
                return Err(e);
            },
        };
        Ok(Rect { left, bottom, right, top })
    }
}

/// Reads the stream under `FontFile3`.
fn font_stream3_from_primitive(p: Primitive, r: &impl Resolve) -> (res: Result<
    Stream<FontStream3>,
    PdfError,
>)
    ensures
        result_view(res) == font_stream3_of(p@, r),
{
    let stream = match Stream::<Dictionary>::from_primitive(p, r) {
        Ok(s) => s,
        Err(e) => {
            return Err(e);
        },
    };
    let (mut info, bare) = stream.with_info(());
    let subtype = match info.remove("Subtype") {
        None => {
            return Err(
                PdfError::MissingEntry { typ: "FontStream3", field: "Subtype".to_owned() },
            );
        },
        Some(v) => {
            let name = match crate::object::name_from_primitive(v, r) {
                Ok(name) => name,
                Err(e) => {
                    return Err(wrap_field("FontStream3", "Subtype", e));
                },
            };
            match FontTypeExt::from_name(name.as_str()) {
                Ok(x) => x,
                Err(e) => {
                    return Err(wrap_field("FontStream3", "Subtype", e));
                },
            }
        },
    };
    Ok(bare.with_info(FontStream3 { subtype }).1)
}

/// Takes the stretch, which may be missing, out of `dict`.
fn take_opt_stretch(dict: &mut Dictionary, r: &impl Resolve) -> (res: Result<
    Option<FontStretch>,
    PdfError,
>)
    ensures
        final(dict)@ == dict_remove(old(dict)@, "FontStretch"@),
        match res {
            Ok(x) => opt_field(
                dict_get(old(dict)@, "FontStretch"@),
                "FontDescriptor"@,
                "FontStretch"@,
                stretch_of(at(old(dict)@, "FontStretch"@), r),
            ) == Ok::<Option<FontStretch>, ErrorView>(x),
            Err(e) => opt_field(
                dict_get(old(dict)@, "FontStretch"@),
                "FontDescriptor"@,
                "FontStretch"@,
                stretch_of(at(old(dict)@, "FontStretch"@), r),
            ) == Err::<Option<FontStretch>, ErrorView>(e@),
        },
{
    match dict.remove("FontStretch") {
        None => Ok(None),
        Some(Primitive::Null) => Ok(None),
        Some(p) => match FontStretch::from_primitive(p, r) {
            Ok(x) => Ok(Some(x)),
            Err(e) => {
                if is_dangling(&e) {
                    Ok(None)
                } else {
                    Err(wrap_field("FontDescriptor", "FontStretch", e))
                }
            },
        },
    }
}

/// Takes the bounding box, which has to be there, out of `dict`.
fn take_bbox(dict: &mut Dictionary, r: &impl Resolve) -> (res: Result<Rect, PdfError>)
    ensures
        final(dict)@ == dict_remove(old(dict)@, "FontBBox"@),
        match res {
            Ok(x) => required(
                dict_get(old(dict)@, "FontBBox"@),
                "FontDescriptor"@,
                "FontBBox"@,
                rect_of(at(old(dict)@, "FontBBox"@), r),
            ) == Ok::<Rect, ErrorView>(x),
            Err(e) => required(
                dict_get(old(dict)@, "FontBBox"@),
                "FontDescriptor"@,
                "FontBBox"@,
                rect_of(at(old(dict)@, "FontBBox"@), r),
            ) == Err::<Rect, ErrorView>(e@),
        },
{
    match dict.remove("FontBBox") {
        None => Err(PdfError::MissingEntry { typ: "FontDescriptor", field: "FontBBox".to_owned() }),
        Some(p) => match Rect::from_primitive(p, r) {
            Ok(x) => Ok(x),
            Err(e) => Err(wrap_field("FontDescriptor", "FontBBox", e)),
        },
    }
}

/// Takes the stream under `FontFile3`, which may be missing, out of
/// `dict`.
fn take_opt_stream3(dict: &mut Dictionary, r: &impl Resolve) -> (res: Result<
    Option<Stream<FontStream3>>,
    PdfError,
>)
    ensures
        final(dict)@ == dict_remove(old(dict)@, "FontFile3"@),
        match res {
            Ok(x) => opt_field(
                dict_get(old(dict)@, "FontFile3"@),
                "FontDescriptor"@,
                "FontFile3"@,
                font_stream3_of(at(old(dict)@, "FontFile3"@), r),
            ) == Ok::<Option<StreamView<FontStream3>>, ErrorView>(opt_stream(x)),
            Err(e) => opt_field(
                dict_get(old(dict)@, "FontFile3"@),
                "FontDescriptor"@,
                "FontFile3"@,
                font_stream3_of(at(old(dict)@, "FontFile3"@), r),
            ) == Err::<Option<StreamView<FontStream3>>, ErrorView>(e@),
        },
{
    match dict.remove("FontFile3") {
        None => Ok(None),
        Some(Primitive::Null) => Ok(None),
        Some(p) => match font_stream3_from_primitive(p, r) {
            Ok(x) => Ok(Some(x)),
            Err(e) => {
                if is_dangling(&e) {
                    Ok(None)
                } else {
                    Err(wrap_field("FontDescriptor", "FontFile3", e))
                }
            },
        },
    }
}


impl FontDescriptor {
    /// Reads a descriptor from its dictionary.
    pub fn from_dict(dict: Dictionary, r: &impl Resolve) -> (res: Result<FontDescriptor, PdfError>)
        ensures
            result_view(res) == descriptor_from(dict@, r),
    {
        let mut dict = dict;
        let font_name = match take_name(&mut dict, "FontDescriptor", "FontName", r) {
            Ok(x) => x,
            Err(e) => {
                return Err(e);
            },
        };
        let font_family = match take_opt_string(&mut dict, "FontDescriptor", "FontFamily", r) {
            Ok(x) => x,
            Err(e) => {
                return Err(e);
            },
        };
        let font_stretch = match take_opt_stretch(&mut dict, r) {
            Ok(x) => x,
            Err(e) => {
                return Err(e);
            },
        };
        let font_weight = match take_opt_number(&mut dict, "FontDescriptor", "FontWeight", r) {
            Ok(x) => x,
            Err(e) => {
                return Err(e);
            },
        };
        let flags = match take_unsigned(&mut dict, "FontDescriptor", "Flags", r) {
            Ok(x) => x,
            Err(e) => {
                return Err(e);
            },
        };
        let font_bbox = match take_bbox(&mut dict, r) {
            Ok(x) => x,
            Err(e) => {
                return Err(e);
            },
        };
        let italic_angle = match take_number(&mut dict, "FontDescriptor", "ItalicAngle", r) {
            Ok(x) => x,
            Err(e) => {
                return Err(e);
            },
        };
        let ascent = match take_number(&mut dict, "FontDescriptor", "Ascent", r) {
            Ok(x) => x,
            Err(e) => {
                return Err(e);
            },
        };
        let descent = match take_number(&mut dict, "FontDescriptor", "Descent", r) {
            Ok(x) => x,
            Err(e) => {
                return Err(e);
            },
        };
        let nothing = Number::Real(Real { bits: 0 });
        let leading = match take_number_or(&mut dict, "FontDescriptor", "Leading", nothing, r) {
            Ok(x) => x,
            Err(e) => {
                return Err(e);
            },
        };
        let cap_height = match take_number(&mut dict, "FontDescriptor", "CapHeight", r) {
            Ok(x) => x,
            Err(e) => {
                return Err(e);
            },
        };
        let xheight = match take_number_or(&mut dict, "FontDescriptor", "XHeight", nothing, r) {
            Ok(x) => x,
            Err(e) => {
                return Err(e);
            },
        };
        let stem_v = match take_number_or(&mut dict, "FontDescriptor", "StemV", nothing, r) {
            Ok(x) => x,
            Err(e) => {
                return Err(e);
            },
        };
        let stem_h = match take_number_or(&mut dict, "FontDescriptor", "StemH", nothing, r) {
            Ok(x) => x,
            Err(e) => {
                return Err(e);
            },
        };
        let avg_width = match take_number_or(&mut dict, "FontDescriptor", "AvgWidth", nothing, r) {
            Ok(x) => x,
            Err(e) => {
                return Err(e);
            },
        };
        let max_width = match take_number_or(&mut dict, "FontDescriptor", "MaxWidth", nothing, r) {
            Ok(x) => x,
            Err(e) => {
                return Err(e);
            },
        };
        let missing_width = match take_number_or(
            &mut dict,
            "FontDescriptor",
            "MissingWidth",
            nothing,
            r,
        ) {
            Ok(x) => x,
            Err(e) => {
                return Err(e);
            },
        };
        let font_file = match take_opt_stream(&mut dict, "FontDescriptor", "FontFile", r) {
            Ok(x) => x,
            Err(e) => {
                return Err(e);
            },
        };
        let font_file2 = match take_opt_stream(&mut dict, "FontDescriptor", "FontFile2", r) {
            Ok(x) => x,
            Err(e) => {
                return Err(e);
            },
        };
        let font_file3 = match take_opt_stream3(&mut dict, r) {
            Ok(x) => x,
            Err(e) => {
                return Err(e);
            },
        };
        let char_set = match take_opt_string(&mut dict, "FontDescriptor", "CharSet", r) {
            Ok(x) => x,
            Err(e) => {
                return Err(e);
            },
        };
        Ok(
            FontDescriptor {
                font_name,
                font_family,
                font_stretch,
                font_weight,
                flags,
                font_bbox,
                italic_angle,
                ascent,
                descent,
                leading,
                cap_height,
                xheight,
                stem_v,
                stem_h,
                avg_width,
                max_width,
                missing_width,
                font_file,
                font_file2,
                font_file3,
                char_set,
            },
        )
    }

    /// Reads a descriptor from the value that is or refers to its
    /// dictionary.
    pub fn from_primitive(p: Primitive, r: &impl Resolve) -> (res: Result<
        FontDescriptor,
        PdfError,
    >)
        ensures
            result_view(res) == descriptor_of(p@, r),
    {
        match p.to_dictionary(r) {
            Ok(d) => FontDescriptor::from_dict(d, r),
            Err(e) => Err(e),
        }
    }

    /// The font program: the content of the first of the three places
    /// that is filled, or `None` where none is.
    pub fn data(&self) -> (res: Option<Result<Vec<u8>, PdfError>>)
        ensures
            match program_of(self@) {
                None => res is None,
                Some(content) => res matches Some(got) && (content matches Some(expected)
                    ==> result_view(got) == expected),
            },
    {
        if let Some(ref s) = self.font_file {
            Some(s.data())
        } else if let Some(ref s) = self.font_file2 {
            Some(s.data())
        } else if let Some(ref s) = self.font_file3 {
            Some(s.data())
        } else {
            None
        }
    }
}

} // verus!
