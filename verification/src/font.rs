//! Fonts: their kinds, their descriptors, their width tables, and the
//! record that is built from a font dictionary.

pub mod descriptor;
pub mod query;
pub mod read;
pub mod text;
pub mod widths;

pub use crate::font::descriptor::{FontDescriptor, FontStream3, FontStretch, FontTypeExt, Rect};
pub use crate::font::widths::Widths;

use crate::encoding::{Encoding, EncodingView};
use crate::error::{ErrorView, PdfError};
use crate::font::descriptor::FontDescriptorView;
use crate::object::{name_of, opt_text, Resolve};
use crate::primitive::{prims_view, DictView, Dictionary, Number, Primitive, PrimitiveView};
use crate::stream::{opt_stream, Stream, StreamView};
use crate::text::str_eq;
use std::rc::Rc;
use vstd::prelude::*;

verus! {

/// The kinds of font.
#[derive(Debug, Copy, Clone, PartialEq, Eq, Structural)]
pub enum FontType {
    Type0,
    Type1,
    MMType1,
    Type3,
    TrueType,
    /// A CID-keyed font with Type 1 outlines.
    CIDFontType0,
    /// A CID-keyed font with TrueType outlines.
    CIDFontType2,
}

/// What a Type 1 or TrueType font dictionary says.
#[derive(Debug)]
pub struct TFont {
    pub name: Option<String>,
    /// The first code that `widths` speaks of. Some files leave it out.
    pub first_char: Option<i32>,
    /// The last code that `widths` speaks of.
    pub last_char: Option<i32>,
    pub widths: Vec<Number>,
    pub font_descriptor: FontDescriptor,
}

/// What a Type 0 font dictionary says: the fonts it is composed of.
#[derive(Debug)]
pub struct Type0Font {
    pub descendant_fonts: Vec<Rc<Font>>,
    pub to_unicode: Option<Stream<()>>,
}

/// What a CID-keyed font dictionary says.
#[derive(Debug)]
pub struct CIDFont {
    pub system_info: Dictionary,
    pub font_descriptor: FontDescriptor,
    pub default_width: Number,
    /// The `W` array as it stands: runs of widths by first code, and
    /// single widths for ranges of codes.
    pub widths: Vec<Primitive>,
    pub _other: Dictionary,
}

/// What a font is, by its kind.
#[derive(Debug)]
pub enum FontData {
    Type1(TFont),
    Type0(Type0Font),
    TrueType(TFont),
    CIDFontType0(CIDFont),
    /// The font, and the table from character identifier to glyph index
    /// where the font has one of its own.
    CIDFontType2(CIDFont, Option<Vec<u16>>),
    Other(Dictionary),
    /// One of the standard fonts: the bytes of its program.
    Standard(Vec<u8>),
}

/// A font.
#[derive(Debug)]
pub struct Font {
    pub subtype: FontType,
    pub name: String,
    pub data: FontData,
    pub encoding: Option<Encoding>,
    pub to_unicode: Option<Stream<()>>,
    pub _other: Dictionary,
}

/// The standard fonts at hand: names and the bytes of their programs.
#[derive(Debug)]
pub struct StandardFonts {
    pub fonts: Vec<(String, Vec<u8>)>,
}

/// Mathematical view of the standard fonts.
pub type StandardFontsView = Seq<(Seq<char>, Seq<u8>)>;

impl View for StandardFonts {
    type V = StandardFontsView;

    open spec fn view(&self) -> StandardFontsView {
        Seq::new(self.fonts@.len(), |i: int| (self.fonts@[i].0@, self.fonts@[i].1@))
    }
}

/// The program of the first standard font, from `from` on, whose name is
/// exactly `name`.
pub open spec fn standard_from(table: StandardFontsView, name: Seq<char>, from: int) -> Option<
    Seq<u8>,
>
    decreases table.len() - from,
{
    if from < 0 || from >= table.len() {
        None
    } else if table[from].0 == name {
        Some(table[from].1)
    } else {
        standard_from(table, name, from + 1)
    }
}

/// Mathematical view of a [`TFont`].
pub ghost struct TFontView {
    pub name: Option<Seq<char>>,
    pub first_char: Option<i32>,
    pub last_char: Option<i32>,
    pub widths: Seq<Number>,
    pub font_descriptor: FontDescriptorView,
}

/// Mathematical view of a [`CIDFont`].
pub ghost struct CIDFontView {
    pub system_info: DictView,
    pub font_descriptor: FontDescriptorView,
    pub default_width: Number,
    pub widths: Seq<PrimitiveView>,
    pub other: DictView,
}

/// Mathematical view of a [`Type0Font`].
pub ghost struct Type0FontView {
    pub descendant_fonts: Seq<FontView>,
    pub to_unicode: Option<StreamView<()>>,
}

/// Mathematical view of a [`FontData`].
pub ghost enum FontDataView {
    Type1(TFontView),
    Type0(Type0FontView),
    TrueType(TFontView),
    CIDFontType0(CIDFontView),
    CIDFontType2(CIDFontView, Option<Seq<u16>>),
    Other(DictView),
    Standard(Seq<u8>),
}

/// Mathematical view of a [`Font`].
pub ghost struct FontView {
    pub subtype: FontType,
    pub name: Seq<char>,
    pub data: FontDataView,
    pub encoding: Option<EncodingView>,
    pub to_unicode: Option<StreamView<()>>,
    pub other: DictView,
}

impl View for TFont {
    type V = TFontView;

    open spec fn view(&self) -> TFontView {
        TFontView {
            name: opt_text(self.name),
            first_char: self.first_char,
            last_char: self.last_char,
            widths: self.widths@,
            font_descriptor: self.font_descriptor@,
        }
    }
}

impl View for CIDFont {
    type V = CIDFontView;

    open spec fn view(&self) -> CIDFontView {
        CIDFontView {
            system_info: self.system_info@,
            font_descriptor: self.font_descriptor@,
            default_width: self.default_width,
            widths: prims_view(self.widths@),
            other: self._other@,
        }
    }
}

/// The view of a font, by recursion on the fonts it is composed of.
pub open spec fn font_view(f: Font) -> FontView
    decreases f, 1int,
{
    FontView {
        subtype: f.subtype,
        name: f.name@,
        data: data_view(f.data),
        encoding: match f.encoding {
            Some(e) => Some(e@),
            None => None,
        },
        to_unicode: opt_stream(f.to_unicode),
        other: f._other@,
    }
}

/// The view of what a font is.
pub open spec fn data_view(data: FontData) -> FontDataView
    decreases data, 0int,
{
    match data {
        FontData::Type1(t) => FontDataView::Type1(t@),
        FontData::Type0(t) => FontDataView::Type0(
            Type0FontView {
                descendant_fonts: Seq::new(
                    t.descendant_fonts@.len(),
                    |i: int|
                        if 0 <= i < t.descendant_fonts@.len() {
                            font_view(*t.descendant_fonts@[i])
                        } else {
                            arbitrary()
                        },
                ),
                to_unicode: opt_stream(t.to_unicode),
            },
        ),
        FontData::TrueType(t) => FontDataView::TrueType(t@),
        FontData::CIDFontType0(c) => FontDataView::CIDFontType0(c@),
        FontData::CIDFontType2(c, map) => FontDataView::CIDFontType2(
            c@,
            match map {
                Some(m) => Some(m@),
                None => None,
            },
        ),
        FontData::Other(d) => FontDataView::Other(d@),
        FontData::Standard(bytes) => FontDataView::Standard(bytes@),
    }
}

/// The view of what a Type 0 font dictionary says.
pub open spec fn type0_view(t: Type0Font) -> Type0FontView {
    Type0FontView {
        descendant_fonts: fonts_view(t.descendant_fonts@),
        to_unicode: opt_stream(t.to_unicode),
    }
}

/// What a Type 0 font is, seen as a whole or by its parts.
pub proof fn lemma_type0_view(t: Type0Font)
    ensures
        data_view(FontData::Type0(t)) == FontDataView::Type0(type0_view(t)),
{
    assert(data_view(FontData::Type0(t))->Type0_0.descendant_fonts =~= fonts_view(
        t.descendant_fonts@,
    ));
}

impl View for Font {
    type V = FontView;

    open spec fn view(&self) -> FontView {
        font_view(*self)
    }
}

/// The views of a list of shared fonts.
pub open spec fn fonts_view(v: Seq<Rc<Font>>) -> Seq<FontView> {
    Seq::new(v.len(), |i: int| font_view(*v[i]))
}

/// The kind of font that a name stands for.
pub open spec fn font_type_named(name: Seq<char>) -> Result<FontType, ErrorView> {
    if name == "Type0"@ {
        Ok(FontType::Type0)
    } else if name == "Type1"@ {
        Ok(FontType::Type1)
    } else if name == "MMType1"@ {
        Ok(FontType::MMType1)
    } else if name == "Type3"@ {
        Ok(FontType::Type3)
    } else if name == "TrueType"@ {
        Ok(FontType::TrueType)
    } else if name == "CIDFontType0"@ {
        Ok(FontType::CIDFontType0)
    } else if name == "CIDFontType2"@ {
        Ok(FontType::CIDFontType2)
    } else {
        Err(ErrorView::UnknownVariant { id: "FontType"@, name })
    }
}

/// The kind of font that a value stands for.
pub open spec fn font_type_of<R: Resolve>(p: PrimitiveView, r: &R) -> Result<FontType, ErrorView> {
    match name_of(p, r) {
        Err(e) => Err(e),
        Ok(name) => font_type_named(name),
    }
}

impl FontType {
    /// The kind of font that a name stands for. Fails with
    /// `UnknownVariant` where the name stands for none.
    pub fn from_name(name: &str) -> (res: Result<FontType, PdfError>)
        ensures
            match res {
                Ok(x) => font_type_named(name@) == Ok::<FontType, ErrorView>(x),
                Err(e) => font_type_named(name@) == Err::<FontType, ErrorView>(e@),
            },
    {
        if str_eq(name, "Type0") {
            Ok(FontType::Type0)
        } else if str_eq(name, "Type1") {
            Ok(FontType::Type1)
        } else if str_eq(name, "MMType1") {
            Ok(FontType::MMType1)
        } else if str_eq(name, "Type3") {
            Ok(FontType::Type3)
        } else if str_eq(name, "TrueType") {
            Ok(FontType::TrueType)
        } else if str_eq(name, "CIDFontType0") {
            Ok(FontType::CIDFontType0)
        } else if str_eq(name, "CIDFontType2") {
            Ok(FontType::CIDFontType2)
        } else {
            Err(PdfError::UnknownVariant { id: "FontType", name: name.to_owned() })
        }
    }

    /// Reads the kind of font from a name, through references if need be.
    pub fn from_primitive(p: Primitive, r: &impl Resolve) -> (res: Result<FontType, PdfError>)
        ensures
            match res {
                Ok(x) => font_type_of(p@, r) == Ok::<FontType, ErrorView>(x),
                Err(e) => font_type_of(p@, r) == Err::<FontType, ErrorView>(e@),
            },
    {
        match crate::object::name_from_primitive(p, r) {
            Ok(name) => FontType::from_name(name.as_str()),
            Err(e) => Err(e),
        }
    }
}

impl StandardFonts {
    /// No standard fonts.
    pub fn new() -> (s: StandardFonts)
        ensures
            s@ == Seq::<(Seq<char>, Seq<u8>)>::empty(),
    {
        let s = StandardFonts { fonts: Vec::new() };
        assert(s@ =~= Seq::empty());
        s
    }

    /// Adds a standard font at the end of the table.
    pub fn add(&mut self, name: String, program: Vec<u8>)
        ensures
            final(self)@ == old(self)@.push((name@, program@)),
    {
        self.fonts.push((name, program));
        assert(self@ =~= old(self)@.push((name@, program@)));
    }

    /// The program of the standard font of that name. Names are compared
    /// letter for letter, and the first font of the name is the one
    /// found.
    pub fn find(&self, name: &str) -> (program: Option<&Vec<u8>>)
        ensures
            match program {
                Some(bytes) => standard_from(self@, name@, 0) == Some(bytes@),
                None => standard_from(self@, name@, 0) is None,
            },
    {
        let mut i: usize = 0;
        while i < self.fonts.len()
            invariant
                i <= self.fonts@.len(),
                self@.len() == self.fonts@.len(),
                standard_from(self@, name@, 0) == standard_from(self@, name@, i as int),
            decreases self.fonts@.len() - i,
        {
            assert(self@[i as int] == (self.fonts@[i as int].0@, self.fonts@[i as int].1@));
            if str_eq(self.fonts[i].0.as_str(), name) {
                return Some(&self.fonts[i].1);
            }
            i += 1;
        }
        None
    }
}

} // verus!
