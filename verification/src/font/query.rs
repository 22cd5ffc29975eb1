//! What can be asked of a font once it is built.

use crate::encoding::Encoding;
use crate::error::{result_view, ErrorView, PdfError};
use crate::font::descriptor::{plain_number, program_of};
use crate::font::widths::{Widths, WidthsView};
use crate::font::{Font, FontData, FontDataView, FontView, TFont, TFontView};
use crate::primitive::{
    kind_name, prims_view, unexpected, zero, Number, Primitive, PrimitiveView, Real,
};
use crate::stream::Stream;
use crate::text::joined;
use vstd::prelude::*;

verus! {

/// The embedded program of a font: that of its descriptor; for a Type 0
/// font, that of the first font it is composed of. The outer `None` says
/// that the font has none; the inner one, that a JPEG decoder decides
/// its content.
pub open spec fn embedded_of(f: FontView) -> Option<Option<Result<Seq<u8>, ErrorView>>>
    decreases f,
{
    match f.data {
        FontDataView::Type0(t) => {
            if t.descendant_fonts.len() > 0 {
                embedded_of(t.descendant_fonts[0])
            } else {
                None
            }
        },
        FontDataView::CIDFontType0(c) => program_of(c.font_descriptor),
        FontDataView::CIDFontType2(c, _) => program_of(c.font_descriptor),
        FontDataView::Type1(t) => program_of(t.font_descriptor),
        FontDataView::TrueType(t) => program_of(t.font_descriptor),
        _ => None,
    }
}

/// The table from character identifier to glyph index of a font: that of
/// a CID-keyed TrueType font; for a Type 0 font, that of the first font
/// it is composed of.
pub open spec fn gid_map_of(f: FontView) -> Option<Seq<u16>>
    decreases f,
{
    match f.data {
        FontDataView::Type0(t) => {
            if t.descendant_fonts.len() > 0 {
                gid_map_of(t.descendant_fonts[0])
            } else {
                None
            }
        },
        FontDataView::CIDFontType2(_, map) => map,
        _ => None,
    }
}

/// The text that names a value's kind in a complaint about a `W` array,
/// or the word for a value that is not there.
pub open spec fn found_name(items: Seq<PrimitiveView>, i: int) -> Seq<char> {
    if 0 <= i < items.len() {
        kind_name(items[i])
    } else {
        "None"@
    }
}

/// The complaint about a `W` array whose entry has neither shape.
pub open spec fn bad_shape(found: Seq<char>) -> ErrorView {
    ErrorView::Other { msg: "unexpected primitive in W array: "@ + found }
}

/// A run of widths: element `i` of `run` is the width of code
/// `first + i`, from element `from` on.
pub open spec fn set_run(w: WidthsView, first: int, run: Seq<PrimitiveView>, from: int) -> Result<
    WidthsView,
    ErrorView,
>
    decreases run.len() - from,
{
    if from < 0 || from >= run.len() {
        Ok(w)
    } else {
        match plain_number(run[from]) {
            Err(e) => Err(e),
            Ok(width) => {
                if first + from > usize::MAX {
                    Err(ErrorView::Other { msg: "code out of range in W array"@ })
                } else {
                    set_run(w.set(first + from, width), first, run, from + 1)
                }
            },
        }
    }
}

/// One width for every code from `first` to `last`.
pub open spec fn set_range(w: WidthsView, first: int, last: int, width: Number) -> WidthsView
    decreases last - first + 1,
{
    if first > last {
        w
    } else {
        set_range(w.set(first, width), first + 1, last, width)
    }
}

/// The table that a `W` array builds, read from `pos` on with `w` in
/// hand. An entry is a first code and an array of widths, or a first
/// code, a last code and one width. A code that is no integer, or is
/// negative, fails; so does an entry of neither shape, with a complaint
/// that names what was found.
pub open spec fn w_entries(items: Seq<PrimitiveView>, pos: int, w: WidthsView) -> Result<
    WidthsView,
    ErrorView,
>
    decreases items.len() - pos,
{
    if pos < 0 || pos >= items.len() {
        Ok(w)
    } else {
        match items[pos] {
            PrimitiveView::Integer(c1) => {
                if c1 < 0 {
                    Err(ErrorView::Other { msg: "negative code in W array"@ })
                } else if pos + 1 >= items.len() {
                    Err(bad_shape(found_name(items, pos + 1)))
                } else {
                    match items[pos + 1] {
                        PrimitiveView::Array(run) => match set_run(w, c1 as int, run, 0) {
                            Err(e) => Err(e),
                            Ok(filled) => w_entries(items, pos + 2, filled),
                        },
                        PrimitiveView::Integer(c2) => {
                            if pos + 2 >= items.len() {
                                Err(ErrorView::Other { msg: "unexpected end of W array"@ })
                            } else {
                                match plain_number(items[pos + 2]) {
                                    Err(e) => Err(e),
                                    Ok(width) => w_entries(
                                        items,
                                        pos + 3,
                                        set_range(w, c1 as int, c2 as int, width),
                                    ),
                                }
                            }
                        },
                        _ => Err(bad_shape(found_name(items, pos + 1))),
                    }
                }
            },
            q => Err(unexpected("Integer"@, q)),
        }
    }
}

/// The width table of a font. A Type 1 or TrueType font has one where it
/// names its first code: its widths from that code on, with zero as the
/// default. A CID-keyed font has the table that its `W` array builds
/// over its default width. A Type 0 font has that of the first font it
/// is composed of. Any other font has none.
pub open spec fn widths_of(f: FontView) -> Result<Option<WidthsView>, ErrorView>
    decreases f,
{
    match f.data {
        FontDataView::Type0(t) => {
            if t.descendant_fonts.len() > 0 {
                widths_of(t.descendant_fonts[0])
            } else {
                Ok(None)
            }
        },
        FontDataView::Type1(info) => Ok(tfont_widths(info)),
        FontDataView::TrueType(info) => Ok(tfont_widths(info)),
        FontDataView::CIDFontType0(cid) => match w_entries(
            cid.widths,
            0,
            WidthsView::empty(cid.default_width),
        ) {
            Ok(w) => Ok(Some(w)),
            Err(e) => Err(e),
        },
        FontDataView::CIDFontType2(cid, _) => match w_entries(
            cid.widths,
            0,
            WidthsView::empty(cid.default_width),
        ) {
            Ok(w) => Ok(Some(w)),
            Err(e) => Err(e),
        },
        _ => Ok(None),
    }
}

/// The width table of a Type 1 or TrueType font.
pub open spec fn tfont_widths(info: TFontView) -> Option<WidthsView> {
    match info.first_char {
        Some(first) => Some(
            WidthsView {
                values: info.widths,
                default: zero(),
                first_char: (first as usize) as int,
            },
        ),
        None => None,
    }
}

/// The complaint about a `W` array whose entry has neither shape.
fn bad_shape_error(found: &str) -> (e: PdfError)
    ensures
        e@ == bad_shape(found@),
{
    PdfError::Other { msg: joined("unexpected primitive in W array: ", found) }
}

/// Sets a run of widths.
fn fill_run(widths: &mut Widths, first: usize, run: &Vec<Primitive>) -> (res: Result<(), PdfError>)
    ensures
        match res {
            Ok(_) => set_run(old(widths)@, first as int, prims_view(run@), 0) == Ok::<
                WidthsView,
                ErrorView,
            >(final(widths)@),
            Err(e) => set_run(old(widths)@, first as int, prims_view(run@), 0) == Err::<
                WidthsView,
                ErrorView,
            >(e@),
        },
{
    let ghost views = prims_view(run@);
    if run.len() <= usize::MAX - first {
        widths.ensure_capacity(first + run.len());
    }
    let mut i: usize = 0;
    while i < run.len()
        invariant
            i <= run@.len(),
            views == prims_view(run@),
            set_run(old(widths)@, first as int, views, 0) == set_run(
                widths@,
                first as int,
                views,
                i as int,
            ),
        decreases run@.len() - i,
    {
        let width = match run[i].as_number() {
            Ok(x) => x,
            Err(e) => {
                return Err(e);
            },
        };
        if i > usize::MAX - first {
            return Err(PdfError::Other { msg: "code out of range in W array".to_string() });
        }
        widths.set(first + i, width);
        i += 1;
    }
    Ok(())
}

/// Sets one width for a range of codes.
fn fill_range(widths: &mut Widths, first: i32, last: i32, width: Number)
    requires
        first >= 0,
    ensures
        final(widths)@ == set_range(old(widths)@, first as int, last as int, width),
{
    if last < first {
        return ;
    }
    let mut c: i64 = first as i64;
    while c <= last as i64
        invariant
            0 <= first <= c <= last + 1,
            set_range(old(widths)@, first as int, last as int, width) == set_range(
                widths@,
                c as int,
                last as int,
                width,
            ),
        decreases last + 1 - c,
    {
        widths.set(c as usize, width);
        c += 1;
    }
}

/// Builds the width table of a CID-keyed font from its `W` array.
pub fn read_w_array(items: &Vec<Primitive>, default: Number) -> (res: Result<Widths, PdfError>)
    ensures
        result_view(res) == w_entries(prims_view(items@), 0, WidthsView::empty(default)),
{
    let ghost views = prims_view(items@);
    let mut widths = Widths::new(default);
    let n = items.len();
    let mut pos: usize = 0;
    while pos < n
        invariant
            pos <= n,
            n == items@.len(),
            views == prims_view(items@),
            w_entries(views, 0, WidthsView::empty(default)) == w_entries(
                views,
                pos as int,
                widths@,
            ),
        decreases n - pos,
    {
        let c1 = match items[pos].as_integer() {
            Ok(c) => c,
            Err(e) => {
                return Err(e);
            },
        };
        if c1 < 0 {
            return Err(PdfError::Other { msg: "negative code in W array".to_string() });
        }
        if pos + 1 >= n {
            return Err(bad_shape_error("None"));
        }
        match &items[pos + 1] {
            Primitive::Array(run) => {
                match fill_run(&mut widths, c1 as usize, run) {
                    Ok(_) => {},
                    Err(e) => {
                        return Err(e);
                    },
                }
                pos += 2;
            },
            Primitive::Integer(c2) => {
                if pos + 2 >= n {
                    return Err(PdfError::Other { msg: "unexpected end of W array".to_string() });
                }
                let width = match items[pos + 2].as_number() {
                    Ok(x) => x,
                    Err(e) => {
                        return Err(e);
                    },
                };
                fill_range(&mut widths, c1, *c2, width);
                pos += 3;
            },
            q => {
                return Err(bad_shape_error(q.get_debug_name()));
            },
        }
    }
    Ok(widths)
}

/// The view of a table that may be absent.
pub open spec fn opt_widths(w: Option<Widths>) -> Option<WidthsView> {
    match w {
        Some(x) => Some(x@),
        None => None,
    }
}

impl TFont {
    /// The width table of the font, where it names its first code.
    pub fn widths(&self) -> (w: Option<Widths>)
        ensures
            opt_widths(w) == tfont_widths(self@),
    {
        match self.first_char {
            Some(first) => Some(
                Widths::from_run(
                    Number::Real(Real { bits: 0 }),
                    first as usize,
                    self.widths.clone(),
                ),
            ),
            None => None,
        }
    }
}

impl Font {
    /// The program of a standard font, where the font is one.
    pub fn standard_font(&self) -> (program: Option<&[u8]>)
        ensures
            match program {
                Some(bytes) => self@.data == FontDataView::Standard(bytes@),
                None => !(self@.data is Standard),
            },
    {
        match self.data {
            FontData::Standard(ref data) => Some(data.as_slice()),
            _ => None,
        }
    }

    /// The embedded program of the font, decoded: that of its descriptor,
    /// or, for a Type 0 font, that of the first font it is composed of.
    pub fn embedded_data(&self) -> (res: Option<Result<Vec<u8>, PdfError>>)
        ensures
            match embedded_of(self@) {
                None => res is None,
                Some(content) => res matches Some(got) && (content matches Some(expected)
                    ==> result_view(got) == expected),
            },
        decreases self,
    {
        match self.data {
            FontData::Type0(ref t) => {
                proof {
                    crate::font::lemma_type0_view(*t);
                }
                if t.descendant_fonts.len() > 0 {
                    proof {
                        assert(decreases_to!(self => self.data));
                        assert(decreases_to!(self.data => t));
                        assert(decreases_to!(t => t.descendant_fonts));
                        assert(decreases_to!(t.descendant_fonts => t.descendant_fonts@));
                        assert(decreases_to!(t.descendant_fonts@ => t.descendant_fonts@[0]));
                    }
                    t.descendant_fonts[0].embedded_data()
                } else {
                    None
                }
            },
            FontData::CIDFontType0(ref c) => c.font_descriptor.data(),
            FontData::CIDFontType2(ref c, _) => c.font_descriptor.data(),
            FontData::Type1(ref t) => t.font_descriptor.data(),
            FontData::TrueType(ref t) => t.font_descriptor.data(),
            _ => None,
        }
    }

    /// Whether the font is CID-keyed.
    pub fn is_cid(&self) -> (b: bool)
        ensures
            b == (self@.data is CIDFontType0 || self@.data is CIDFontType2),
    {
        match self.data {
            FontData::CIDFontType0(_) => true,
            FontData::CIDFontType2(_, _) => true,
            _ => false,
        }
    }

    /// The table from character identifier to glyph index, where the
    /// font has one of its own. `None` says that the identifiers are the
    /// glyph indices, not that the table is empty.
    pub fn cid_to_gid_map(&self) -> (map: Option<&[u16]>)
        ensures
            match map {
                Some(m) => gid_map_of(self@) == Some(m@),
                None => gid_map_of(self@) is None,
            },
        decreases self,
    {
        match self.data {
            FontData::Type0(ref inner) => {
                proof {
                    crate::font::lemma_type0_view(*inner);
                }
                if inner.descendant_fonts.len() > 0 {
                    proof {
                        assert(decreases_to!(self => self.data));
                        assert(decreases_to!(self.data => inner));
                        assert(decreases_to!(inner => inner.descendant_fonts));
                        assert(decreases_to!(inner.descendant_fonts => inner.descendant_fonts@));
                        assert(decreases_to!(inner.descendant_fonts@ => inner.descendant_fonts@[0]));
                    }
                    inner.descendant_fonts[0].cid_to_gid_map()
                } else {
                    None
                }
            },
            FontData::CIDFontType2(_, ref data) => match data {
                Some(v) => Some(v.as_slice()),
                None => None,
            },
            _ => None,
        }
    }

    /// The declared encoding, if any.
    pub fn encoding(&self) -> (e: Option<&Encoding>)
        ensures
            match e {
                Some(x) => self@.encoding == Some(x@),
                None => self@.encoding is None,
            },
    {
        self.encoding.as_ref()
    }

    /// What the dictionary of a Type 1 or TrueType font says.
    pub fn info(&self) -> (t: Option<&TFont>)
        ensures
            match t {
                Some(x) => self@.data == FontDataView::Type1(x@) || self@.data
                    == FontDataView::TrueType(x@),
                None => !(self@.data is Type1) && !(self@.data is TrueType),
            },
    {
        match self.data {
            FontData::Type1(ref info) => Some(info),
            FontData::TrueType(ref info) => Some(info),
            _ => None,
        }
    }

    /// The width table of the font, if it has one. Fails where the `W`
    /// array of a CID-keyed font is malformed.
    pub fn widths(&self) -> (res: Result<Option<Widths>, PdfError>)
        ensures
            match res {
                Ok(w) => widths_of(self@) == Ok::<Option<WidthsView>, ErrorView>(opt_widths(w)),
                Err(e) => widths_of(self@) == Err::<Option<WidthsView>, ErrorView>(e@),
            },
        decreases self,
    {
        match self.data {
            FontData::Type0(ref t0) => {
                proof {
                    crate::font::lemma_type0_view(*t0);
                }
                if t0.descendant_fonts.len() > 0 {
                    proof {
                        assert(decreases_to!(self => self.data));
                        assert(decreases_to!(self.data => t0));
                        assert(decreases_to!(t0 => t0.descendant_fonts));
                        assert(decreases_to!(t0.descendant_fonts => t0.descendant_fonts@));
                        assert(decreases_to!(t0.descendant_fonts@ => t0.descendant_fonts@[0]));
                    }
                    t0.descendant_fonts[0].widths()
                } else {
                    Ok(None)
                }
            },
            FontData::Type1(ref info) => Ok(info.widths()),
            FontData::TrueType(ref info) => Ok(info.widths()),
            FontData::CIDFontType0(ref cid) => match read_w_array(&cid.widths, cid.default_width) {
                Ok(w) => Ok(Some(w)),
                Err(e) => Err(e),
            },
            FontData::CIDFontType2(ref cid, _) => match read_w_array(
                &cid.widths,
                cid.default_width,
            ) {
                Ok(w) => Ok(Some(w)),
                Err(e) => Err(e),
            },
            _ => Ok(None),
        }
    }

    /// The stream that maps the font's codes to Unicode, if any.
    pub fn to_unicode(&self) -> (s: Option<&Stream<()>>)
        ensures
            match s {
                Some(x) => self@.to_unicode == Some(x@),
                None => self@.to_unicode is None,
            },
    {
        self.to_unicode.as_ref()
    }
}

} // verus!
