//! Colour spaces.

use crate::error::{result_view, ErrorView, PdfError};
use crate::object::function::{function_of, Function, FunctionView};
use crate::object::{too_deep_error, 
    array_of, at, chase, is_dangling, numbers_of, opt_field, required, take_unsigned, too_deep,
    unsigned_of, wrap_field, in_field, Resolve, MAX_DEPTH,
};
use crate::primitive::{
    dict_get, dict_remove, prims_view, unexpected, DictView, Dictionary, Number, Primitive,
    PrimitiveView,
};
use crate::stream::{chain_spec, plain_stream_spec, stream_from, stream_spec, Stream, StreamView};
use crate::text::str_eq;
use std::rc::Rc;
use vstd::prelude::*;

verus! {

/// What the dictionary of an ICC profile stream says.
#[derive(Debug)]
pub struct IccInfo {
    /// Number of colour components.
    pub components: u32,
    /// The colour space to use where the profile cannot be.
    pub alternate: Option<Rc<ColorSpace>>,
    /// Least and greatest value of each component.
    pub range: Option<Vec<Number>>,
    /// Metadata of the profile.
    pub metadata: Option<Stream<()>>,
}

/// A colour space.
#[derive(Debug)]
pub enum ColorSpace {
    DeviceGray,
    DeviceRGB,
    DeviceCMYK,
    /// A palette: the space of its colours and the table of its entries.
    Indexed(Rc<ColorSpace>, Vec<u8>),
    /// A named colorant, the space to show it in, and the function from
    /// tint to colour.
    Separation(String, Rc<ColorSpace>, Function),
    /// A space defined by an ICC profile.
    Icc(Box<Stream<IccInfo>>),
    /// Any other array, kept as it is.
    Other(Vec<Primitive>),
}

/// Mathematical view of an [`IccInfo`].
pub ghost struct IccInfoView {
    pub components: u32,
    pub alternate: Option<Box<ColorSpaceView>>,
    pub range: Option<Seq<Number>>,
    pub metadata: Option<StreamView<()>>,
}

/// Mathematical view of a [`ColorSpace`].
pub ghost enum ColorSpaceView {
    DeviceGray,
    DeviceRGB,
    DeviceCMYK,
    Indexed(Box<ColorSpaceView>, Seq<u8>),
    Separation(Seq<char>, Box<ColorSpaceView>, FunctionView),
    Icc(StreamView<IccInfoView>),
    Other(Seq<PrimitiveView>),
}

/// The view of a colour space, by recursion on the spaces inside it.
pub open spec fn space_view(c: ColorSpace) -> ColorSpaceView
    decreases c,
{
    match c {
        ColorSpace::DeviceGray => ColorSpaceView::DeviceGray,
        ColorSpace::DeviceRGB => ColorSpaceView::DeviceRGB,
        ColorSpace::DeviceCMYK => ColorSpaceView::DeviceCMYK,
        ColorSpace::Indexed(base, lookup) => ColorSpaceView::Indexed(
            Box::new(space_view(*base)),
            lookup@,
        ),
        ColorSpace::Separation(name, alternate, tint) => ColorSpaceView::Separation(
            name@,
            Box::new(space_view(*alternate)),
            tint@,
        ),
        ColorSpace::Icc(s) => ColorSpaceView::Icc(
            StreamView { info: icc_view(s.info), filters: s.filters@, data: s.data@ },
        ),
        ColorSpace::Other(items) => ColorSpaceView::Other(prims_view(items@)),
    }
}

/// The view of the information of an ICC profile stream.
pub open spec fn icc_view(i: IccInfo) -> IccInfoView
    decreases i,
{
    IccInfoView {
        components: i.components,
        alternate: match i.alternate {
            Some(a) => Some(Box::new(space_view(*a))),
            None => None,
        },
        range: match i.range {
            Some(v) => Some(v@),
            None => None,
        },
        metadata: match i.metadata {
            Some(s) => Some(s@),
            None => None,
        },
    }
}

impl View for ColorSpace {
    type V = ColorSpaceView;

    open spec fn view(&self) -> ColorSpaceView {
        space_view(*self)
    }
}

impl View for IccInfo {
    type V = IccInfoView;

    open spec fn view(&self) -> IccInfoView {
        icc_view(*self)
    }
}

/// Element `idx` of an array, or the complaint that the array is too
/// short for it.
pub open spec fn item(arr: Seq<PrimitiveView>, idx: int) -> Result<PrimitiveView, ErrorView> {
    if 0 <= idx < arr.len() {
        Ok(arr[idx])
    } else {
        Err(ErrorView::Bounds { index: idx as usize, len: arr.len() as usize })
    }
}

/// Element `idx` of an array. Fails with `Bounds`, which names the index
/// and the length, where the array is too short.
pub fn get_index(arr: &[Primitive], idx: usize) -> (res: Result<&Primitive, PdfError>)
    ensures
        match res {
            Ok(p) => idx < arr@.len() && p == arr@[idx as int],
            Err(e) => idx >= arr@.len() && e@ == (ErrorView::Bounds {
                index: idx,
                len: arr@.len() as usize,
            }),
        },
{
    if idx < arr.len() {
        Ok(&arr[idx])
    } else {
        Err(PdfError::Bounds { index: idx, len: arr.len() })
    }
}

/// The device colour space that a bare name stands for.
pub open spec fn named_space(name: Seq<char>) -> Result<ColorSpaceView, ErrorView> {
    if name == "DeviceGray"@ {
        Ok(ColorSpaceView::DeviceGray)
    } else if name == "DeviceRGB"@ {
        Ok(ColorSpaceView::DeviceRGB)
    } else if name == "DeviceCMYK"@ {
        Ok(ColorSpaceView::DeviceCMYK)
    } else {
        Err(ErrorView::Unimplemented { what: "ColorSpace"@ })
    }
}

/// The lookup table of an indexed space: the bytes of a string, or the
/// content of a stream. `None` where a JPEG decoder decides the content.
pub open spec fn lookup_of<R: Resolve>(p: PrimitiveView, r: &R) -> Option<
    Result<Seq<u8>, ErrorView>,
> {
    match chase(p, r, MAX_DEPTH as nat) {
        Err(e) => Some(Err(e)),
        Ok(PrimitiveView::String(bytes)) => Some(Ok(bytes)),
        Ok(PrimitiveView::Stream { info, data }) => match stream_from(info, data, r) {
            Err(e) => Some(Err(e)),
            Ok(s) => chain_spec(s.data, s.filters),
        },
        Ok(q) => Some(Err(unexpected("String or Stream"@, q))),
    }
}

/// The colour space that a value stands for, with spaces nested at most
/// `depth` deep. `None` where a JPEG decoder decides a part of it.
///
/// A bare name is a device space. An array is read by its first element:
/// `Indexed`, `Separation` and `ICCBased` have their parts at fixed
/// places; an array too short for a part fails with `Bounds`. Any other
/// array is kept as it is.
pub open spec fn space_of<R: Resolve>(p: PrimitiveView, r: &R, depth: nat) -> Option<
    Result<ColorSpaceView, ErrorView>,
>
    decreases depth, 5int,
{
    match p {
        PrimitiveView::Name(name) => Some(named_space(name)),
        _ => match array_of(p, r) {
            Err(e) => Some(Err(e)),
            Ok(arr) => match item(arr, 0) {
                Err(e) => Some(Err(e)),
                Ok(PrimitiveView::Name(typ)) => {
                    if typ == "Indexed"@ {
                        indexed_of(arr, r, depth)
                    } else if typ == "Separation"@ {
                        separation_of(arr, r, depth)
                    } else if typ == "ICCBased"@ {
                        icc_based_of(arr, r, depth)
                    } else {
                        Some(Ok(ColorSpaceView::Other(arr)))
                    }
                },
                Ok(q) => Some(Err(unexpected("Name"@, q))),
            },
        },
    }
}

/// A colour space inside another: the value is followed through
/// references and read one level deeper. Fails where no level is left.
pub open spec fn nested_space_of<R: Resolve>(p: PrimitiveView, r: &R, depth: nat) -> Option<
    Result<ColorSpaceView, ErrorView>,
>
    decreases depth, 1int,
{
    if depth == 0 {
        Some(Err(too_deep()))
    } else {
        match chase(p, r, MAX_DEPTH as nat) {
            Err(e) => Some(Err(e)),
            Ok(q) => space_of(q, r, (depth - 1) as nat),
        }
    }
}

/// An indexed space: the base space at place 1, the lookup table at
/// place 3.
pub open spec fn indexed_of<R: Resolve>(arr: Seq<PrimitiveView>, r: &R, depth: nat) -> Option<
    Result<ColorSpaceView, ErrorView>,
>
    decreases depth, 2int,
{
    match item(arr, 1) {
        Err(e) => Some(Err(e)),
        Ok(b) => match nested_space_of(b, r, depth) {
            None => None,
            Some(Err(e)) => Some(Err(e)),
            Some(Ok(base)) => match item(arr, 3) {
                Err(e) => Some(Err(e)),
                Ok(l) => match lookup_of(l, r) {
                    None => None,
                    Some(Err(e)) => Some(Err(e)),
                    Some(Ok(bytes)) => Some(Ok(ColorSpaceView::Indexed(Box::new(base), bytes))),
                },
            },
        },
    }
}

/// A separation space: the colorant's name at place 1, the alternate
/// space at place 2, the tint function at place 3.
pub open spec fn separation_of<R: Resolve>(arr: Seq<PrimitiveView>, r: &R, depth: nat) -> Option<
    Result<ColorSpaceView, ErrorView>,
>
    decreases depth, 2int,
{
    match item(arr, 1) {
        Err(e) => Some(Err(e)),
        Ok(PrimitiveView::Name(name)) => match item(arr, 2) {
            Err(e) => Some(Err(e)),
            Ok(a) => match nested_space_of(a, r, depth) {
                None => None,
                Some(Err(e)) => Some(Err(e)),
                Some(Ok(alternate)) => match item(arr, 3) {
                    Err(e) => Some(Err(e)),
                    Ok(t) => match function_of(t, r) {
                        Err(e) => Some(Err(e)),
                        Ok(tint) => Some(
                            Ok(ColorSpaceView::Separation(name, Box::new(alternate), tint)),
                        ),
                    },
                },
            },
        },
        Ok(q) => Some(Err(unexpected("Name"@, q))),
    }
}

/// The alternate space that an ICC profile stream names, if any.
pub open spec fn icc_alternate_of<R: Resolve>(d: DictView, r: &R, depth: nat) -> Option<
    Result<Option<Box<ColorSpaceView>>, ErrorView>,
>
    decreases depth, 2int,
{
    match dict_get(d, "Alternate"@) {
        None => Some(Ok(None)),
        Some(PrimitiveView::Null) => Some(Ok(None)),
        Some(a) => match nested_space_of(a, r, depth) {
            None => None,
            Some(Ok(space)) => Some(Ok(Some(Box::new(space)))),
            Some(Err(ErrorView::NullRef { .. })) => Some(Ok(None)),
            Some(Err(ErrorView::FreeObject { .. })) => Some(Ok(None)),
            Some(Err(e)) => Some(Err(in_field("IccInfo"@, "Alternate"@, e))),
        },
    }
}

/// What the dictionary of an ICC profile stream says: the component
/// count under `N`, which has to be there, and what may stand under
/// `Alternate`, `Range` and `Metadata`.
pub open spec fn icc_info_of<R: Resolve>(d0: DictView, r: &R, depth: nat) -> Option<
    Result<IccInfoView, ErrorView>,
>
    decreases depth, 3int,
{
    let typ = "IccInfo"@;
    let components = required(dict_get(d0, "N"@), typ, "N"@, unsigned_of(at(d0, "N"@), r));
    let d1 = dict_remove(d0, "N"@);
    let alternate = icc_alternate_of(d1, r, depth);
    let d2 = dict_remove(d1, "Alternate"@);
    let range = opt_field(dict_get(d2, "Range"@), typ, "Range"@, numbers_of(at(d2, "Range"@), r));
    let d3 = dict_remove(d2, "Range"@);
    let metadata = opt_field(
        dict_get(d3, "Metadata"@),
        typ,
        "Metadata"@,
        plain_stream_spec(at(d3, "Metadata"@), r),
    );
    if components is Err {
        Some(Err(components->Err_0))
    } else if alternate is None {
        None
    } else if alternate->Some_0 is Err {
        Some(Err(alternate->Some_0->Err_0))
    } else if range is Err {
        Some(Err(range->Err_0))
    } else if metadata is Err {
        Some(Err(metadata->Err_0))
    } else {
        Some(
            Ok(
                IccInfoView {
                    components: components->Ok_0,
                    alternate: alternate->Some_0->Ok_0,
                    range: range->Ok_0,
                    metadata: metadata->Ok_0,
                },
            ),
        )
    }
}

/// A space defined by an ICC profile: the profile stream at place 1.
pub open spec fn icc_based_of<R: Resolve>(arr: Seq<PrimitiveView>, r: &R, depth: nat) -> Option<
    Result<ColorSpaceView, ErrorView>,
>
    decreases depth, 4int,
{
    match item(arr, 1) {
        Err(e) => Some(Err(e)),
        Ok(s) => match stream_spec(s, r) {
            Err(e) => Some(Err(e)),
            Ok(stream) => match icc_info_of(stream.info, r, depth) {
                None => None,
                Some(Err(e)) => Some(Err(e)),
                Some(Ok(info)) => Some(Ok(ColorSpaceView::Icc(stream.with_info(info)))),
            },
        },
    }
}

/// The colour space that a value stands for, with spaces nested at most
/// `MAX_DEPTH` deep.
pub open spec fn color_space_of<R: Resolve>(p: PrimitiveView, r: &R) -> Option<
    Result<ColorSpaceView, ErrorView>,
> {
    space_of(p, r, MAX_DEPTH as nat)
}

/// An indexed colour space built on a string and one built on a stream
/// are the same space where the stream's content is the string's bytes:
/// the two ways to give a lookup table lead to the same table.
pub proof fn lemma_indexed_lookup_agrees<R: Resolve>(
    base: PrimitiveView,
    hival: PrimitiveView,
    bytes: Seq<u8>,
    info: DictView,
    data: Seq<u8>,
    r: &R,
    depth: nat,
)
    requires
        stream_from(info, data, r) matches Ok(s) && chain_spec(s.data, s.filters) == Some(
            Ok::<Seq<u8>, ErrorView>(bytes),
        ),
    ensures
        space_of(
            PrimitiveView::Array(
                seq![
                    PrimitiveView::Name("Indexed"@),
                    base,
                    hival,
                    PrimitiveView::Stream { info, data },
                ],
            ),
            r,
            depth,
        ) == space_of(
            PrimitiveView::Array(
                seq![PrimitiveView::Name("Indexed"@), base, hival, PrimitiveView::String(bytes)],
            ),
            r,
            depth,
        ),
{
    let with_stream = seq![
        PrimitiveView::Name("Indexed"@),
        base,
        hival,
        PrimitiveView::Stream { info, data },
    ];
    let with_string = seq![
        PrimitiveView::Name("Indexed"@),
        base,
        hival,
        PrimitiveView::String(bytes),
    ];
    crate::object::lemma_chase_end(PrimitiveView::Array(with_stream), r, MAX_DEPTH as nat);
    crate::object::lemma_chase_end(PrimitiveView::Array(with_string), r, MAX_DEPTH as nat);
    crate::object::lemma_chase_end(with_stream[3], r, MAX_DEPTH as nat);
    crate::object::lemma_chase_end(with_string[3], r, MAX_DEPTH as nat);
    assert(lookup_of(with_stream[3], r) == lookup_of(with_string[3], r));
    assert(item(with_stream, 1) == item(with_string, 1));
    assert(indexed_of(with_stream, r, depth) == indexed_of(with_string, r, depth));
}


/// Reads the lookup table of an indexed space.
fn lookup(p: Primitive, r: &impl Resolve) -> (res: Result<Vec<u8>, PdfError>)
    ensures
        lookup_of(p@, r) matches Some(expected) ==> result_view(res) == expected,
{
    match p.resolved(r) {
        Err(e) => Err(e),
        Ok(Primitive::String(string)) => Ok(string.into_bytes()),
        Ok(Primitive::Stream(stream)) => {
            let s = match Stream::<()>::from_stream(stream, r) {
                Ok(s) => s,
                Err(e) => {
                    return Err(e);
                },
            };
            s.decode()
        },
        Ok(q) => Err(
            PdfError::UnexpectedPrimitive {
                expected: "String or Stream",
                found: q.get_debug_name(),
            },
        ),
    }
}

impl ColorSpace {
    /// Writing a colour space out is not provided: this fails with
    /// `Unimplemented` and leaves `out` as it is.
    pub fn serialize(&self, out: &mut Vec<u8>) -> (res: Result<(), PdfError>)
        ensures
            res matches Err(e) && e@ == (ErrorView::Unimplemented { what: "serialize"@ }),
            final(out)@ == old(out)@,
    {
        Err(PdfError::Unimplemented { what: "serialize" })
    }

    /// Reads a colour space.
    ///
    /// A bare name is one of the three device spaces; any other name
    /// fails with `Unimplemented`. An array is read by its first element,
    /// the parts of `Indexed`, `Separation` and `ICCBased` at their fixed
    /// places; an array too short for a part fails with `Bounds`, which
    /// names the index and the length. Any other array is kept as
    /// `Other`. Spaces nested deeper than `MAX_DEPTH` are refused.
    pub fn from_primitive(p: Primitive, resolve: &impl Resolve) -> (res: Result<
        ColorSpace,
        PdfError,
    >)
        ensures
            color_space_of(p@, resolve) matches Some(expected) ==> result_view(res) == expected,
    {
        ColorSpace::read(p, resolve, MAX_DEPTH)
    }

    /// Reads a colour space whose nested spaces go at most `depth` deep.
    fn read(p: Primitive, r: &impl Resolve, depth: usize) -> (res: Result<ColorSpace, PdfError>)
        ensures
            space_of(p@, r, depth as nat) matches Some(expected) ==> result_view(res) == expected,
        decreases depth, 5int,
    {
        match &p {
            Primitive::Name(name) => {
                let name = name.as_str();
                return if str_eq(name, "DeviceGray") {
                    Ok(ColorSpace::DeviceGray)
                } else if str_eq(name, "DeviceRGB") {
                    Ok(ColorSpace::DeviceRGB)
                } else if str_eq(name, "DeviceCMYK") {
                    Ok(ColorSpace::DeviceCMYK)
                } else {
                    Err(PdfError::Unimplemented { what: "ColorSpace" })
                };
            },
            _ => {},
        }
        let arr = match p.into_array(r) {
            Ok(arr) => arr,
            Err(e) => {
                return Err(e);
            },
        };
        let family: u8 = {
            let head = match get_index(arr.as_slice(), 0) {
                Ok(head) => head,
                Err(e) => {
                    return Err(e);
                },
            };
            let typ = match head.as_name() {
                Ok(typ) => typ,
                Err(e) => {
                    return Err(e);
                },
            };
            if str_eq(typ, "Indexed") {
                1
            } else if str_eq(typ, "Separation") {
                2
            } else if str_eq(typ, "ICCBased") {
                3
            } else {
                0
            }
        };
        if family == 1 {
            ColorSpace::read_indexed(arr, r, depth)
        } else if family == 2 {
            ColorSpace::read_separation(arr, r, depth)
        } else if family == 3 {
            ColorSpace::read_icc_based(arr, r, depth)
        } else {
            Ok(ColorSpace::Other(arr))
        }
    }

    /// Reads a colour space that stands inside another.
    fn read_nested(p: Primitive, r: &impl Resolve, depth: usize) -> (res: Result<
        Rc<ColorSpace>,
        PdfError,
    >)
        ensures
            nested_space_of(p@, r, depth as nat) matches Some(expected) ==> match res {
                Ok(space) => expected == Ok::<ColorSpaceView, ErrorView>(space_view(*space)),
                Err(e) => expected == Err::<ColorSpaceView, ErrorView>(e@),
            },
        decreases depth, 1int,
    {
        if depth == 0 {
            return Err(too_deep_error());
        }
        let q = match p.resolved(r) {
            Ok(q) => q,
            Err(e) => {
                return Err(e);
            },
        };
        match ColorSpace::read(q, r, depth - 1) {
            Ok(space) => Ok(Rc::new(space)),
            Err(e) => Err(e),
        }
    }

    /// Reads an indexed space from its array.
    fn read_indexed(arr: Vec<Primitive>, r: &impl Resolve, depth: usize) -> (res: Result<
        ColorSpace,
        PdfError,
    >)
        ensures
            indexed_of(prims_view(arr@), r, depth as nat) matches Some(expected) ==> result_view(
                res,
            ) == expected,
        decreases depth, 2int,
    {
        let base_value = match get_index(arr.as_slice(), 1) {
            Ok(b) => b.clone(),
            Err(e) => {
                return Err(e);
            },
        };
        let base = match ColorSpace::read_nested(base_value, r, depth) {
            Ok(base) => base,
            Err(e) => {
                return Err(e);
            },
        };
        let table = match get_index(arr.as_slice(), 3) {
            Ok(l) => l.clone(),
            Err(e) => {
                return Err(e);
            },
        };
        match lookup(table, r) {
            Ok(bytes) => Ok(ColorSpace::Indexed(base, bytes)),
            Err(e) => Err(e),
        }
    }

    /// Reads a separation space from its array.
    fn read_separation(arr: Vec<Primitive>, r: &impl Resolve, depth: usize) -> (res: Result<
        ColorSpace,
        PdfError,
    >)
        ensures
            separation_of(prims_view(arr@), r, depth as nat) matches Some(expected)
                ==> result_view(res) == expected,
        decreases depth, 2int,
    {
        let name = match get_index(arr.as_slice(), 1) {
            Ok(n) => match n.clone().into_name() {
                Ok(name) => name,
                Err(e) => {
                    return Err(e);
                },
            },
            Err(e) => {
                return Err(e);
            },
        };
        let alternate_value = match get_index(arr.as_slice(), 2) {
            Ok(a) => a.clone(),
            Err(e) => {
                return Err(e);
            },
        };
        let alternate = match ColorSpace::read_nested(alternate_value, r, depth) {
            Ok(alternate) => alternate,
            Err(e) => {
                return Err(e);
            },
        };
        let tint_value = match get_index(arr.as_slice(), 3) {
            Ok(t) => t.clone(),
            Err(e) => {
                return Err(e);
            },
        };
        match Function::from_primitive(tint_value, r) {
            Ok(tint) => Ok(ColorSpace::Separation(name, alternate, tint)),
            Err(e) => Err(e),
        }
    }

    /// Reads what the dictionary of an ICC profile stream says.
    fn read_icc_info(dict: Dictionary, r: &impl Resolve, depth: usize) -> (res: Result<
        IccInfo,
        PdfError,
    >)
        ensures
            icc_info_of(dict@, r, depth as nat) matches Some(expected) ==> result_view(res)
                == expected,
        decreases depth, 3int,
    {
        let mut dict = dict;
        let components = match take_unsigned(&mut dict, "IccInfo", "N", r) {
            Ok(n) => n,
            Err(e) => {
                return Err(e);
            },
        };
        let alternate = match dict.remove("Alternate") {
            None => None,
            Some(Primitive::Null) => None,
            Some(a) => match ColorSpace::read_nested(a, r, depth) {
                Ok(space) => Some(space),
                Err(e) => {
                    if is_dangling(&e) {
                        None
                    } else {
                        return Err(wrap_field("IccInfo", "Alternate", e));
                    }
                },
            },
        };
        let range = match crate::object::take_opt_numbers(&mut dict, "IccInfo", "Range", r) {
            Ok(x) => x,
            Err(e) => {
                return Err(e);
            },
        };
        let metadata = match crate::stream::take_opt_stream(&mut dict, "IccInfo", "Metadata", r) {
            Ok(x) => x,
            Err(e) => {
                return Err(e);
            },
        };
        Ok(IccInfo { components, alternate, range, metadata })
    }

    /// Reads a space defined by an ICC profile from its array.
    fn read_icc_based(arr: Vec<Primitive>, r: &impl Resolve, depth: usize) -> (res: Result<
        ColorSpace,
        PdfError,
    >)
        ensures
            icc_based_of(prims_view(arr@), r, depth as nat) matches Some(expected)
                ==> result_view(res) == expected,
        decreases depth, 4int,
    {
        let profile = match get_index(arr.as_slice(), 1) {
            Ok(s) => s.clone(),
            Err(e) => {
                return Err(e);
            },
        };
        let stream = match Stream::<Dictionary>::from_primitive(profile, r) {
            Ok(stream) => stream,
            Err(e) => {
                return Err(e);
            },
        };
        let (dict, bare) = stream.with_info(());
        match ColorSpace::read_icc_info(dict, r, depth) {
            Ok(info) => {
                let (_, full) = bare.with_info(info);
                Ok(ColorSpace::Icc(Box::new(full)))
            },
            Err(e) => Err(e),
        }
    }
}

} // verus!
