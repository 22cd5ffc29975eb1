//! Reference resolution, and the narrowing of values that may be reached
//! through references.

pub mod color;
pub mod field;
pub mod function;

pub use crate::object::field::{
    at, in_field, int_field_or, integer_from_primitive, integer_of, is_dangling,
    name_from_primitive, name_of, number_from_primitive, number_of, numbers_from_primitive,
    numbers_of, numbers_upto, opt_bytes, opt_field, opt_int_field, opt_numbers, opt_text, opt_view,
    optional, required, string_from_primitive, string_of, take_int_or, take_name, take_number,
    take_number_or, take_numbers, take_opt_int, take_opt_name, take_opt_number, take_opt_numbers,
    take_opt_string, take_unsigned, unsigned_from_primitive, unsigned_of, with_default, wrap_field,
};

use crate::error::{result_view, ErrorView, PdfError};
use crate::primitive::{
    prim_view, prims_view, unexpected, DictView, Dictionary, PdfStream, PlainRef, Primitive,
    PrimitiveView,
};
use vstd::prelude::*;

verus! {

/// How many references in a row are followed before the chain is given up.
pub const MAX_DEPTH: usize = 32;

/// The capability to turn a reference into the value it names.
pub trait Resolve {
    /// What the resolver holds under each reference.
    spec fn lookup(&self, r: PlainRef) -> Result<PrimitiveView, ErrorView>;

    /// Looks a reference up.
    fn resolve(&self, r: PlainRef) -> (res: Result<Primitive, PdfError>)
        ensures
            result_view(res) == self.lookup(r),
    ;
}

/// The resolver for places where no reference may be followed: it fails
/// at once, whatever it is asked.
#[derive(Debug, Clone, Copy)]
pub struct NoResolve;

impl Resolve for NoResolve {
    open spec fn lookup(&self, r: PlainRef) -> Result<PrimitiveView, ErrorView> {
        Err(ErrorView::Reference)
    }

    fn resolve(&self, r: PlainRef) -> (res: Result<Primitive, PdfError>) {
        Err(PdfError::Reference)
    }
}

/// A resolver over objects held in memory: each entry is an object's name
/// and its value, or `None` for an object marked free.
pub struct ObjectTable {
    pub entries: Vec<(PlainRef, Option<Primitive>)>,
}

/// What a table holds under `r`, searching from entry `from` on: the
/// value of the first entry with that name; `FreeObject` where that entry
/// is free, `NullRef` where there is no such entry.
pub open spec fn table_lookup(
    entries: Seq<(PlainRef, Option<Primitive>)>,
    r: PlainRef,
    from: int,
) -> Result<PrimitiveView, ErrorView>
    decreases entries.len() - from,
{
    if from < 0 || from >= entries.len() {
        Err(ErrorView::NullRef { obj_nr: r.id })
    } else if entries[from].0 == r {
        match entries[from].1 {
            Some(p) => Ok(prim_view(p)),
            None => Err(ErrorView::FreeObject { obj_nr: r.id }),
        }
    } else {
        table_lookup(entries, r, from + 1)
    }
}

impl ObjectTable {
    /// A table without objects.
    pub fn new() -> (t: ObjectTable)
        ensures
            t.entries@.len() == 0,
    {
        ObjectTable { entries: Vec::new() }
    }

    /// Adds an object at the end of the table. An earlier entry of the
    /// same name stays the one that is found.
    pub fn add(&mut self, r: PlainRef, value: Option<Primitive>)
        ensures
            final(self).entries@ == old(self).entries@.push((r, value)),
    {
        self.entries.push((r, value));
    }
}

impl Resolve for ObjectTable {
    open spec fn lookup(&self, r: PlainRef) -> Result<PrimitiveView, ErrorView> {
        table_lookup(self.entries@, r, 0)
    }

    fn resolve(&self, r: PlainRef) -> (res: Result<Primitive, PdfError>) {
        let mut i: usize = 0;
        while i < self.entries.len()
            invariant
                i <= self.entries@.len(),
                table_lookup(self.entries@, r, 0) == table_lookup(self.entries@, r, i as int),
            decreases self.entries@.len() - i,
        {
            if self.entries[i].0.id == r.id && self.entries[i].0.gen == r.gen {
                return match &self.entries[i].1 {
                    Some(p) => Ok(p.clone()),
                    None => Err(PdfError::FreeObject { obj_nr: r.id }),
                };
            }
            i += 1;
        }
        Err(PdfError::NullRef { obj_nr: r.id })
    }
}

/// The error for a chain of references longer than `MAX_DEPTH`.
pub open spec fn too_deep() -> ErrorView {
    ErrorView::Other { msg: "too many nested references"@ }
}

/// The error for a chain of references longer than `MAX_DEPTH`.
pub fn too_deep_error() -> (e: PdfError)
    ensures
        e@ == too_deep(),
{
    PdfError::Other { msg: "too many nested references".to_string() }
}

/// The value at the end of a chain of references: `p` itself unless it is
/// a reference, else what the value it names leads to. At most `fuel`
/// references are followed.
pub open spec fn chase<R: Resolve>(p: PrimitiveView, r: &R, fuel: nat) -> Result<
    PrimitiveView,
    ErrorView,
>
    decreases fuel,
{
    match p {
        PrimitiveView::Reference(id) => {
            if fuel == 0 {
                Err(too_deep())
            } else {
                match r.lookup(id) {
                    Ok(q) => chase(q, r, (fuel - 1) as nat),
                    Err(e) => Err(e),
                }
            }
        },
        _ => Ok(p),
    }
}

/// The end of a chain is no reference.
pub proof fn lemma_chase_end<R: Resolve>(p: PrimitiveView, r: &R, fuel: nat)
    ensures
        chase(p, r, fuel) matches Ok(q) ==> !(q is Reference),
        !(p is Reference) ==> chase(p, r, fuel) == Ok::<PrimitiveView, ErrorView>(p),
    decreases fuel,
{
    match p {
        PrimitiveView::Reference(id) => {
            if fuel > 0 {
                match r.lookup(id) {
                    Ok(q) => lemma_chase_end(q, r, (fuel - 1) as nat),
                    Err(_) => {},
                }
            }
        },
        _ => {},
    }
}

/// The array at the end of the chain that starts at `p`.
pub open spec fn array_of<R: Resolve>(p: PrimitiveView, r: &R) -> Result<
    Seq<PrimitiveView>,
    ErrorView,
> {
    match chase(p, r, MAX_DEPTH as nat) {
        Ok(PrimitiveView::Array(items)) => Ok(items),
        Ok(q) => Err(unexpected("Array"@, q)),
        Err(e) => Err(e),
    }
}

/// The dictionary at the end of the chain that starts at `p`.
pub open spec fn dictionary_of<R: Resolve>(p: PrimitiveView, r: &R) -> Result<
    DictView,
    ErrorView,
> {
    match chase(p, r, MAX_DEPTH as nat) {
        Ok(PrimitiveView::Dictionary(d)) => Ok(d),
        Ok(q) => Err(unexpected("Dictionary"@, q)),
        Err(e) => Err(e),
    }
}

/// The stream at the end of the chain that starts at `p`: its dictionary
/// and its stored bytes.
pub open spec fn stream_of<R: Resolve>(p: PrimitiveView, r: &R) -> Result<
    (DictView, Seq<u8>),
    ErrorView,
> {
    match chase(p, r, MAX_DEPTH as nat) {
        Ok(PrimitiveView::Stream { info, data }) => Ok((info, data)),
        Ok(q) => Err(unexpected("Stream"@, q)),
        Err(e) => Err(e),
    }
}

impl Primitive {
    /// Follows references until a value is reached that is none. Fails as
    /// the resolver does, and where more than `MAX_DEPTH` references
    /// follow one another.
    pub fn resolved(self, r: &impl Resolve) -> (res: Result<Primitive, PdfError>)
        ensures
            result_view(res) == chase(self@, r, MAX_DEPTH as nat),
    {
        let mut current = self;
        let mut fuel: usize = MAX_DEPTH;
        loop
            invariant
                fuel <= MAX_DEPTH,
                chase(self@, r, MAX_DEPTH as nat) == chase(current@, r, fuel as nat),
            decreases fuel,
        {
            match current {
                Primitive::Reference(id) => {
                    if fuel == 0 {
                        return Err(too_deep_error());
                    }
                    match r.resolve(id) {
                        Ok(next) => {
                            current = next;
                            fuel = fuel - 1;
                        },
                        Err(e) => {
                            return Err(e);
                        },
                    }
                },
                other => {
                    return Ok(other);
                },
            }
        }
    }

    /// The array that the value is or refers to.
    pub fn into_array(self, r: &impl Resolve) -> (res: Result<Vec<Primitive>, PdfError>)
        ensures
            match res {
                Ok(items) => array_of(self@, r) == Ok::<Seq<PrimitiveView>, ErrorView>(
                    prims_view(items@),
                ),
                Err(e) => array_of(self@, r) == Err::<Seq<PrimitiveView>, ErrorView>(e@),
            },
    {
        match self.resolved(r) {
            Ok(Primitive::Array(items)) => Ok(items),
            Ok(p) => Err(
                PdfError::UnexpectedPrimitive { expected: "Array", found: p.get_debug_name() },
            ),
            Err(e) => Err(e),
        }
    }

    /// The dictionary that the value is or refers to.
    pub fn into_dictionary(self, r: &impl Resolve) -> (res: Result<Dictionary, PdfError>)
        ensures
            result_view(res) == dictionary_of(self@, r),
    {
        match self.resolved(r) {
            Ok(Primitive::Dictionary(d)) => Ok(d),
            Ok(p) => Err(
                PdfError::UnexpectedPrimitive { expected: "Dictionary", found: p.get_debug_name() },
            ),
            Err(e) => Err(e),
        }
    }

    /// The dictionary that the value is or refers to.
    pub fn to_dictionary(self, r: &impl Resolve) -> (res: Result<Dictionary, PdfError>)
        ensures
            result_view(res) == dictionary_of(self@, r),
    {
        self.into_dictionary(r)
    }

    /// The stream that the value is or refers to.
    pub fn into_stream(self, r: &impl Resolve) -> (res: Result<PdfStream, PdfError>)
        ensures
            match res {
                Ok(s) => stream_of(self@, r) == Ok::<(DictView, Seq<u8>), ErrorView>(
                    (s.info@, s.data@),
                ),
                Err(e) => stream_of(self@, r) == Err::<(DictView, Seq<u8>), ErrorView>(e@),
            },
    {
        match self.resolved(r) {
            Ok(Primitive::Stream(s)) => Ok(s),
            Ok(p) => Err(
                PdfError::UnexpectedPrimitive { expected: "Stream", found: p.get_debug_name() },
            ),
            Err(e) => Err(e),
        }
    }
}

} // verus!
