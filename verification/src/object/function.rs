//! Functions, as far as a colour space carries one: the kind of function
//! and what defines it.

use crate::error::{result_view, ErrorView, PdfError};
use crate::object::{at, chase, required, take_unsigned, unsigned_of, Resolve, MAX_DEPTH};
use crate::primitive::{
    dict_get, dict_remove, unexpected, DictView, Dictionary, Primitive, PrimitiveView,
};
use vstd::prelude::*;

verus! {

/// A function object: its type number, the rest of its dictionary, and
/// the stored bytes where it is a stream.
#[derive(Debug)]
pub struct Function {
    pub function_type: u32,
    pub info: Dictionary,
    pub data: Vec<u8>,
}

/// Mathematical view of a [`Function`].
pub ghost struct FunctionView {
    pub function_type: u32,
    pub info: DictView,
    pub data: Seq<u8>,
}

impl View for Function {
    type V = FunctionView;

    open spec fn view(&self) -> FunctionView {
        FunctionView { function_type: self.function_type, info: self.info@, data: self.data@ }
    }
}

/// The function that a dictionary and stored bytes define. The key
/// `FunctionType` has to be there.
pub open spec fn function_from<R: Resolve>(d: DictView, data: Seq<u8>, r: &R) -> Result<
    FunctionView,
    ErrorView,
> {
    match required(
        dict_get(d, "FunctionType"@),
        "Function"@,
        "FunctionType"@,
        unsigned_of(at(d, "FunctionType"@), r),
    ) {
        Err(e) => Err(e),
        Ok(function_type) => Ok(
            FunctionView { function_type, info: dict_remove(d, "FunctionType"@), data },
        ),
    }
}

/// The function that a value is or refers to: a dictionary, or a stream.
pub open spec fn function_of<R: Resolve>(p: PrimitiveView, r: &R) -> Result<
    FunctionView,
    ErrorView,
> {
    match chase(p, r, MAX_DEPTH as nat) {
        Err(e) => Err(e),
        Ok(PrimitiveView::Dictionary(d)) => function_from(d, Seq::empty(), r),
        Ok(PrimitiveView::Stream { info, data }) => function_from(info, data, r),
        Ok(q) => Err(unexpected("Dictionary or Stream"@, q)),
    }
}

impl Function {
    /// Reads a function from the value that is or refers to it.
    pub fn from_primitive(p: Primitive, r: &impl Resolve) -> (res: Result<Function, PdfError>)
        ensures
            result_view(res) == function_of(p@, r),
    {
        let (mut info, data) = match p.resolved(r) {
            Err(e) => {
                return Err(e);
            },
            Ok(Primitive::Dictionary(d)) => (d, Vec::new()),
            Ok(Primitive::Stream(s)) => (s.info, s.data),
            Ok(q) => {
                return Err(
                    PdfError::UnexpectedPrimitive {
                        expected: "Dictionary or Stream",
                        found: q.get_debug_name(),
                    },
                );
            },
        };
        match take_unsigned(&mut info, "Function", "FunctionType", r) {
            Ok(function_type) => Ok(Function { function_type, info, data }),
            Err(e) => Err(e),
        }
    }
}

} // verus!
