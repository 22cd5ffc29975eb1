//! Typed values read from untyped ones, and the fields of records: what
//! a field gives where its key is absent, and how a failure names the
//! field.

use crate::error::{ErrorView, PdfError};
use crate::object::{chase, lemma_chase_end, Resolve, MAX_DEPTH};
use crate::primitive::{
    dict_get, dict_remove, prims_view, unexpected, DictView, Dictionary, Number, PdfString,
    Primitive, PrimitiveView,
};
use vstd::prelude::*;

verus! {

/// A failure inside field `field` of a `typ` record.
pub open spec fn in_field(typ: Seq<char>, field: Seq<char>, e: ErrorView) -> ErrorView {
    ErrorView::FromPrimitive { typ, field, source: Box::new(e) }
}

/// The integer at the end of the chain that starts at `p`.
pub open spec fn integer_of<R: Resolve>(p: PrimitiveView, r: &R) -> Result<i32, ErrorView> {
    match chase(p, r, MAX_DEPTH as nat) {
        Ok(PrimitiveView::Integer(n)) => Ok(n),
        Ok(q) => Err(unexpected("Integer"@, q)),
        Err(e) => Err(e),
    }
}

/// The number at the end of the chain that starts at `p`.
pub open spec fn number_of<R: Resolve>(p: PrimitiveView, r: &R) -> Result<Number, ErrorView> {
    match chase(p, r, MAX_DEPTH as nat) {
        Ok(PrimitiveView::Integer(n)) => Ok(Number::Integer(n)),
        Ok(PrimitiveView::Number(x)) => Ok(Number::Real(x)),
        Ok(q) => Err(unexpected("Number"@, q)),
        Err(e) => Err(e),
    }
}

/// The name at the end of the chain that starts at `p`.
pub open spec fn name_of<R: Resolve>(p: PrimitiveView, r: &R) -> Result<Seq<char>, ErrorView> {
    match chase(p, r, MAX_DEPTH as nat) {
        Ok(PrimitiveView::Name(s)) => Ok(s),
        Ok(q) => Err(unexpected("Name"@, q)),
        Err(e) => Err(e),
    }
}

/// The string at the end of the chain that starts at `p`.
pub open spec fn string_of<R: Resolve>(p: PrimitiveView, r: &R) -> Result<Seq<u8>, ErrorView> {
    match chase(p, r, MAX_DEPTH as nat) {
        Ok(PrimitiveView::String(s)) => Ok(s),
        Ok(q) => Err(unexpected("String"@, q)),
        Err(e) => Err(e),
    }
}

/// An optional value: none where the value is null or names an object
/// that is missing or free; else what `inner` makes of it.
pub open spec fn optional<T>(p: PrimitiveView, inner: Result<T, ErrorView>) -> Result<
    Option<T>,
    ErrorView,
> {
    if p is Null {
        Ok(None)
    } else {
        match inner {
            Ok(v) => Ok(Some(v)),
            Err(ErrorView::NullRef { .. }) => Ok(None),
            Err(ErrorView::FreeObject { .. }) => Ok(None),
            Err(e) => Err(e),
        }
    }
}

/// Reads an integer, through references if need be.
pub fn integer_from_primitive(p: Primitive, r: &impl Resolve) -> (res: Result<i32, PdfError>)
    ensures
        match res {
            Ok(n) => integer_of(p@, r) == Ok::<i32, ErrorView>(n),
            Err(e) => integer_of(p@, r) == Err::<i32, ErrorView>(e@),
        },
{
    match p.resolved(r) {
        Ok(q) => q.as_integer(),
        Err(e) => Err(e),
    }
}

/// Reads a number, through references if need be.
pub fn number_from_primitive(p: Primitive, r: &impl Resolve) -> (res: Result<Number, PdfError>)
    ensures
        match res {
            Ok(x) => number_of(p@, r) == Ok::<Number, ErrorView>(x),
            Err(e) => number_of(p@, r) == Err::<Number, ErrorView>(e@),
        },
{
    match p.resolved(r) {
        Ok(q) => q.as_number(),
        Err(e) => Err(e),
    }
}

/// Reads a name, through references if need be.
pub fn name_from_primitive(p: Primitive, r: &impl Resolve) -> (res: Result<String, PdfError>)
    ensures
        match res {
            Ok(s) => name_of(p@, r) == Ok::<Seq<char>, ErrorView>(s@),
            Err(e) => name_of(p@, r) == Err::<Seq<char>, ErrorView>(e@),
        },
{
    match p.resolved(r) {
        Ok(q) => q.into_name(),
        Err(e) => Err(e),
    }
}

/// Reads a string, through references if need be.
pub fn string_from_primitive(p: Primitive, r: &impl Resolve) -> (res: Result<PdfString, PdfError>)
    ensures
        match res {
            Ok(s) => string_of(p@, r) == Ok::<Seq<u8>, ErrorView>(s@),
            Err(e) => string_of(p@, r) == Err::<Seq<u8>, ErrorView>(e@),
        },
{
    match p.resolved(r) {
        Ok(q) => q.into_string(),
        Err(e) => Err(e),
    }
}

/// Whether an error says that a named object is missing or free.
pub fn is_dangling(e: &PdfError) -> (b: bool)
    ensures
        b == (e@ is NullRef || e@ is FreeObject),
{
    match e {
        PdfError::NullRef { .. } => true,
        PdfError::FreeObject { .. } => true,
        _ => false,
    }
}

/// Puts a field's failure into the error that names the field.
pub fn wrap_field(typ: &'static str, field: &'static str, e: PdfError) -> (w: PdfError)
    ensures
        w@ == in_field(typ@, field@, e@),
{
    PdfError::FromPrimitive { typ, field, source: Box::new(e) }
}

/// An integer field with a default: the default where the key is absent,
/// else the integer under it; a failure to read it names the field.
pub open spec fn int_field_or<R: Resolve>(
    d: DictView,
    typ: Seq<char>,
    key: Seq<char>,
    default: i32,
    r: &R,
) -> Result<i32, ErrorView> {
    match dict_get(d, key) {
        None => Ok(default),
        Some(p) => match integer_of(p, r) {
            Ok(n) => Ok(n),
            Err(e) => Err(in_field(typ, key, e)),
        },
    }
}

/// An optional integer field: none where the key is absent or holds
/// nothing; a failure to read it names the field.
pub open spec fn opt_int_field<R: Resolve>(
    d: DictView,
    typ: Seq<char>,
    key: Seq<char>,
    r: &R,
) -> Result<Option<i32>, ErrorView> {
    match dict_get(d, key) {
        None => Ok(None),
        Some(p) => match optional(p, integer_of(p, r)) {
            Ok(v) => Ok(v),
            Err(e) => Err(in_field(typ, key, e)),
        },
    }
}

/// Takes an integer field with a default out of `dict`.
pub fn take_int_or(
    dict: &mut Dictionary,
    typ: &'static str,
    key: &'static str,
    default: i32,
    r: &impl Resolve,
) -> (res: Result<i32, PdfError>)
    ensures
        final(dict)@ == dict_remove(old(dict)@, key@),
        match res {
            Ok(n) => int_field_or(old(dict)@, typ@, key@, default, r) == Ok::<i32, ErrorView>(n),
            Err(e) => int_field_or(old(dict)@, typ@, key@, default, r) == Err::<i32, ErrorView>(
                e@,
            ),
        },
{
    match dict.remove(key) {
        None => Ok(default),
        Some(p) => match integer_from_primitive(p, r) {
            Ok(n) => Ok(n),
            Err(e) => Err(wrap_field(typ, key, e)),
        },
    }
}

/// Takes an optional integer field out of `dict`.
pub fn take_opt_int(
    dict: &mut Dictionary,
    typ: &'static str,
    key: &'static str,
    r: &impl Resolve,
) -> (res: Result<Option<i32>, PdfError>)
    ensures
        final(dict)@ == dict_remove(old(dict)@, key@),
        match res {
            Ok(v) => opt_int_field(old(dict)@, typ@, key@, r) == Ok::<Option<i32>, ErrorView>(v),
            Err(e) => opt_int_field(old(dict)@, typ@, key@, r) == Err::<Option<i32>, ErrorView>(
                e@,
            ),
        },
{
    match dict.remove(key) {
        None => Ok(None),
        Some(Primitive::Null) => Ok(None),
        Some(p) => match integer_from_primitive(p, r) {
            Ok(n) => Ok(Some(n)),
            Err(e) => {
                if is_dangling(&e) {
                    Ok(None)
                } else {
                    Err(wrap_field(typ, key, e))
                }
            },
        },
    }
}


/// The view of a value that may be absent.
pub open spec fn opt_view(p: Option<Primitive>) -> Option<PrimitiveView> {
    match p {
        Some(q) => Some(q@),
        None => None,
    }
}


/// A field that has to be there: `MissingEntry` where the key is absent;
/// else what was read from the value under it, a failure naming the
/// field.
pub open spec fn required<T>(
    found: Option<PrimitiveView>,
    typ: Seq<char>,
    key: Seq<char>,
    parsed: Result<T, ErrorView>,
) -> Result<T, ErrorView> {
    match found {
        None => Err(ErrorView::MissingEntry { typ, field: key }),
        Some(_) => match parsed {
            Ok(v) => Ok(v),
            Err(e) => Err(in_field(typ, key, e)),
        },
    }
}

/// A field with a default: the default where the key is absent; else
/// what was read from the value under it, a failure naming the field.
pub open spec fn with_default<T>(
    found: Option<PrimitiveView>,
    typ: Seq<char>,
    key: Seq<char>,
    default: T,
    parsed: Result<T, ErrorView>,
) -> Result<T, ErrorView> {
    match found {
        None => Ok(default),
        Some(_) => match parsed {
            Ok(v) => Ok(v),
            Err(e) => Err(in_field(typ, key, e)),
        },
    }
}

/// A field that may be missing: none where the key is absent, holds
/// nothing, or names an object that is missing or free; else what was
/// read from the value under it, a failure naming the field.
pub open spec fn opt_field<T>(
    found: Option<PrimitiveView>,
    typ: Seq<char>,
    key: Seq<char>,
    parsed: Result<T, ErrorView>,
) -> Result<Option<T>, ErrorView> {
    match found {
        None => Ok(None),
        Some(p) => match optional(p, parsed) {
            Ok(v) => Ok(v),
            Err(e) => Err(in_field(typ, key, e)),
        },
    }
}

/// The value under `key`, whatever it is; arbitrary where there is none.
pub open spec fn at(d: DictView, key: Seq<char>) -> PrimitiveView {
    match dict_get(d, key) {
        Some(p) => p,
        None => PrimitiveView::Null,
    }
}

/// The unsigned number at the end of the chain that starts at `p`: an
/// integer that is not negative.
pub open spec fn unsigned_of<R: Resolve>(p: PrimitiveView, r: &R) -> Result<u32, ErrorView> {
    match integer_of(p, r) {
        Ok(n) => {
            if n >= 0 {
                Ok(n as u32)
            } else {
                Err(ErrorView::Other { msg: "negative integer"@ })
            }
        },
        Err(e) => Err(e),
    }
}

/// Reads an unsigned number, through references if need be.
pub fn unsigned_from_primitive(p: Primitive, r: &impl Resolve) -> (res: Result<u32, PdfError>)
    ensures
        match res {
            Ok(n) => unsigned_of(p@, r) == Ok::<u32, ErrorView>(n),
            Err(e) => unsigned_of(p@, r) == Err::<u32, ErrorView>(e@),
        },
{
    match integer_from_primitive(p, r) {
        Ok(n) => {
            if n >= 0 {
                Ok(n as u32)
            } else {
                Err(PdfError::Other { msg: "negative integer".to_string() })
            }
        },
        Err(e) => Err(e),
    }
}

/// The first `n` of a list of numbers.
pub open spec fn numbers_upto<R: Resolve>(items: Seq<PrimitiveView>, r: &R, n: int) -> Result<
    Seq<Number>,
    ErrorView,
>
    decreases n,
{
    if n <= 0 {
        Ok(Seq::empty())
    } else {
        match numbers_upto(items, r, n - 1) {
            Err(e) => Err(e),
            Ok(done) => match number_of(items[n - 1], r) {
                Err(e) => Err(e),
                Ok(x) => Ok(done.push(x)),
            },
        }
    }
}

/// A list of numbers: none where the value is null, those of an array, or
/// the one number that the value is.
pub open spec fn numbers_of<R: Resolve>(p: PrimitiveView, r: &R) -> Result<Seq<Number>, ErrorView> {
    match chase(p, r, MAX_DEPTH as nat) {
        Err(e) => Err(e),
        Ok(PrimitiveView::Null) => Ok(Seq::empty()),
        Ok(PrimitiveView::Array(items)) => numbers_upto(items, r, items.len() as int),
        Ok(q) => match number_of(q, r) {
            Err(e) => Err(e),
            Ok(x) => Ok(seq![x]),
        },
    }
}

/// Once the first `n` fail, so do the first `m`, for any `m` from `n` on.
proof fn lemma_numbers_fail<R: Resolve>(items: Seq<PrimitiveView>, r: &R, n: int, m: int)
    requires
        0 <= n <= m,
        numbers_upto(items, r, n) is Err,
    ensures
        numbers_upto(items, r, m) == numbers_upto(items, r, n),
    decreases m - n,
{
    if n < m {
        lemma_numbers_fail(items, r, n, m - 1);
    }
}

/// Reads a list of numbers.
#[verifier::loop_isolation(false)]
pub fn numbers_from_primitive(p: Primitive, r: &impl Resolve) -> (res: Result<
    Vec<Number>,
    PdfError,
>)
    ensures
        match res {
            Ok(v) => numbers_of(p@, r) == Ok::<Seq<Number>, ErrorView>(v@),
            Err(e) => numbers_of(p@, r) == Err::<Seq<Number>, ErrorView>(e@),
        },
{
    let q = match p.resolved(r) {
        Ok(q) => q,
        Err(e) => {
            return Err(e);
        },
    };
    proof {
        lemma_chase_end(p@, r, MAX_DEPTH as nat);
        lemma_chase_end(q@, r, MAX_DEPTH as nat);
    }
    match q {
        Primitive::Null => Ok(Vec::new()),
        Primitive::Array(items) => {
            let ghost views = prims_view(items@);
            let mut out: Vec<Number> = Vec::new();
            let n = items.len();
            let mut i: usize = 0;
            while i < n
                invariant
                    i <= n,
                    n == items@.len(),
                    numbers_upto(views, r, i as int) == Ok::<Seq<Number>, ErrorView>(out@),
                decreases n - i,
            {
                let item = items[i].clone();
                match number_from_primitive(item, r) {
                    Ok(x) => {
                        out.push(x);
                    },
                    Err(e) => {
                        proof {
                            assert(numbers_upto(views, r, i + 1) is Err);
                            lemma_numbers_fail(views, r, i + 1, n as int);
                        }
                        return Err(e);
                    },
                }
                i += 1;
            }
            Ok(out)
        },
        other => match number_from_primitive(other, r) {
            Ok(x) => {
                let mut out: Vec<Number> = Vec::new();
                out.push(x);
                Ok(out)
            },
            Err(e) => Err(e),
        },
    }
}

/// Takes a number field that has to be there out of `dict`.
pub fn take_number(
    dict: &mut Dictionary,
    typ: &'static str,
    key: &'static str,
    r: &impl Resolve,
) -> (res: Result<Number, PdfError>)
    ensures
        final(dict)@ == dict_remove(old(dict)@, key@),
        match res {
            Ok(x) => required(
                dict_get(old(dict)@, key@),
                typ@,
                key@,
                number_of(at(old(dict)@, key@), r),
            ) == Ok::<Number, ErrorView>(x),
            Err(e) => required(
                dict_get(old(dict)@, key@),
                typ@,
                key@,
                number_of(at(old(dict)@, key@), r),
            ) == Err::<Number, ErrorView>(e@),
        },
{
    match dict.remove(key) {
        None => Err(PdfError::MissingEntry { typ, field: key.to_owned() }),
        Some(p) => match number_from_primitive(p, r) {
            Ok(x) => Ok(x),
            Err(e) => Err(wrap_field(typ, key, e)),
        },
    }
}

/// Takes a number field with a default out of `dict`.
pub fn take_number_or(
    dict: &mut Dictionary,
    typ: &'static str,
    key: &'static str,
    default: Number,
    r: &impl Resolve,
) -> (res: Result<Number, PdfError>)
    ensures
        final(dict)@ == dict_remove(old(dict)@, key@),
        match res {
            Ok(x) => with_default(
                dict_get(old(dict)@, key@),
                typ@,
                key@,
                default,
                number_of(at(old(dict)@, key@), r),
            ) == Ok::<Number, ErrorView>(x),
            Err(e) => with_default(
                dict_get(old(dict)@, key@),
                typ@,
                key@,
                default,
                number_of(at(old(dict)@, key@), r),
            ) == Err::<Number, ErrorView>(e@),
        },
{
    match dict.remove(key) {
        None => Ok(default),
        Some(p) => match number_from_primitive(p, r) {
            Ok(x) => Ok(x),
            Err(e) => Err(wrap_field(typ, key, e)),
        },
    }
}

/// Takes a number field that may be missing out of `dict`.
pub fn take_opt_number(
    dict: &mut Dictionary,
    typ: &'static str,
    key: &'static str,
    r: &impl Resolve,
) -> (res: Result<Option<Number>, PdfError>)
    ensures
        final(dict)@ == dict_remove(old(dict)@, key@),
        match res {
            Ok(x) => opt_field(
                dict_get(old(dict)@, key@),
                typ@,
                key@,
                number_of(at(old(dict)@, key@), r),
            ) == Ok::<Option<Number>, ErrorView>(x),
            Err(e) => opt_field(
                dict_get(old(dict)@, key@),
                typ@,
                key@,
                number_of(at(old(dict)@, key@), r),
            ) == Err::<Option<Number>, ErrorView>(e@),
        },
{
    match dict.remove(key) {
        None => Ok(None),
        Some(Primitive::Null) => Ok(None),
        Some(p) => match number_from_primitive(p, r) {
            Ok(x) => Ok(Some(x)),
            Err(e) => {
                if is_dangling(&e) {
                    Ok(None)
                } else {
                    Err(wrap_field(typ, key, e))
                }
            },
        },
    }
}

/// Takes an unsigned field that has to be there out of `dict`.
pub fn take_unsigned(
    dict: &mut Dictionary,
    typ: &'static str,
    key: &'static str,
    r: &impl Resolve,
) -> (res: Result<u32, PdfError>)
    ensures
        final(dict)@ == dict_remove(old(dict)@, key@),
        match res {
            Ok(x) => required(
                dict_get(old(dict)@, key@),
                typ@,
                key@,
                unsigned_of(at(old(dict)@, key@), r),
            ) == Ok::<u32, ErrorView>(x),
            Err(e) => required(
                dict_get(old(dict)@, key@),
                typ@,
                key@,
                unsigned_of(at(old(dict)@, key@), r),
            ) == Err::<u32, ErrorView>(e@),
        },
{
    match dict.remove(key) {
        None => Err(PdfError::MissingEntry { typ, field: key.to_owned() }),
        Some(p) => match unsigned_from_primitive(p, r) {
            Ok(x) => Ok(x),
            Err(e) => Err(wrap_field(typ, key, e)),
        },
    }
}

/// Takes a name field that has to be there out of `dict`.
pub fn take_name(
    dict: &mut Dictionary,
    typ: &'static str,
    key: &'static str,
    r: &impl Resolve,
) -> (res: Result<String, PdfError>)
    ensures
        final(dict)@ == dict_remove(old(dict)@, key@),
        match res {
            Ok(x) => required(
                dict_get(old(dict)@, key@),
                typ@,
                key@,
                name_of(at(old(dict)@, key@), r),
            ) == Ok::<Seq<char>, ErrorView>(x@),
            Err(e) => required(
                dict_get(old(dict)@, key@),
                typ@,
                key@,
                name_of(at(old(dict)@, key@), r),
            ) == Err::<Seq<char>, ErrorView>(e@),
        },
{
    match dict.remove(key) {
        None => Err(PdfError::MissingEntry { typ, field: key.to_owned() }),
        Some(p) => match name_from_primitive(p, r) {
            Ok(x) => Ok(x),
            Err(e) => Err(wrap_field(typ, key, e)),
        },
    }
}

/// The view of a name that may be absent.
pub open spec fn opt_text(s: Option<String>) -> Option<Seq<char>> {
    match s {
        Some(t) => Some(t@),
        None => None,
    }
}

/// The view of a string that may be absent.
pub open spec fn opt_bytes(s: Option<PdfString>) -> Option<Seq<u8>> {
    match s {
        Some(t) => Some(t@),
        None => None,
    }
}

/// Takes a name field that may be missing out of `dict`.
pub fn take_opt_name(
    dict: &mut Dictionary,
    typ: &'static str,
    key: &'static str,
    r: &impl Resolve,
) -> (res: Result<Option<String>, PdfError>)
    ensures
        final(dict)@ == dict_remove(old(dict)@, key@),
        match res {
            Ok(x) => opt_field(
                dict_get(old(dict)@, key@),
                typ@,
                key@,
                name_of(at(old(dict)@, key@), r),
            ) == Ok::<Option<Seq<char>>, ErrorView>(opt_text(x)),
            Err(e) => opt_field(
                dict_get(old(dict)@, key@),
                typ@,
                key@,
                name_of(at(old(dict)@, key@), r),
            ) == Err::<Option<Seq<char>>, ErrorView>(e@),
        },
{
    match dict.remove(key) {
        None => Ok(None),
        Some(Primitive::Null) => Ok(None),
        Some(p) => match name_from_primitive(p, r) {
            Ok(x) => Ok(Some(x)),
            Err(e) => {
                if is_dangling(&e) {
                    Ok(None)
                } else {
                    Err(wrap_field(typ, key, e))
                }
            },
        },
    }
}

/// Takes a string field that may be missing out of `dict`.
pub fn take_opt_string(
    dict: &mut Dictionary,
    typ: &'static str,
    key: &'static str,
    r: &impl Resolve,
) -> (res: Result<Option<PdfString>, PdfError>)
    ensures
        final(dict)@ == dict_remove(old(dict)@, key@),
        match res {
            Ok(x) => opt_field(
                dict_get(old(dict)@, key@),
                typ@,
                key@,
                string_of(at(old(dict)@, key@), r),
            ) == Ok::<Option<Seq<u8>>, ErrorView>(opt_bytes(x)),
            Err(e) => opt_field(
                dict_get(old(dict)@, key@),
                typ@,
                key@,
                string_of(at(old(dict)@, key@), r),
            ) == Err::<Option<Seq<u8>>, ErrorView>(e@),
        },
{
    match dict.remove(key) {
        None => Ok(None),
        Some(Primitive::Null) => Ok(None),
        Some(p) => match string_from_primitive(p, r) {
            Ok(x) => Ok(Some(x)),
            Err(e) => {
                if is_dangling(&e) {
                    Ok(None)
                } else {
                    Err(wrap_field(typ, key, e))
                }
            },
        },
    }
}


/// The view of a list of numbers that may be absent.
pub open spec fn opt_numbers(v: Option<Vec<Number>>) -> Option<Seq<Number>> {
    match v {
        Some(x) => Some(x@),
        None => None,
    }
}

/// Takes a list of numbers that may be missing out of `dict`.
pub fn take_opt_numbers(
    dict: &mut Dictionary,
    typ: &'static str,
    key: &'static str,
    r: &impl Resolve,
) -> (res: Result<Option<Vec<Number>>, PdfError>)
    ensures
        final(dict)@ == dict_remove(old(dict)@, key@),
        match res {
            Ok(x) => opt_field(
                dict_get(old(dict)@, key@),
                typ@,
                key@,
                numbers_of(at(old(dict)@, key@), r),
            ) == Ok::<Option<Seq<Number>>, ErrorView>(opt_numbers(x)),
            Err(e) => opt_field(
                dict_get(old(dict)@, key@),
                typ@,
                key@,
                numbers_of(at(old(dict)@, key@), r),
            ) == Err::<Option<Seq<Number>>, ErrorView>(e@),
        },
{
    match dict.remove(key) {
        None => Ok(None),
        Some(Primitive::Null) => Ok(None),
        Some(p) => match numbers_from_primitive(p, r) {
            Ok(x) => Ok(Some(x)),
            Err(e) => {
                if is_dangling(&e) {
                    Ok(None)
                } else {
                    Err(wrap_field(typ, key, e))
                }
            },
        },
    }
}

/// Takes a list of numbers out of `dict`: the empty list where the key is
/// absent.
pub fn take_numbers(
    dict: &mut Dictionary,
    typ: &'static str,
    key: &'static str,
    r: &impl Resolve,
) -> (res: Result<Vec<Number>, PdfError>)
    ensures
        final(dict)@ == dict_remove(old(dict)@, key@),
        match res {
            Ok(x) => with_default(
                dict_get(old(dict)@, key@),
                typ@,
                key@,
                Seq::<Number>::empty(),
                numbers_of(at(old(dict)@, key@), r),
            ) == Ok::<Seq<Number>, ErrorView>(x@),
            Err(e) => with_default(
                dict_get(old(dict)@, key@),
                typ@,
                key@,
                Seq::<Number>::empty(),
                numbers_of(at(old(dict)@, key@), r),
            ) == Err::<Seq<Number>, ErrorView>(e@),
        },
{
    match dict.remove(key) {
        None => Ok(Vec::new()),
        Some(p) => match numbers_from_primitive(p, r) {
            Ok(x) => Ok(x),
            Err(e) => Err(wrap_field(typ, key, e)),
        },
    }
}

} // verus!
