//! The untyped values that all parsed data reduces to.

use crate::error::{result_view, ErrorView, PdfError};
use crate::text::str_eq;
use vstd::prelude::*;

verus! {

/// Number of an indirect object.
pub type ObjNr = u64;

/// Generation of an indirect object.
pub type GenNr = u16;

/// The name of another object: its number and generation. It stands for
/// that object without holding anything of it.
#[derive(Debug, Clone, Copy, PartialEq, Eq, Structural)]
pub struct PlainRef {
    pub id: ObjNr,
    pub gen: GenNr,
}

/// A real number, held as the bit pattern of its IEEE 754 single-precision
/// form. The library stores and hands on such numbers and never computes
/// with them.
#[derive(Debug, Clone, Copy, PartialEq, Eq, Structural)]
pub struct Real {
    pub bits: u32,
}

/// A numeric value: an integer or a real.
#[derive(Debug, Clone, Copy, PartialEq, Eq, Structural)]
pub enum Number {
    Integer(i32),
    Real(Real),
}

/// The real number zero.
pub open spec fn zero() -> Number {
    Number::Real(Real { bits: 0 })
}

/// A string object: raw bytes, escapes already resolved.
#[derive(Debug)]
pub struct PdfString {
    pub data: Vec<u8>,
}

/// A stream as parsed: its dictionary and its stored bytes.
#[derive(Debug)]
pub struct PdfStream {
    pub info: Dictionary,
    pub data: Vec<u8>,
}

/// A mapping from names to values. Keys are unique; entries keep the
/// order in which their keys were first inserted.
#[derive(Debug)]
pub struct Dictionary {
    dict: Vec<(String, Primitive)>,
}

/// An untyped value.
#[derive(Debug)]
pub enum Primitive {
    Null,
    Integer(i32),
    Number(Real),
    Boolean(bool),
    String(PdfString),
    Stream(PdfStream),
    Dictionary(Dictionary),
    Array(Vec<Primitive>),
    Reference(PlainRef),
    Name(String),
}

/// Mathematical view of a dictionary: its entries in order.
pub type DictView = Seq<(Seq<char>, PrimitiveView)>;

/// Mathematical view of a [`Primitive`].
pub ghost enum PrimitiveView {
    Null,
    Integer(i32),
    Number(Real),
    Boolean(bool),
    String(Seq<u8>),
    Stream { info: DictView, data: Seq<u8> },
    Dictionary(DictView),
    Array(Seq<PrimitiveView>),
    Reference(PlainRef),
    Name(Seq<char>),
}

/// The view of a value, by recursion on what it holds.
pub open spec fn prim_view(p: Primitive) -> PrimitiveView
    decreases p, 1int,
{
    match p {
        Primitive::Null => PrimitiveView::Null,
        Primitive::Integer(i) => PrimitiveView::Integer(i),
        Primitive::Number(x) => PrimitiveView::Number(x),
        Primitive::Boolean(b) => PrimitiveView::Boolean(b),
        Primitive::String(s) => PrimitiveView::String(s.data@),
        Primitive::Stream(s) => PrimitiveView::Stream { info: dict_view(s.info), data: s.data@ },
        Primitive::Dictionary(d) => PrimitiveView::Dictionary(dict_view(d)),
        Primitive::Array(v) => PrimitiveView::Array(prims_view(v@)),
        Primitive::Reference(r) => PrimitiveView::Reference(r),
        Primitive::Name(s) => PrimitiveView::Name(s@),
    }
}

/// The views of a sequence of values.
pub open spec fn prims_view(v: Seq<Primitive>) -> Seq<PrimitiveView>
    decreases v, 0int,
{
    Seq::new(
        v.len(),
        |i: int|
            if 0 <= i < v.len() {
                prim_view(v[i])
            } else {
                PrimitiveView::Null
            },
    )
}

/// The view of a dictionary: its entries in order, each key with the view
/// of its value.
pub closed spec fn dict_view(d: Dictionary) -> DictView
    decreases d, 1int,
{
    entries_view(d.dict@)
}

/// The views of a sequence of entries.
pub open spec fn entries_view(v: Seq<(String, Primitive)>) -> DictView
    decreases v, 0int,
{
    Seq::new(
        v.len(),
        |i: int|
            if 0 <= i < v.len() {
                (v[i].0@, prim_view(v[i].1))
            } else {
                (Seq::empty(), PrimitiveView::Null)
            },
    )
}

impl View for Primitive {
    type V = PrimitiveView;

    open spec fn view(&self) -> PrimitiveView {
        prim_view(*self)
    }
}

impl View for Dictionary {
    type V = DictView;

    open spec fn view(&self) -> DictView {
        dict_view(*self)
    }
}

impl View for PdfString {
    type V = Seq<u8>;

    open spec fn view(&self) -> Seq<u8> {
        self.data@
    }
}

/// Index of the first entry at or after `from` whose key is `key`.
pub open spec fn dict_index_from(d: DictView, key: Seq<char>, from: int) -> Option<int>
    decreases d.len() - from,
{
    if from < 0 || from >= d.len() {
        None
    } else if d[from].0 == key {
        Some(from)
    } else {
        dict_index_from(d, key, from + 1)
    }
}

/// Index of the entry whose key is `key`.
pub open spec fn dict_index(d: DictView, key: Seq<char>) -> Option<int> {
    dict_index_from(d, key, 0)
}

/// The value under `key`.
pub open spec fn dict_get(d: DictView, key: Seq<char>) -> Option<PrimitiveView> {
    match dict_index(d, key) {
        Some(i) => Some(d[i].1),
        None => None,
    }
}

/// The dictionary without the entry for `key`.
pub open spec fn dict_remove(d: DictView, key: Seq<char>) -> DictView {
    match dict_index(d, key) {
        Some(i) => d.remove(i),
        None => d,
    }
}

/// The dictionary with `value` under `key`: in the place of the old value
/// where there was one, else at the end.
pub open spec fn dict_insert(d: DictView, key: Seq<char>, value: PrimitiveView) -> DictView {
    match dict_index(d, key) {
        Some(i) => d.update(i, (key, value)),
        None => d.push((key, value)),
    }
}

/// No key occurs twice.
pub open spec fn dict_wf(d: DictView) -> bool {
    forall|i: int, j: int| 0 <= i < j < d.len() ==> d[i].0 != d[j].0
}

/// The search for a key finds its first entry: the index it gives holds
/// the key and no index before it does; it gives none only where no entry
/// holds the key.
pub proof fn lemma_dict_index(d: DictView, key: Seq<char>, from: int)
    requires
        0 <= from,
    ensures
        match dict_index_from(d, key, from) {
            Some(i) => from <= i < d.len() && d[i].0 == key && forall|j: int|
                from <= j < i ==> d[j].0 != key,
            None => forall|j: int| from <= j < d.len() ==> d[j].0 != key,
        },
    decreases d.len() - from,
{
    if from < d.len() && d[from].0 != key {
        lemma_dict_index(d, key, from + 1);
    }
}

/// Where `at` is the first index from `from` on that holds the key, the
/// search gives `at`.
pub proof fn lemma_dict_index_is(d: DictView, key: Seq<char>, from: int, at: int)
    requires
        0 <= from <= at < d.len(),
        d[at].0 == key,
        forall|j: int| from <= j < at ==> d[j].0 != key,
    ensures
        dict_index_from(d, key, from) == Some(at),
    decreases at - from,
{
    if from < at {
        lemma_dict_index_is(d, key, from + 1, at);
    }
}

/// Where no index from `from` on holds the key, the search gives none.
pub proof fn lemma_dict_index_none(d: DictView, key: Seq<char>, from: int)
    requires
        0 <= from,
        forall|j: int| from <= j < d.len() ==> d[j].0 != key,
    ensures
        dict_index_from(d, key, from) is None,
    decreases d.len() - from,
{
    if from < d.len() {
        lemma_dict_index_none(d, key, from + 1);
    }
}

impl Clone for PdfString {
    fn clone(&self) -> (r: Self)
        ensures
            r@ == self@,
    {
        PdfString { data: self.data.clone() }
    }
}

impl PdfString {
    /// A string object that holds `data`.
    pub fn new(data: Vec<u8>) -> (s: PdfString)
        ensures
            s@ == data@,
    {
        PdfString { data }
    }

    /// The bytes of the string.
    pub fn as_bytes(&self) -> (b: &[u8])
        ensures
            b@ == self@,
    {
        self.data.as_slice()
    }

    /// The bytes of the string, the string given up.
    pub fn into_bytes(self) -> (b: Vec<u8>)
        ensures
            b@ == self@,
    {
        self.data
    }
}

impl Dictionary {
    #[verifier::type_invariant]
    spec fn inv(self) -> bool {
        dict_wf(dict_view(self))
    }

    /// The empty dictionary.
    pub fn new() -> (d: Dictionary)
        ensures
            d@ == Seq::<(Seq<char>, PrimitiveView)>::empty(),
    {
        let entries: Vec<(String, Primitive)> = Vec::new();
        assert(entries_view(entries@) =~= Seq::empty());
        Dictionary { dict: entries }
    }

    /// Number of entries. No key occurs twice among them.
    pub fn len(&self) -> (n: usize)
        ensures
            n == self@.len(),
            dict_wf(self@),
    {
        proof {
            use_type_invariant(self);
        }
        self.dict.len()
    }

    /// Position of the entry for `key`.
    fn position(&self, key: &str) -> (at: Option<usize>)
        ensures
            match at {
                Some(i) => dict_index(self@, key@) == Some(i as int) && i < self.dict@.len(),
                None => dict_index(self@, key@) is None,
            },
    {
        let mut i: usize = 0;
        while i < self.dict.len()
            invariant
                i <= self.dict@.len(),
                self@.len() == self.dict@.len(),
                forall|j: int| 0 <= j < i ==> self@[j].0 != key@,
            decreases self.dict@.len() - i,
        {
            if str_eq(self.dict[i].0.as_str(), key) {
                proof {
                    assert(self@[i as int].0 == key@);
                    lemma_dict_index_is(self@, key@, 0, i as int);
                }
                return Some(i);
            }
            assert(self@[i as int].0 != key@);
            i += 1;
        }
        proof {
            lemma_dict_index_none(self@, key@, 0);
        }
        None
    }

    /// The value under `key`.
    pub fn get(&self, key: &str) -> (v: Option<&Primitive>)
        ensures
            match v {
                Some(p) => dict_get(self@, key@) == Some(p@),
                None => dict_get(self@, key@) is None,
            },
    {
        match self.position(key) {
            Some(i) => {
                let p = &self.dict[i].1;
                assert(self@[i as int].1 == p@);
                Some(p)
            },
            None => None,
        }
    }

    /// Puts `value` under `key` and gives back what was there before.
    pub fn insert(&mut self, key: String, value: Primitive) -> (prior: Option<Primitive>)
        ensures
            final(self)@ == dict_insert(old(self)@, key@, value@),
            match prior {
                Some(p) => dict_get(old(self)@, key@) == Some(p@),
                None => dict_get(old(self)@, key@) is None,
            },
    {
        proof {
            use_type_invariant(&*self);
            lemma_dict_index(self@, key@, 0);
        }
        let ghost before = self@;
        match self.position(key.as_str()) {
            Some(i) => {
                let mut entries: Vec<(String, Primitive)> = Vec::new();
                std::mem::swap(&mut entries, &mut self.dict);
                let ghost held = entries@;
                entries.push((key, value));
                let (_, prior) = entries.swap_remove(i);
                proof {
                    assert(entries@ =~= held.update(i as int, (key, value)));
                    assert(entries_view(entries@) =~= before.update(i as int, (key@, value@)));
                    assert(prim_view(prior) == before[i as int].1);
                }
                self.dict = entries;
                Some(prior)
            },
            None => {
                let mut entries: Vec<(String, Primitive)> = Vec::new();
                std::mem::swap(&mut entries, &mut self.dict);
                entries.push((key, value));
                proof {
                    assert(entries_view(entries@) =~= before.push((key@, value@)));
                }
                self.dict = entries;
                None
            },
        }
    }

    /// Takes the entry for `key` out and gives its value.
    pub fn remove(&mut self, key: &str) -> (value: Option<Primitive>)
        ensures
            final(self)@ == dict_remove(old(self)@, key@),
            match value {
                Some(p) => dict_get(old(self)@, key@) == Some(p@),
                None => dict_get(old(self)@, key@) is None,
            },
    {
        proof {
            use_type_invariant(&*self);
        }
        let ghost before = self@;
        match self.position(key) {
            Some(i) => {
                let mut entries: Vec<(String, Primitive)> = Vec::new();
                std::mem::swap(&mut entries, &mut self.dict);
                let (_, value) = entries.remove(i);
                proof {
                    assert(entries_view(entries@) =~= before.remove(i as int));
                    assert(prim_view(value) == before[i as int].1);
                }
                self.dict = entries;
                Some(value)
            },
            None => None,
        }
    }
}


impl Clone for Dictionary {
    #[verifier::loop_isolation(false)]
    fn clone(&self) -> (r: Self)
        ensures
            r@ == self@,
        decreases self,
    {
        proof {
            use_type_invariant(self);
        }
        let mut out: Vec<(String, Primitive)> = Vec::new();
        let mut i: usize = 0;
        while i < self.dict.len()
            invariant
                i <= self.dict@.len(),
                out@.len() == i,
                forall|j: int|
                    0 <= j < i ==> out@[j].0@ == self.dict@[j].0@ && prim_view(out@[j].1)
                        == prim_view(self.dict@[j].1),
            decreases self.dict@.len() - i,
        {
            proof {
                assert(decreases_to!(self => self.dict));
                assert(decreases_to!(self.dict => self.dict@));
                assert(decreases_to!(self.dict@ => self.dict@[i as int]));
                assert(decreases_to!(self.dict@[i as int] => self.dict@[i as int].1));
            }
            let value = self.dict[i].1.clone();
            out.push((self.dict[i].0.clone(), value));
            i += 1;
        }
        assert(entries_view(out@) =~= entries_view(self.dict@));
        Dictionary { dict: out }
    }
}

impl Clone for PdfStream {
    fn clone(&self) -> (r: Self)
        ensures
            r.info@ == self.info@,
            r.data@ == self.data@,
        decreases self,
    {
        PdfStream { info: self.info.clone(), data: self.data.clone() }
    }
}

impl Clone for Primitive {
    #[verifier::loop_isolation(false)]
    fn clone(&self) -> (r: Self)
        ensures
            r@ == self@,
        decreases self,
    {
        match self {
            Primitive::Null => Primitive::Null,
            Primitive::Integer(i) => Primitive::Integer(*i),
            Primitive::Number(x) => Primitive::Number(*x),
            Primitive::Boolean(b) => Primitive::Boolean(*b),
            Primitive::String(s) => Primitive::String(s.clone()),
            Primitive::Stream(s) => Primitive::Stream(s.clone()),
            Primitive::Dictionary(d) => Primitive::Dictionary(d.clone()),
            Primitive::Array(v) => {
                let mut out: Vec<Primitive> = Vec::new();
                let mut i: usize = 0;
                while i < v.len()
                    invariant
                        i <= v@.len(),
                        out@.len() == i,
                        forall|j: int| 0 <= j < i ==> prim_view(out@[j]) == prim_view(v@[j]),
                    decreases v@.len() - i,
                {
                    proof {
                        assert(decreases_to!(self => v));
                        assert(decreases_to!(v => v@));
                        assert(decreases_to!(v@ => v@[i as int]));
                    }
                    let item = v[i].clone();
                    out.push(item);
                    i += 1;
                }
                assert(prims_view(out@) =~= prims_view(v@));
                Primitive::Array(out)
            },
            Primitive::Reference(r) => Primitive::Reference(*r),
            Primitive::Name(s) => Primitive::Name(s.clone()),
        }
    }
}

/// The name of a value's kind, as error messages give it.
pub open spec fn kind_name(p: PrimitiveView) -> Seq<char> {
    match p {
        PrimitiveView::Null => "Null"@,
        PrimitiveView::Integer(_) => "Integer"@,
        PrimitiveView::Number(_) => "Number"@,
        PrimitiveView::Boolean(_) => "Boolean"@,
        PrimitiveView::String(_) => "String"@,
        PrimitiveView::Stream { .. } => "Stream"@,
        PrimitiveView::Dictionary(_) => "Dictionary"@,
        PrimitiveView::Array(_) => "Array"@,
        PrimitiveView::Reference(_) => "Reference"@,
        PrimitiveView::Name(_) => "Name"@,
    }
}

/// The error for a value of another kind than `expected`.
pub open spec fn unexpected(expected: Seq<char>, found: PrimitiveView) -> ErrorView {
    ErrorView::UnexpectedPrimitive { expected, found: kind_name(found) }
}

impl Primitive {
    /// The name of the value's kind.
    pub fn get_debug_name(&self) -> (name: &'static str)
        ensures
            name@ == kind_name(self@),
    {
        match self {
            Primitive::Null => "Null",
            Primitive::Integer(_) => "Integer",
            Primitive::Number(_) => "Number",
            Primitive::Boolean(_) => "Boolean",
            Primitive::String(_) => "String",
            Primitive::Stream(_) => "Stream",
            Primitive::Dictionary(_) => "Dictionary",
            Primitive::Array(_) => "Array",
            Primitive::Reference(_) => "Reference",
            Primitive::Name(_) => "Name",
        }
    }

    /// The error for this value where one of kind `expected` was needed.
    fn unexpected(&self, expected: &'static str) -> (e: PdfError)
        ensures
            e@ == unexpected(expected@, self@),
    {
        PdfError::UnexpectedPrimitive { expected, found: self.get_debug_name() }
    }

    /// The integer that the value is.
    pub fn as_integer(&self) -> (res: Result<i32, PdfError>)
        ensures
            match res {
                Ok(n) => self@ == PrimitiveView::Integer(n),
                Err(e) => !(self@ is Integer) && e@ == unexpected("Integer"@, self@),
            },
    {
        match self {
            Primitive::Integer(n) => Ok(*n),
            p => Err(p.unexpected("Integer")),
        }
    }

    /// The number that the value is: an integer or a real.
    pub fn as_number(&self) -> (res: Result<Number, PdfError>)
        ensures
            match res {
                Ok(Number::Integer(n)) => self@ == PrimitiveView::Integer(n),
                Ok(Number::Real(x)) => self@ == PrimitiveView::Number(x),
                Err(e) => !(self@ is Integer) && !(self@ is Number) && e@ == unexpected(
                    "Number"@,
                    self@,
                ),
            },
    {
        match self {
            Primitive::Integer(n) => Ok(Number::Integer(*n)),
            Primitive::Number(x) => Ok(Number::Real(*x)),
            p => Err(p.unexpected("Number")),
        }
    }

    /// The truth value that the value is.
    pub fn as_bool(&self) -> (res: Result<bool, PdfError>)
        ensures
            match res {
                Ok(b) => self@ == PrimitiveView::Boolean(b),
                Err(e) => !(self@ is Boolean) && e@ == unexpected("Boolean"@, self@),
            },
    {
        match self {
            Primitive::Boolean(b) => Ok(*b),
            p => Err(p.unexpected("Boolean")),
        }
    }

    /// The name that the value is.
    pub fn as_name(&self) -> (res: Result<&str, PdfError>)
        ensures
            match res {
                Ok(s) => self@ == PrimitiveView::Name(s@),
                Err(e) => !(self@ is Name) && e@ == unexpected("Name"@, self@),
            },
    {
        match self {
            Primitive::Name(s) => Ok(s.as_str()),
            p => Err(p.unexpected("Name")),
        }
    }

    /// The string that the value is.
    pub fn as_string(&self) -> (res: Result<&PdfString, PdfError>)
        ensures
            match res {
                Ok(s) => self@ == PrimitiveView::String(s@),
                Err(e) => !(self@ is String) && e@ == unexpected("String"@, self@),
            },
    {
        match self {
            Primitive::String(s) => Ok(s),
            p => Err(p.unexpected("String")),
        }
    }

    /// The reference that the value is.
    pub fn into_reference(self) -> (res: Result<PlainRef, PdfError>)
        ensures
            match res {
                Ok(r) => self@ == PrimitiveView::Reference(r),
                Err(e) => !(self@ is Reference) && e@ == unexpected("Reference"@, self@),
            },
    {
        match self {
            Primitive::Reference(r) => Ok(r),
            p => Err(p.unexpected("Reference")),
        }
    }

    /// The name that the value is, the value given up.
    pub fn into_name(self) -> (res: Result<String, PdfError>)
        ensures
            match res {
                Ok(s) => self@ == PrimitiveView::Name(s@),
                Err(e) => !(self@ is Name) && e@ == unexpected("Name"@, self@),
            },
    {
        match self {
            Primitive::Name(s) => Ok(s),
            p => Err(p.unexpected("Name")),
        }
    }

    /// The name that the value is, the value given up.
    pub fn to_name(self) -> (res: Result<String, PdfError>)
        ensures
            match res {
                Ok(s) => self@ == PrimitiveView::Name(s@),
                Err(e) => !(self@ is Name) && e@ == unexpected("Name"@, self@),
            },
    {
        self.into_name()
    }

    /// The string that the value is, the value given up.
    pub fn into_string(self) -> (res: Result<PdfString, PdfError>)
        ensures
            match res {
                Ok(s) => self@ == PrimitiveView::String(s@),
                Err(e) => !(self@ is String) && e@ == unexpected("String"@, self@),
            },
    {
        match self {
            Primitive::String(s) => Ok(s),
            p => Err(p.unexpected("String")),
        }
    }
}


/// What `require` gives: the value under `key`, or the complaint that a
/// `typ` record lacks it.
pub open spec fn require_spec(d: DictView, typ: Seq<char>, key: Seq<char>) -> Result<
    PrimitiveView,
    ErrorView,
> {
    match dict_get(d, key) {
        Some(p) => Ok(p),
        None => Err(ErrorView::MissingEntry { typ, field: key }),
    }
}

/// What `expect` gives: nothing to complain of where the name under `key`
/// is `value`, or where the key is absent and not required.
pub open spec fn expect_spec(
    d: DictView,
    typ: Seq<char>,
    key: Seq<char>,
    value: Seq<char>,
    required: bool,
) -> Result<(), ErrorView> {
    match dict_get(d, key) {
        Some(PrimitiveView::Name(found)) => {
            if found == value {
                Ok(())
            } else {
                Err(ErrorView::KeyValueMismatch { key, value, found })
            }
        },
        Some(p) => Err(unexpected("Name"@, p)),
        None => {
            if required {
                Err(ErrorView::MissingEntry { typ, field: key })
            } else {
                Ok(())
            }
        },
    }
}

/// Taking one key out leaves what stands under any other key.
pub proof fn lemma_get_after_remove(d: DictView, gone: Seq<char>, key: Seq<char>)
    requires
        gone != key,
    ensures
        dict_get(dict_remove(d, gone), key) == dict_get(d, key),
{
    lemma_dict_index(d, gone, 0);
    lemma_dict_index(d, key, 0);
    match dict_index(d, gone) {
        None => {},
        Some(i) => {
            let rest = d.remove(i);
            match dict_index(d, key) {
                None => {
                    lemma_dict_index_none(rest, key, 0);
                },
                Some(j) => {
                    if j < i {
                        lemma_dict_index_is(rest, key, 0, j);
                    } else {
                        lemma_dict_index_is(rest, key, 0, j - 1);
                    }
                },
            }
        },
    }
}

impl Dictionary {
    /// Takes the value under `key` out; it has to be there. Fails with
    /// `MissingEntry`, naming `typ` and the key, where it is not, and then
    /// leaves the dictionary as it was.
    pub fn require(&mut self, typ: &'static str, key: &str) -> (res: Result<Primitive, PdfError>)
        ensures
            result_view(res) == require_spec(old(self)@, typ@, key@),
            final(self)@ == dict_remove(old(self)@, key@),
    {
        match self.remove(key) {
            Some(p) => Ok(p),
            None => Err(PdfError::MissingEntry { typ, field: key.to_owned() }),
        }
    }

    /// Checks that the name under `key` is `value`.
    ///
    /// Fails with `KeyValueMismatch` where another name stands there, with
    /// `UnexpectedPrimitive` where what stands there is no name, and with
    /// `MissingEntry` where nothing stands there though `required`.
    pub fn expect(&self, typ: &'static str, key: &str, value: &str, required: bool) -> (res:
        Result<(), PdfError>)
        ensures
            match res {
                Ok(_) => expect_spec(self@, typ@, key@, value@, required) is Ok,
                Err(e) => expect_spec(self@, typ@, key@, value@, required) == Err::<
                    (),
                    ErrorView,
                >(e@),
            },
    {
        match self.get(key) {
            Some(ty) => {
                let ty = match ty.as_name() {
                    Ok(ty) => ty,
                    Err(e) => {
                        return Err(e);
                    },
                };
                if !str_eq(ty, value) {
                    Err(
                        PdfError::KeyValueMismatch {
                            key: key.to_owned(),
                            value: value.to_owned(),
                            found: ty.to_owned(),
                        },
                    )
                } else {
                    Ok(())
                }
            },
            None => {
                if required {
                    Err(PdfError::MissingEntry { typ, field: key.to_owned() })
                } else {
                    Ok(())
                }
            },
        }
    }
}

} // verus!
