//! The stream entity: a dictionary of parameters, the stored bytes, and
//! the filters that turn the stored bytes into the content.

use crate::enc::{decode, decode_spec, filter_of, StreamFilter};
use crate::error::{result_view, ErrorView, PdfError};
use crate::object::{
    at, chase, dictionary_of, is_dangling, lemma_chase_end, name_from_primitive, name_of,
    opt_field, opt_view, stream_of, wrap_field, Resolve, MAX_DEPTH,
};
use crate::primitive::{
    dict_get, dict_remove, prim_view, prims_view, DictView, Dictionary, PdfStream, Primitive,
    PrimitiveView,
};
use vstd::prelude::*;

verus! {

/// A stream: its parameters, its filters in the order in which they are
/// applied when decoding, and its stored bytes. Decoding never changes
/// the stored bytes.
#[derive(Debug)]
pub struct Stream<I> {
    /// What the stream's dictionary says beyond its filters: the rest of
    /// the dictionary, a typed record read from it, or nothing.
    pub info: I,
    /// The declared filters, first to apply first.
    pub filters: Vec<StreamFilter>,
    /// The stored bytes, still encoded.
    pub data: Vec<u8>,
}

/// Mathematical view of a [`Stream`].
pub ghost struct StreamView<V> {
    pub info: V,
    pub filters: Seq<StreamFilter>,
    pub data: Seq<u8>,
}

impl<I: View> View for Stream<I> {
    type V = StreamView<I::V>;

    open spec fn view(&self) -> StreamView<I::V> {
        StreamView { info: self.info@, filters: self.filters@, data: self.data@ }
    }
}

impl<V> StreamView<V> {
    /// The same stream with other information in place of its own.
    pub open spec fn with_info<W>(self, info: W) -> StreamView<W> {
        StreamView { info, filters: self.filters, data: self.data }
    }

    /// The content of the stream, where the filters alone decide it.
    pub open spec fn content(self) -> Option<Result<Seq<u8>, ErrorView>> {
        chain_spec(self.data, self.filters)
    }
}

/// What a chain of filters makes of `data`: each filter is applied to what
/// the one before it gave, and the first failure is the failure of the
/// whole. `None` where the chain comes to a DCT filter, whose result the
/// JPEG decoder decides.
pub open spec fn chain_spec(data: Seq<u8>, filters: Seq<StreamFilter>) -> Option<
    Result<Seq<u8>, ErrorView>,
>
    decreases filters.len(),
{
    if filters.len() == 0 {
        Some(Ok(data))
    } else {
        match decode_spec(data, filters[0]) {
            None => None,
            Some(Err(e)) => Some(Err(e)),
            Some(Ok(bytes)) => chain_spec(bytes, filters.skip(1)),
        }
    }
}

/// The first `n` of a list of names.
pub open spec fn names_upto<R: Resolve>(items: Seq<PrimitiveView>, r: &R, n: int) -> Result<
    Seq<Seq<char>>,
    ErrorView,
>
    decreases n,
{
    if n <= 0 {
        Ok(Seq::empty())
    } else {
        match names_upto(items, r, n - 1) {
            Err(e) => Err(e),
            Ok(done) => match name_of(items[n - 1], r) {
                Err(e) => Err(e),
                Ok(name) => Ok(done.push(name)),
            },
        }
    }
}

/// The filter names under `Filter`: none where the key is absent or holds
/// nothing, the names of an array, or the one name that stands there.
pub open spec fn filter_names<R: Resolve>(p: Option<PrimitiveView>, r: &R) -> Result<
    Seq<Seq<char>>,
    ErrorView,
> {
    match p {
        None => Ok(Seq::empty()),
        Some(p) => match chase(p, r, MAX_DEPTH as nat) {
            Err(e) => Err(e),
            Ok(PrimitiveView::Null) => Ok(Seq::empty()),
            Ok(PrimitiveView::Array(items)) => names_upto(items, r, items.len() as int),
            Ok(q) => match name_of(q, r) {
                Err(e) => Err(e),
                Ok(name) => Ok(seq![name]),
            },
        },
    }
}

/// One entry of a list of parameter dictionaries: the empty dictionary
/// where the entry holds nothing.
pub open spec fn params_entry<R: Resolve>(p: PrimitiveView, r: &R) -> Result<
    DictView,
    ErrorView,
> {
    match chase(p, r, MAX_DEPTH as nat) {
        Err(e) => Err(e),
        Ok(PrimitiveView::Null) => Ok(Seq::empty()),
        Ok(q) => dictionary_of(q, r),
    }
}

/// The first `n` of a list of parameter dictionaries.
pub open spec fn params_upto<R: Resolve>(items: Seq<PrimitiveView>, r: &R, n: int) -> Result<
    Seq<DictView>,
    ErrorView,
>
    decreases n,
{
    if n <= 0 {
        Ok(Seq::empty())
    } else {
        match params_upto(items, r, n - 1) {
            Err(e) => Err(e),
            Ok(done) => match params_entry(items[n - 1], r) {
                Err(e) => Err(e),
                Ok(d) => Ok(done.push(d)),
            },
        }
    }
}

/// The parameter dictionaries under `DecodeParms`: none where the key is
/// absent or holds nothing, those of an array, or the one that stands
/// there.
pub open spec fn filter_params<R: Resolve>(p: Option<PrimitiveView>, r: &R) -> Result<
    Seq<DictView>,
    ErrorView,
> {
    match p {
        None => Ok(Seq::empty()),
        Some(p) => match chase(p, r, MAX_DEPTH as nat) {
            Err(e) => Err(e),
            Ok(PrimitiveView::Null) => Ok(Seq::empty()),
            Ok(PrimitiveView::Array(items)) => params_upto(items, r, items.len() as int),
            Ok(q) => match dictionary_of(q, r) {
                Err(e) => Err(e),
                Ok(d) => Ok(seq![d]),
            },
        },
    }
}

/// The parameters of filter `i`: the empty dictionary where the list is
/// too short.
pub open spec fn params_at(params: Seq<DictView>, i: int) -> DictView {
    if 0 <= i < params.len() {
        params[i]
    } else {
        Seq::empty()
    }
}

/// The first `n` filters that names and parameters stand for.
pub open spec fn filters_upto<R: Resolve>(
    names: Seq<Seq<char>>,
    params: Seq<DictView>,
    r: &R,
    n: int,
) -> Result<Seq<StreamFilter>, ErrorView>
    decreases n,
{
    if n <= 0 {
        Ok(Seq::empty())
    } else {
        match filters_upto(names, params, r, n - 1) {
            Err(e) => Err(e),
            Ok(done) => match filter_of(names[n - 1], params_at(params, n - 1), r) {
                Err(e) => Err(e),
                Ok(f) => Ok(done.push(f)),
            },
        }
    }
}

/// The stream that a parsed stream stands for: its filters are read from
/// `Filter` and `DecodeParms`, which leave the dictionary.
pub open spec fn stream_from<R: Resolve>(info: DictView, data: Seq<u8>, r: &R) -> Result<
    StreamView<DictView>,
    ErrorView,
> {
    match filter_names(dict_get(info, "Filter"@), r) {
        Err(e) => Err(e),
        Ok(names) => {
            let d1 = dict_remove(info, "Filter"@);
            match filter_params(dict_get(d1, "DecodeParms"@), r) {
                Err(e) => Err(e),
                Ok(params) => {
                    let d2 = dict_remove(d1, "DecodeParms"@);
                    match filters_upto(names, params, r, names.len() as int) {
                        Err(e) => Err(e),
                        Ok(filters) => Ok(StreamView { info: d2, filters, data }),
                    }
                },
            }
        },
    }
}

/// The stream that a value is or refers to.
pub open spec fn stream_spec<R: Resolve>(p: PrimitiveView, r: &R) -> Result<
    StreamView<DictView>,
    ErrorView,
> {
    match stream_of(p, r) {
        Err(e) => Err(e),
        Ok((info, data)) => stream_from(info, data, r),
    }
}

/// Once the first `n` fail, so do the first `m`, for any `m` from `n` on.
proof fn lemma_names_fail<R: Resolve>(items: Seq<PrimitiveView>, r: &R, n: int, m: int)
    requires
        0 <= n <= m,
        names_upto(items, r, n) is Err,
    ensures
        names_upto(items, r, m) == names_upto(items, r, n),
    decreases m - n,
{
    if n < m {
        lemma_names_fail(items, r, n, m - 1);
    }
}

/// The same for a list of parameter dictionaries.
proof fn lemma_params_fail<R: Resolve>(items: Seq<PrimitiveView>, r: &R, n: int, m: int)
    requires
        0 <= n <= m,
        params_upto(items, r, n) is Err,
    ensures
        params_upto(items, r, m) == params_upto(items, r, n),
    decreases m - n,
{
    if n < m {
        lemma_params_fail(items, r, n, m - 1);
    }
}

/// The same for a list of filters.
proof fn lemma_filters_fail<R: Resolve>(
    names: Seq<Seq<char>>,
    params: Seq<DictView>,
    r: &R,
    n: int,
    m: int,
)
    requires
        0 <= n <= m,
        filters_upto(names, params, r, n) is Err,
    ensures
        filters_upto(names, params, r, m) == filters_upto(names, params, r, n),
    decreases m - n,
{
    if n < m {
        lemma_filters_fail(names, params, r, n, m - 1);
    }
}

/// The views of a list of names.
pub open spec fn texts(names: Seq<String>) -> Seq<Seq<char>> {
    Seq::new(names.len(), |i: int| names[i]@)
}

/// The views of a list of dictionaries.
pub open spec fn dicts(items: Seq<Dictionary>) -> Seq<DictView> {
    Seq::new(items.len(), |i: int| items[i]@)
}

/// Reads the names under `Filter`.
#[verifier::loop_isolation(false)]
fn read_filter_names(p: Option<Primitive>, r: &impl Resolve) -> (res: Result<Vec<String>, PdfError>)
    ensures
        match res {
            Ok(names) => filter_names(opt_view(p), r) == Ok::<
                Seq<Seq<char>>,
                ErrorView,
            >(texts(names@)),
            Err(e) => filter_names(opt_view(p), r) == Err::<
                Seq<Seq<char>>,
                ErrorView,
            >(e@),
        },
{
    let p = match p {
        None => {
            let names: Vec<String> = Vec::new();
            assert(texts(names@) =~= Seq::empty());
            return Ok(names);
        },
        Some(p) => p,
    };
    let q = match p.resolved(r) {
        Ok(q) => q,
        Err(e) => {
            return Err(e);
        },
    };
    proof {
        lemma_chase_end(p@, r, MAX_DEPTH as nat);
        lemma_chase_end(q@, r, MAX_DEPTH as nat);
    }
    match q {
        Primitive::Null => {
            let names: Vec<String> = Vec::new();
            assert(texts(names@) =~= Seq::empty());
            Ok(names)
        },
        Primitive::Array(items) => {
            let ghost views = prims_view(items@);
            let mut names: Vec<String> = Vec::new();
            let n = items.len();
            let mut items = items;
            let mut i: usize = 0;
            assert(texts(names@) =~= Seq::empty());
            while i < n
                invariant
                    i <= n,
                    n == views.len(),
                    items@.len() == n,
                    forall|j: int| i <= j < n ==> prim_view(items@[j]) == views[j],
                    names_upto(views, r, i as int) == Ok::<Seq<Seq<char>>, ErrorView>(
                        texts(names@),
                    ),
                decreases n - i,
            {
                let mut item = Primitive::Null;
                std::mem::swap(&mut item, &mut items[i]);
                assert(item@ == views[i as int]);
                match name_from_primitive(item, r) {
                    Ok(name) => {
                        let ghost before = texts(names@);
                        names.push(name);
                        assert(texts(names@) =~= before.push(name@));
                    },
                    Err(e) => {
                        proof {
                            assert(names_upto(views, r, i + 1) is Err);
                            lemma_names_fail(views, r, i + 1, n as int);
                        }
                        return Err(e);
                    },
                }
                i += 1;
            }
            Ok(names)
        },
        other => match name_from_primitive(other, r) {
            Ok(name) => {
                let mut names: Vec<String> = Vec::new();
                names.push(name);
                assert(texts(names@) =~= seq![name@]);
                Ok(names)
            },
            Err(e) => Err(e),
        },
    }
}

/// Reads the dictionaries under `DecodeParms`.
#[verifier::loop_isolation(false)]
fn read_filter_params(p: Option<Primitive>, r: &impl Resolve) -> (res: Result<
    Vec<Dictionary>,
    PdfError,
>)
    ensures
        match res {
            Ok(params) => filter_params(opt_view(p), r) == Ok::<
                Seq<DictView>,
                ErrorView,
            >(dicts(params@)),
            Err(e) => filter_params(opt_view(p), r) == Err::<
                Seq<DictView>,
                ErrorView,
            >(e@),
        },
{
    let p = match p {
        None => {
            let params: Vec<Dictionary> = Vec::new();
            assert(dicts(params@) =~= Seq::empty());
            return Ok(params);
        },
        Some(p) => p,
    };
    let q = match p.resolved(r) {
        Ok(q) => q,
        Err(e) => {
            return Err(e);
        },
    };
    proof {
        lemma_chase_end(p@, r, MAX_DEPTH as nat);
        lemma_chase_end(q@, r, MAX_DEPTH as nat);
    }
    match q {
        Primitive::Null => {
            let params: Vec<Dictionary> = Vec::new();
            assert(dicts(params@) =~= Seq::empty());
            Ok(params)
        },
        Primitive::Array(items) => {
            let ghost views = prims_view(items@);
            let mut params: Vec<Dictionary> = Vec::new();
            let n = items.len();
            let mut items = items;
            let mut i: usize = 0;
            assert(dicts(params@) =~= Seq::empty());
            while i < n
                invariant
                    i <= n,
                    n == views.len(),
                    items@.len() == n,
                    forall|j: int| i <= j < n ==> prim_view(items@[j]) == views[j],
                    params_upto(views, r, i as int) == Ok::<Seq<DictView>, ErrorView>(
                        dicts(params@),
                    ),
                decreases n - i,
            {
                let mut item = Primitive::Null;
                std::mem::swap(&mut item, &mut items[i]);
                assert(item@ == views[i as int]);
                let entry = match item.resolved(r) {
                    Ok(Primitive::Null) => Ok(Dictionary::new()),
                    Ok(other) => {
                        proof {
                            lemma_chase_end(item@, r, MAX_DEPTH as nat);
                            lemma_chase_end(other@, r, MAX_DEPTH as nat);
                        }
                        other.into_dictionary(r)
                    },
                    Err(e) => Err(e),
                };
                match entry {
                    Ok(d) => {
                        let ghost before = dicts(params@);
                        params.push(d);
                        assert(dicts(params@) =~= before.push(d@));
                    },
                    Err(e) => {
                        proof {
                            assert(params_upto(views, r, i + 1) is Err);
                            lemma_params_fail(views, r, i + 1, n as int);
                        }
                        return Err(e);
                    },
                }
                i += 1;
            }
            Ok(params)
        },
        other => match other.into_dictionary(r) {
            Ok(d) => {
                let mut params: Vec<Dictionary> = Vec::new();
                params.push(d);
                assert(dicts(params@) =~= seq![d@]);
                Ok(params)
            },
            Err(e) => Err(e),
        },
    }
}

impl Stream<Dictionary> {
    /// Builds the stream from its parsed form: the filters are read from
    /// the `Filter` and `DecodeParms` entries, name by name, each with the
    /// parameter dictionary at its place in the list or with none.
    #[verifier::loop_isolation(false)]
    pub fn from_stream(s: PdfStream, r: &impl Resolve) -> (res: Result<
        Stream<Dictionary>,
        PdfError,
    >)
        ensures
            result_view(res) == stream_from(s.info@, s.data@, r),
    {
        let PdfStream { info, data } = s;
        let mut info = info;
        let names = match read_filter_names(info.remove("Filter"), r) {
            Ok(names) => names,
            Err(e) => {
                return Err(e);
            },
        };
        let mut params = match read_filter_params(info.remove("DecodeParms"), r) {
            Ok(params) => params,
            Err(e) => {
                return Err(e);
            },
        };
        let ghost name_views = texts(names@);
        let ghost param_views = dicts(params@);
        let mut filters: Vec<StreamFilter> = Vec::new();
        let n = names.len();
        let mut i: usize = 0;
        while i < n
            invariant
                i <= n,
                n == names@.len(),
                name_views == texts(names@),
                params@.len() == param_views.len(),
                forall|j: int|
                    i <= j < params@.len() ==> (#[trigger] params@[j])@ == param_views[j],
                filters_upto(name_views, param_views, r, i as int) == Ok::<
                    Seq<StreamFilter>,
                    ErrorView,
                >(filters@),
            decreases n - i,
        {
            let mut entry = Dictionary::new();
            if i < params.len() {
                std::mem::swap(&mut entry, &mut params[i]);
            }
            assert(entry@ == params_at(param_views, i as int));
            match StreamFilter::from_kind_and_params(names[i].as_str(), entry, r) {
                Ok(f) => {
                    filters.push(f);
                },
                Err(e) => {
                    proof {
                        assert(filters_upto(name_views, param_views, r, i + 1) is Err);
                        lemma_filters_fail(name_views, param_views, r, i + 1, n as int);
                    }
                    return Err(e);
                },
            }
            i += 1;
        }
        Ok(Stream { info, filters, data })
    }

    /// Builds the stream from the value that is or refers to it.
    pub fn from_primitive(p: Primitive, r: &impl Resolve) -> (res: Result<
        Stream<Dictionary>,
        PdfError,
    >)
        ensures
            result_view(res) == stream_spec(p@, r),
    {
        match p.into_stream(r) {
            Ok(s) => Stream::<Dictionary>::from_stream(s, r),
            Err(e) => Err(e),
        }
    }
}

/// The stream that a value is or refers to, without its dictionary.
pub open spec fn plain_stream_spec<R: Resolve>(p: PrimitiveView, r: &R) -> Result<
    StreamView<()>,
    ErrorView,
> {
    match stream_spec(p, r) {
        Ok(s) => Ok(s.with_info(())),
        Err(e) => Err(e),
    }
}

impl Stream<()> {
    /// Builds the stream from its parsed form and lets the rest of its
    /// dictionary go.
    pub fn from_stream(s: PdfStream, r: &impl Resolve) -> (res: Result<Stream<()>, PdfError>)
        ensures
            match res {
                Ok(stream) => stream_from(s.info@, s.data@, r) matches Ok(full) && stream@
                    == full.with_info(()),
                Err(e) => stream_from(s.info@, s.data@, r) == Err::<
                    StreamView<DictView>,
                    ErrorView,
                >(e@),
            },
    {
        match Stream::<Dictionary>::from_stream(s, r) {
            Ok(full) => Ok(full.with_info(()).1),
            Err(e) => Err(e),
        }
    }

    /// Builds the stream from the value that is or refers to it, and lets
    /// the rest of its dictionary go.
    pub fn from_primitive(p: Primitive, r: &impl Resolve) -> (res: Result<Stream<()>, PdfError>)
        ensures
            result_view(res) == plain_stream_spec(p@, r),
    {
        match Stream::<Dictionary>::from_primitive(p, r) {
            Ok(full) => Ok(full.with_info(()).1),
            Err(e) => Err(e),
        }
    }
}

impl<I> Stream<I> {
    /// Puts other information in the place of the stream's own, which is
    /// handed back.
    pub fn with_info<J>(self, info: J) -> (res: (I, Stream<J>))
        ensures
            res.0 == self.info,
            res.1.info == info,
            res.1.filters@ == self.filters@,
            res.1.data@ == self.data@,
    {
        let Stream { info: own, filters, data } = self;
        (own, Stream { info, filters, data })
    }

    /// The content of the stream: the stored bytes run through the whole
    /// chain of filters, in the declared order. The first filter that
    /// fails ends the decoding with its error.
    pub fn decode(&self) -> (res: Result<Vec<u8>, PdfError>)
        ensures
            chain_spec(self.data@, self.filters@) matches Some(r) ==> result_view(res) == r,
    {
        let mut current: Vec<u8> = self.data.clone();
        let n = self.filters.len();
        let mut i: usize = 0;
        assert(self.filters@.skip(0) =~= self.filters@);
        while i < n
            invariant
                i <= n,
                n == self.filters@.len(),
                chain_spec(self.data@, self.filters@) is Some ==> chain_spec(
                    self.data@,
                    self.filters@,
                ) == chain_spec(current@, self.filters@.skip(i as int)),
            decreases n - i,
        {
            let ghost rest = self.filters@.skip(i as int);
            assert(rest[0] == self.filters@[i as int]);
            assert(rest.skip(1) =~= self.filters@.skip(i + 1));
            match decode(current.as_slice(), &self.filters[i]) {
                Ok(next) => {
                    current = next;
                },
                Err(e) => {
                    return Err(e);
                },
            }
            i += 1;
        }
        Ok(current)
    }

    /// The content of the stream; the same as [`Stream::decode`].
    pub fn data(&self) -> (res: Result<Vec<u8>, PdfError>)
        ensures
            chain_spec(self.data@, self.filters@) matches Some(r) ==> result_view(res) == r,
    {
        self.decode()
    }
}


/// The view of a stream that may be absent.
pub open spec fn opt_stream<I: View>(s: Option<Stream<I>>) -> Option<StreamView<I::V>> {
    match s {
        Some(x) => Some(x@),
        None => None,
    }
}

/// Takes a stream that may be missing out of `dict`; the stream is kept
/// without its dictionary.
pub fn take_opt_stream(
    dict: &mut Dictionary,
    typ: &'static str,
    key: &'static str,
    r: &impl Resolve,
) -> (res: Result<Option<Stream<()>>, PdfError>)
    ensures
        final(dict)@ == dict_remove(old(dict)@, key@),
        match res {
            Ok(x) => opt_field(
                dict_get(old(dict)@, key@),
                typ@,
                key@,
                plain_stream_spec(at(old(dict)@, key@), r),
            ) == Ok::<Option<StreamView<()>>, ErrorView>(opt_stream(x)),
            Err(e) => opt_field(
                dict_get(old(dict)@, key@),
                typ@,
                key@,
                plain_stream_spec(at(old(dict)@, key@), r),
            ) == Err::<Option<StreamView<()>>, ErrorView>(e@),
        },
{
    match dict.remove(key) {
        None => Ok(None),
        Some(Primitive::Null) => Ok(None),
        Some(p) => match Stream::<()>::from_primitive(p, r) {
            Ok(x) => Ok(Some(x)),
            Err(e) => {
                if is_dangling(&e) {
                    Ok(None)
                } else {
                    Err(wrap_field(typ, key, e))
                }
            },
        },
    }
}

} // verus!
