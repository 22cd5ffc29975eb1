//! Font encodings: a base encoding and the glyph names that differ from
//! it.

use crate::error::{result_view, ErrorView, PdfError};
use crate::object::{chase, name_of, Resolve, MAX_DEPTH};
use crate::primitive::{
    dict_get, dict_remove, prims_view, unexpected, DictView, Dictionary, Primitive, PrimitiveView,
};
use crate::text::str_eq;
use vstd::prelude::*;

verus! {

/// The encodings that a font may be based on.
#[derive(Debug, Clone, Copy, PartialEq, Eq, Structural)]
pub enum BaseEncoding {
    StandardEncoding,
    SymbolEncoding,
    MacRomanEncoding,
    WinAnsiEncoding,
    MacExpertEncoding,
    /// Two-byte codes that are the character identifiers themselves;
    /// written `Identity-H`.
    IdentityH,
    /// No base is declared; the name `None` stands for this.
    Unspecified,
}

/// A font's encoding: its base, and the glyph names set for single codes.
#[derive(Debug)]
pub struct Encoding {
    pub base: BaseEncoding,
    /// Code and glyph name, in the order in which they were declared. A
    /// later entry for a code overrides an earlier one.
    pub differences: Vec<(u32, String)>,
}

/// Mathematical view of an [`Encoding`].
pub ghost struct EncodingView {
    pub base: BaseEncoding,
    pub differences: Seq<(u32, Seq<char>)>,
}

/// The views of a list of differences.
pub open spec fn differences_view(v: Seq<(u32, String)>) -> Seq<(u32, Seq<char>)> {
    Seq::new(v.len(), |i: int| (v[i].0, v[i].1@))
}

impl View for Encoding {
    type V = EncodingView;

    open spec fn view(&self) -> EncodingView {
        EncodingView { base: self.base, differences: differences_view(self.differences@) }
    }
}

/// The base encoding that a name stands for.
pub open spec fn base_encoding_named(name: Seq<char>) -> Result<BaseEncoding, ErrorView> {
    if name == "StandardEncoding"@ {
        Ok(BaseEncoding::StandardEncoding)
    } else if name == "SymbolEncoding"@ {
        Ok(BaseEncoding::SymbolEncoding)
    } else if name == "MacRomanEncoding"@ {
        Ok(BaseEncoding::MacRomanEncoding)
    } else if name == "WinAnsiEncoding"@ {
        Ok(BaseEncoding::WinAnsiEncoding)
    } else if name == "MacExpertEncoding"@ {
        Ok(BaseEncoding::MacExpertEncoding)
    } else if name == "Identity-H"@ {
        Ok(BaseEncoding::IdentityH)
    } else if name == "None"@ {
        Ok(BaseEncoding::Unspecified)
    } else {
        Err(ErrorView::UnknownVariant { id: "BaseEncoding"@, name })
    }
}

/// The differences that the first `n` items of a `Differences` array
/// declare, and the code that the next name would get. An integer sets
/// the code; a name gets the code and moves it on by one, modulo 2^32.
/// A negative integer, and any item that is neither, fails.
pub open spec fn differences_upto(items: Seq<PrimitiveView>, n: int) -> Result<
    (Seq<(u32, Seq<char>)>, u32),
    ErrorView,
>
    decreases n,
{
    if n <= 0 {
        Ok((Seq::empty(), 0u32))
    } else {
        match differences_upto(items, n - 1) {
            Err(e) => Err(e),
            Ok((done, code)) => match items[n - 1] {
                PrimitiveView::Integer(c) => {
                    if c >= 0 {
                        Ok((done, c as u32))
                    } else {
                        Err(ErrorView::Other { msg: "negative integer"@ })
                    }
                },
                PrimitiveView::Name(name) => Ok(
                    (done.push((code, name)), code.wrapping_add(1)),
                ),
                q => Err(unexpected("Integer or Name"@, q)),
            },
        }
    }
}

/// The differences that a dictionary declares: none where the key
/// `Differences` is absent.
pub open spec fn differences_of<R: Resolve>(d: DictView, r: &R) -> Result<
    Seq<(u32, Seq<char>)>,
    ErrorView,
> {
    match dict_get(d, "Differences"@) {
        None => Ok(Seq::empty()),
        Some(p) => match crate::object::array_of(p, r) {
            Err(e) => Err(e),
            Ok(items) => match differences_upto(items, items.len() as int) {
                Err(e) => Err(e),
                Ok((done, _)) => Ok(done),
            },
        },
    }
}

/// The encoding that a value stands for: a name is a base encoding
/// without differences; a dictionary gives the base under `BaseEncoding`,
/// or none, and the differences under `Differences`.
pub open spec fn encoding_of<R: Resolve>(p: PrimitiveView, r: &R) -> Result<
    EncodingView,
    ErrorView,
> {
    match chase(p, r, MAX_DEPTH as nat) {
        Err(e) => Err(e),
        Ok(PrimitiveView::Name(name)) => match base_encoding_named(name) {
            Err(e) => Err(e),
            Ok(base) => Ok(EncodingView { base, differences: Seq::empty() }),
        },
        Ok(PrimitiveView::Dictionary(d0)) => {
            let base = match dict_get(d0, "BaseEncoding"@) {
                None => Ok(BaseEncoding::Unspecified),
                Some(b) => match name_of(b, r) {
                    Err(e) => Err(e),
                    Ok(name) => base_encoding_named(name),
                },
            };
            let d1 = dict_remove(d0, "BaseEncoding"@);
            match base {
                Err(e) => Err(e),
                Ok(base) => match differences_of(d1, r) {
                    Err(e) => Err(e),
                    Ok(differences) => Ok(EncodingView { base, differences }),
                },
            }
        },
        Ok(q) => Err(unexpected("Dictionary or Name"@, q)),
    }
}

/// Once the first `n` items fail, so do the first `m`, for any `m` from
/// `n` on.
proof fn lemma_differences_fail(items: Seq<PrimitiveView>, n: int, m: int)
    requires
        0 <= n <= m,
        differences_upto(items, n) is Err,
    ensures
        differences_upto(items, m) == differences_upto(items, n),
    decreases m - n,
{
    if n < m {
        lemma_differences_fail(items, n, m - 1);
    }
}

impl BaseEncoding {
    /// The base encoding that a name stands for. Fails with
    /// `UnknownVariant` where the name stands for none.
    pub fn from_name(name: &str) -> (res: Result<BaseEncoding, PdfError>)
        ensures
            match res {
                Ok(b) => base_encoding_named(name@) == Ok::<BaseEncoding, ErrorView>(b),
                Err(e) => base_encoding_named(name@) == Err::<BaseEncoding, ErrorView>(e@),
            },
    {
        if str_eq(name, "StandardEncoding") {
            Ok(BaseEncoding::StandardEncoding)
        } else if str_eq(name, "SymbolEncoding") {
            Ok(BaseEncoding::SymbolEncoding)
        } else if str_eq(name, "MacRomanEncoding") {
            Ok(BaseEncoding::MacRomanEncoding)
        } else if str_eq(name, "WinAnsiEncoding") {
            Ok(BaseEncoding::WinAnsiEncoding)
        } else if str_eq(name, "MacExpertEncoding") {
            Ok(BaseEncoding::MacExpertEncoding)
        } else if str_eq(name, "Identity-H") {
            Ok(BaseEncoding::IdentityH)
        } else if str_eq(name, "None") {
            Ok(BaseEncoding::Unspecified)
        } else {
            Err(PdfError::UnknownVariant { id: "BaseEncoding", name: name.to_owned() })
        }
    }
}

/// Reads the differences that a dictionary declares.
#[verifier::loop_isolation(false)]
fn read_differences(dict: &mut Dictionary, r: &impl Resolve) -> (res: Result<
    Vec<(u32, String)>,
    PdfError,
>)
    ensures
        final(dict)@ == dict_remove(old(dict)@, "Differences"@),
        match res {
            Ok(v) => differences_of(old(dict)@, r) == Ok::<Seq<(u32, Seq<char>)>, ErrorView>(
                differences_view(v@),
            ),
            Err(e) => differences_of(old(dict)@, r) == Err::<Seq<(u32, Seq<char>)>, ErrorView>(
                e@,
            ),
        },
{
    let mut out: Vec<(u32, String)> = Vec::new();
    assert(differences_view(out@) =~= Seq::empty());
    let p = match dict.remove("Differences") {
        None => {
            return Ok(out);
        },
        Some(p) => p,
    };
    let items = match p.into_array(r) {
        Ok(items) => items,
        Err(e) => {
            return Err(e);
        },
    };
    let ghost views = prims_view(items@);
    let n = items.len();
    let mut code: u32 = 0;
    let mut i: usize = 0;
    while i < n
        invariant
            i <= n,
            n == items@.len(),
            differences_upto(views, i as int) == Ok::<(Seq<(u32, Seq<char>)>, u32), ErrorView>(
                (differences_view(out@), code),
            ),
        decreases n - i,
    {
        match &items[i] {
            Primitive::Integer(c) => {
                if *c >= 0 {
                    code = *c as u32;
                } else {
                    proof {
                        assert(differences_upto(views, i + 1) is Err);
                        lemma_differences_fail(views, i + 1, n as int);
                    }
                    return Err(PdfError::Other { msg: "negative integer".to_string() });
                }
            },
            Primitive::Name(name) => {
                let ghost before = differences_view(out@);
                out.push((code, name.clone()));
                assert(differences_view(out@) =~= before.push((code, name@)));
                code = code.wrapping_add(1);
            },
            q => {
                proof {
                    assert(differences_upto(views, i + 1) is Err);
                    lemma_differences_fail(views, i + 1, n as int);
                }
                return Err(
                    PdfError::UnexpectedPrimitive {
                        expected: "Integer or Name",
                        found: q.get_debug_name(),
                    },
                );
            },
        }
        i += 1;
    }
    Ok(out)
}

impl Encoding {
    /// Reads an encoding from a name or a dictionary, through references.
    pub fn from_primitive(p: Primitive, r: &impl Resolve) -> (res: Result<Encoding, PdfError>)
        ensures
            result_view(res) == encoding_of(p@, r),
    {
        match p.resolved(r) {
            Err(e) => Err(e),
            Ok(Primitive::Name(name)) => match BaseEncoding::from_name(name.as_str()) {
                Ok(base) => {
                    let differences: Vec<(u32, String)> = Vec::new();
                    assert(differences_view(differences@) =~= Seq::empty());
                    Ok(Encoding { base, differences })
                },
                Err(e) => Err(e),
            },
            Ok(Primitive::Dictionary(dict)) => {
                let mut dict = dict;
                let base = match dict.remove("BaseEncoding") {
                    None => BaseEncoding::Unspecified,
                    Some(b) => {
                        let name = match crate::object::name_from_primitive(b, r) {
                            Ok(name) => name,
                            Err(e) => {
                                return Err(e);
                            },
                        };
                        match BaseEncoding::from_name(name.as_str()) {
                            Ok(base) => base,
                            Err(e) => {
                                return Err(e);
                            },
                        }
                    },
                };
                match read_differences(&mut dict, r) {
                    Ok(differences) => Ok(Encoding { base, differences }),
                    Err(e) => Err(e),
                }
            },
            Ok(q) => Err(
                PdfError::UnexpectedPrimitive {
                    expected: "Dictionary or Name",
                    found: q.get_debug_name(),
                },
            ),
        }
    }

    /// The glyph name set for a code: that of the last entry for it.
    pub fn difference(&self, code: u32) -> (name: Option<&String>)
        ensures
            match name {
                Some(s) => exists|i: int|
                    0 <= i < self@.differences.len() && self@.differences[i] == (code, s@)
                        && forall|j: int|
                        i < j < self@.differences.len() ==> self@.differences[j].0 != code,
                None => forall|i: int|
                    0 <= i < self@.differences.len() ==> self@.differences[i].0 != code,
            },
    {
        let mut i: usize = self.differences.len();
        while i > 0
            invariant
                i <= self.differences@.len(),
                forall|j: int| i <= j < self.differences@.len() ==> self@.differences[j].0 != code,
            decreases i,
        {
            i -= 1;
            if self.differences[i].0 == code {
                assert(self@.differences[i as int] == (code, self.differences@[i as int].1@));
                return Some(&self.differences[i].1);
            }
        }
        None
    }
}

} // verus!
