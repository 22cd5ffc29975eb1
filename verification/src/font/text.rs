//! Turning the bytes of a shown string into text, by a font's Unicode map.

use crate::cmap::{CMap, CodeMap};
use crate::encoding::BaseEncoding;
use crate::font::{Font, FontView};
use std::rc::Rc;
use vstd::prelude::*;

verus! {

/// A font together with its map from codes to text.
#[derive(Debug)]
pub struct FontInfo {
    pub font: Rc<Font>,
    pub cmap: CMap,
}

/// The text of two-byte codes: every two neighbouring bytes of `data`,
/// from byte `from` on, are a code, high byte first; a code that has a
/// text in the map gives that text, any other gives nothing.
pub open spec fn wide_text(data: Seq<u8>, map: CodeMap, from: int) -> Seq<char>
    decreases data.len() - from,
{
    if from < 0 || from + 1 >= data.len() {
        Seq::empty()
    } else {
        let code = (data[from] as int * 256 + data[from + 1] as int) as u16;
        (if map.contains_key(code) {
            map[code]
        } else {
            Seq::empty()
        }) + wide_text(data, map, from + 1)
    }
}

/// The text of one-byte codes, from byte `from` on: a code that has a
/// text in the map gives that text, any other gives the character whose
/// number it is.
pub open spec fn narrow_text(data: Seq<u8>, map: CodeMap, from: int) -> Seq<char>
    decreases data.len() - from,
{
    if from < 0 || from >= data.len() {
        Seq::empty()
    } else {
        (if map.contains_key(data[from] as u16) {
            map[data[from] as u16]
        } else {
            seq![data[from] as char]
        }) + narrow_text(data, map, from + 1)
    }
}

/// The text that the bytes of a shown string stand for in a font: none
/// where the font declares no encoding; two-byte codes where its base
/// encoding is `Identity-H`; one-byte codes else.
pub open spec fn shown_text(data: Seq<u8>, font: FontView, map: CodeMap) -> Seq<char> {
    match font.encoding {
        None => Seq::empty(),
        Some(encoding) => {
            if encoding.base == BaseEncoding::IdentityH {
                wide_text(data, map, 0)
            } else {
                narrow_text(data, map, 0)
            }
        },
    }
}

/// Appends to `out` the text that `data` stands for in the font.
pub fn add_string(data: &[u8], out: &mut String, info: &FontInfo)
    ensures
        final(out)@ == old(out)@ + shown_text(data@, info.font@, info.cmap@),
{
    let ghost start = out@;
    let ghost map = info.cmap@;
    if let Some(encoding) = info.font.encoding() {
        match encoding.base {
            BaseEncoding::IdentityH => {
                let n = data.len();
                let mut i: usize = 0;
                while i < n && n - i >= 2
                    invariant
                        n == data@.len(),
                        i <= n,
                        map == info.cmap@,
                        start + wide_text(data@, map, 0) == out@ + wide_text(data@, map, i as int),
                    decreases n - i,
                {
                    let cp: u16 = data[i] as u16 * 256 + data[i + 1] as u16;
                    let ghost before = out@;
                    let ghost rest = wide_text(data@, map, i + 1);
                    if let Some(s) = info.cmap.get(cp) {
                        out.push_str(s.as_str());
                        assert(before + (s@ + rest) =~= (before + s@) + rest);
                    } else {
                        assert(before + (Seq::<char>::empty() + rest) =~= before + rest);
                    }
                    i += 1;
                }
                assert(out@ + wide_text(data@, map, i as int) =~= out@);
            },
            _ => {
                let n = data.len();
                let mut i: usize = 0;
                while i < n
                    invariant
                        n == data@.len(),
                        i <= n,
                        map == info.cmap@,
                        start + narrow_text(data@, map, 0) == out@ + narrow_text(
                            data@,
                            map,
                            i as int,
                        ),
                    decreases n - i,
                {
                    let b = data[i];
                    let ghost before = out@;
                    let ghost rest = narrow_text(data@, map, i + 1);
                    if let Some(s) = info.cmap.get(b as u16) {
                        out.push_str(s.as_str());
                        assert(before + (s@ + rest) =~= (before + s@) + rest);
                    } else {
                        out.push(b as char);
                        assert(before + (seq![b as char] + rest) =~= before.push(b as char) + rest);
                    }
                    i += 1;
                }
                assert(out@ + narrow_text(data@, map, i as int) =~= out@);
            },
        }
    } else {
        assert(start + Seq::<char>::empty() =~= start);
    }
}

} // verus!
