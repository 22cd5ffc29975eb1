//! The map from character codes to Unicode text that a font may carry,
//! built from the `beginbfchar` and `beginbfrange` blocks of its token
//! stream.

use crate::primitive::{prims_view, Primitive, PrimitiveView};
use crate::text::str_eq;
use byteorder::BE;
use std::collections::HashMap;
use utf16_ext::Utf16ReadExt;
use vstd::prelude::*;

verus! {

broadcast use vstd::std_specs::hash::group_hash_axioms;

/// One token of the stream: a bare word, or a value.
#[derive(Debug)]
pub enum CMapToken {
    Keyword(String),
    Value(Primitive),
}

/// Mathematical view of a [`CMapToken`].
pub ghost enum TokenView {
    Keyword(Seq<char>),
    Value(PrimitiveView),
}

impl View for CMapToken {
    type V = TokenView;

    open spec fn view(&self) -> TokenView {
        match self {
            CMapToken::Keyword(k) => TokenView::Keyword(k@),
            CMapToken::Value(p) => TokenView::Value(p@),
        }
    }
}

/// The views of a sequence of tokens.
pub open spec fn tokens_view(tokens: Seq<CMapToken>) -> Seq<TokenView> {
    Seq::new(tokens.len(), |i: int| tokens[i]@)
}

/// A map from codes to text.
pub type CodeMap = Map<u16, Seq<char>>;

/// The text that `bytes` spell as UTF-16, high byte first, as
/// `utf16_chars` reads it; `None` where they spell none.
pub uninterp spec fn utf16be_text(bytes: Seq<u8>) -> Option<Seq<char>>;

/// Reads bytes as UTF-16, high byte first, with `utf16_ext`'s
/// `utf16_chars`. Trusted: the text read depends on the bytes alone;
/// it is given the name `utf16be_text`, with `None` where the reader
/// reports bytes that spell no text.
#[verifier::external_body]
fn utf16be_to_string(data: &[u8]) -> (text: Option<String>)
    ensures
        match text {
            Some(s) => utf16be_text(data@) == Some(s@),
            None => utf16be_text(data@) is None,
        },
{
    let mut data = data;
    (&mut data).utf16_chars::<BE>().collect::<Result<String, _>>().ok()
}

/// The string bytes of the token at `i`, if there is a string there.
pub open spec fn string_at(tokens: Seq<TokenView>, i: int) -> Option<Seq<u8>> {
    if 0 <= i < tokens.len() {
        match tokens[i] {
            TokenView::Value(PrimitiveView::String(bytes)) => Some(bytes),
            _ => None,
        }
    } else {
        None
    }
}

/// The code that two bytes spell, high byte first.
pub open spec fn code_of(bytes: Seq<u8>) -> Option<u16> {
    if bytes.len() == 2 {
        Some((bytes[0] as int * 256 + bytes[1] as int) as u16)
    } else {
        None
    }
}

/// The code at token `i`, if a string of two bytes stands there.
pub open spec fn code_at(tokens: Seq<TokenView>, i: int) -> Option<u16> {
    match string_at(tokens, i) {
        Some(bytes) => code_of(bytes),
        None => None,
    }
}

/// The position after `n` tokens from `pos`, or the end of the stream.
pub open spec fn advance(tokens: Seq<TokenView>, pos: int, n: int) -> int {
    if pos + n <= tokens.len() {
        pos + n
    } else {
        tokens.len() as int
    }
}

/// A `beginbfchar` block read from `pos`: pairs of a code and its text,
/// each entered into the map. The first pair that is no such pair ends
/// the block; it is passed over. Gives the position after the block and
/// the map.
pub open spec fn bfchar_block(tokens: Seq<TokenView>, pos: int, map: CodeMap) -> (int, CodeMap)
    decreases tokens.len() - pos,
{
    if pos < 0 || pos >= tokens.len() {
        (pos, map)
    } else {
        match (code_at(tokens, pos), string_at(tokens, pos + 1)) {
            (Some(code), Some(bytes)) => match utf16be_text(bytes) {
                Some(text) => bfchar_block(tokens, pos + 2, map.insert(code, text)),
                None => (advance(tokens, pos, 2), map),
            },
            _ => (advance(tokens, pos, 2), map),
        }
    }
}

/// The bytes with the last one raised by `by`, modulo 256. Nothing is
/// carried into the byte before it.
pub open spec fn bump_last(bytes: Seq<u8>, by: int) -> Seq<u8> {
    if bytes.len() == 0 {
        bytes
    } else {
        bytes.update(bytes.len() - 1, ((bytes.last() as int + by) % 256) as u8)
    }
}

/// A range with one string: the codes from `start` to `end` get the text
/// of `bytes`, of `bytes` with the last byte raised by one, by two, and
/// so on. Gives the map, and whether every text could be read; the first
/// that cannot ends the range.
pub open spec fn range_with_string(map: CodeMap, start: int, end: int, bytes: Seq<u8>) -> (
    CodeMap,
    bool,
)
    decreases end - start + 1,
{
    if start > end {
        (map, true)
    } else {
        match utf16be_text(bytes) {
            None => (map, false),
            Some(text) => range_with_string(
                map.insert(start as u16, text),
                start + 1,
                end,
                bump_last(bytes, 1),
            ),
        }
    }
}

/// A range with an array: code `start + i` gets the text of element `i`,
/// for the elements from `from` on, as far as the codes and the elements
/// go. Gives the map, and whether every element was a string whose text
/// could be read; the first that is not ends the range.
pub open spec fn range_with_array(
    map: CodeMap,
    start: int,
    end: int,
    items: Seq<PrimitiveView>,
    from: int,
) -> (CodeMap, bool)
    decreases items.len() - from,
{
    if from < 0 || from >= items.len() || start + from > end {
        (map, true)
    } else {
        match items[from] {
            PrimitiveView::String(bytes) => match utf16be_text(bytes) {
                Some(text) => range_with_array(
                    map.insert((start + from) as u16, text),
                    start,
                    end,
                    items,
                    from + 1,
                ),
                None => (map, false),
            },
            _ => (map, false),
        }
    }
}

/// A `beginbfrange` block read from `pos`: triples of a first code, a last
/// code, and either one string or an array of strings. The first triple
/// that is no such triple, or whose text cannot be read, ends the block;
/// it is passed over.
pub open spec fn bfrange_block(tokens: Seq<TokenView>, pos: int, map: CodeMap) -> (int, CodeMap)
    decreases tokens.len() - pos,
{
    if pos < 0 || pos >= tokens.len() {
        (pos, map)
    } else {
        match (code_at(tokens, pos), code_at(tokens, pos + 1)) {
            (Some(start), Some(end)) => {
                if pos + 2 < tokens.len() {
                    match tokens[pos + 2] {
                        TokenView::Value(PrimitiveView::String(bytes)) => {
                            let (filled, whole) = range_with_string(
                                map,
                                start as int,
                                end as int,
                                bytes,
                            );
                            if whole {
                                bfrange_block(tokens, pos + 3, filled)
                            } else {
                                (pos + 3, filled)
                            }
                        },
                        TokenView::Value(PrimitiveView::Array(items)) => {
                            let (filled, whole) = range_with_array(
                                map,
                                start as int,
                                end as int,
                                items,
                                0,
                            );
                            if whole {
                                bfrange_block(tokens, pos + 3, filled)
                            } else {
                                (pos + 3, filled)
                            }
                        },
                        _ => (pos + 3, map),
                    }
                } else {
                    (advance(tokens, pos, 3), map)
                }
            },
            _ => (advance(tokens, pos, 3), map),
        }
    }
}

/// A block ends at or after the place where it began, inside the stream.
pub proof fn lemma_blocks_advance(tokens: Seq<TokenView>, pos: int, map: CodeMap)
    requires
        0 <= pos <= tokens.len(),
    ensures
        pos <= bfchar_block(tokens, pos, map).0 <= tokens.len(),
        pos <= bfrange_block(tokens, pos, map).0 <= tokens.len(),
    decreases tokens.len() - pos,
{
    if pos < tokens.len() {
        if pos + 2 <= tokens.len() {
            match (code_at(tokens, pos), string_at(tokens, pos + 1)) {
                (Some(code), Some(bytes)) => match utf16be_text(bytes) {
                    Some(text) => lemma_blocks_advance(tokens, pos + 2, map.insert(code, text)),
                    None => {},
                },
                _ => {},
            }
        }
        if pos + 3 <= tokens.len() {
            match (code_at(tokens, pos), code_at(tokens, pos + 1)) {
                (Some(start), Some(end)) => {
                    match tokens[pos + 2] {
                        TokenView::Value(PrimitiveView::String(bytes)) => {
                            let (filled, whole) = range_with_string(
                                map,
                                start as int,
                                end as int,
                                bytes,
                            );
                            lemma_blocks_advance(tokens, pos + 3, filled);
                        },
                        TokenView::Value(PrimitiveView::Array(items)) => {
                            let (filled, whole) = range_with_array(
                                map,
                                start as int,
                                end as int,
                                items,
                                0,
                            );
                            lemma_blocks_advance(tokens, pos + 3, filled);
                        },
                        _ => {},
                    }
                },
                _ => {},
            }
        }
    }
}

/// The map that the token stream builds, read from `pos` with `map` in
/// hand: `beginbfchar` and `beginbfrange` open their blocks, `endcmap`
/// ends the reading, and every other token is passed over.
pub open spec fn scan(tokens: Seq<TokenView>, pos: int, map: CodeMap) -> CodeMap
    decreases tokens.len() - pos,
{
    if pos < 0 || pos >= tokens.len() {
        map
    } else {
        match tokens[pos] {
            TokenView::Keyword(word) => {
                if word == "beginbfchar"@ {
                    let (next, filled) = bfchar_block(tokens, pos + 1, map);
                    proof {
                        lemma_blocks_advance(tokens, pos + 1, map);
                    }
                    scan(tokens, next, filled)
                } else if word == "beginbfrange"@ {
                    let (next, filled) = bfrange_block(tokens, pos + 1, map);
                    proof {
                        lemma_blocks_advance(tokens, pos + 1, map);
                    }
                    scan(tokens, next, filled)
                } else if word == "endcmap"@ {
                    map
                } else {
                    scan(tokens, pos + 1, map)
                }
            },
            TokenView::Value(_) => scan(tokens, pos + 1, map),
        }
    }
}

/// The map that a token stream builds.
pub open spec fn cmap_spec(tokens: Seq<TokenView>) -> CodeMap {
    scan(tokens, 0, Map::empty())
}

/// In a range with one string, code `start + i` gets the text of the
/// string with its last byte raised by `i`, modulo 256 and without a
/// carry, as far as each text up to that one can be read.
pub proof fn lemma_range_with_string(map: CodeMap, start: int, end: int, bytes: Seq<u8>, i: int)
    requires
        0 <= start <= end <= u16::MAX,
        0 <= i <= end - start,
        forall|j: int| 0 <= j <= i ==> utf16be_text(#[trigger] bump_last(bytes, j)) is Some,
    ensures
        range_with_string(map, start, end, bytes).0.contains_key((start + i) as u16),
        range_with_string(map, start, end, bytes).0[(start + i) as u16] == utf16be_text(
            bump_last(bytes, i),
        ).unwrap(),
    decreases i,
{
    assert(bump_last(bytes, 0) =~= bytes);
    let text = utf16be_text(bytes).unwrap();
    let first = map.insert(start as u16, text);
    if i == 0 {
        lemma_range_string_keeps(first, start + 1, end, bump_last(bytes, 1), start as u16);
    } else {
        let next = bump_last(bytes, 1);
        assert forall|j: int| 0 <= j <= i - 1 implies utf16be_text(
            #[trigger] bump_last(next, j),
        ) is Some by {
            assert(bump_last(next, j) =~= bump_last(bytes, j + 1));
        }
        lemma_range_with_string(first, start + 1, end, next, i - 1);
        assert(bump_last(next, i - 1) =~= bump_last(bytes, i));
    }
}

/// A range with one string leaves the codes below its first code alone.
proof fn lemma_range_string_keeps(map: CodeMap, start: int, end: int, bytes: Seq<u8>, code: u16)
    requires
        0 <= start,
        end <= u16::MAX,
        code < start,
    ensures
        range_with_string(map, start, end, bytes).0.contains_key(code) == map.contains_key(code),
        range_with_string(map, start, end, bytes).0[code] == map[code],
    decreases end - start + 1,
{
    if start <= end {
        match utf16be_text(bytes) {
            None => {},
            Some(text) => {
                lemma_range_string_keeps(
                    map.insert(start as u16, text),
                    start + 1,
                    end,
                    bump_last(bytes, 1),
                    code,
                );
            },
        }
    }
}

/// In a range with an array, code `start + i` gets the text of element
/// `i`, as far as each element up to that one is a string whose text can
/// be read.
pub proof fn lemma_range_with_array(
    map: CodeMap,
    start: int,
    end: int,
    items: Seq<PrimitiveView>,
    i: int,
)
    requires
        0 <= start <= end <= u16::MAX,
        0 <= i <= end - start,
        i < items.len(),
        forall|j: int|
            0 <= j <= i ==> ((#[trigger] items[j]) matches PrimitiveView::String(bytes)
                && utf16be_text(bytes) is Some),
    ensures
        range_with_array(map, start, end, items, 0).0.contains_key((start + i) as u16),
        range_with_array(map, start, end, items, 0).0[(start + i) as u16] == utf16be_text(
            items[i]->String_0,
        ).unwrap(),
{
    lemma_range_array_from(map, start, end, items, 0, i);
}

/// The same for a range read from element `from` on.
proof fn lemma_range_array_from(
    map: CodeMap,
    start: int,
    end: int,
    items: Seq<PrimitiveView>,
    from: int,
    i: int,
)
    requires
        0 <= start <= end <= u16::MAX,
        0 <= from <= i <= end - start,
        i < items.len(),
        forall|j: int|
            from <= j <= i ==> ((#[trigger] items[j]) matches PrimitiveView::String(bytes)
                && utf16be_text(bytes) is Some),
    ensures
        range_with_array(map, start, end, items, from).0.contains_key((start + i) as u16),
        range_with_array(map, start, end, items, from).0[(start + i) as u16] == utf16be_text(
            items[i]->String_0,
        ).unwrap(),
    decreases i - from,
{
    let text = utf16be_text(items[from]->String_0).unwrap();
    let first = map.insert((start + from) as u16, text);
    if from == i {
        lemma_range_array_keeps(first, start, end, items, from + 1, (start + i) as u16);
    } else {
        lemma_range_array_from(first, start, end, items, from + 1, i);
    }
}

/// A range with an array, read from element `from` on, leaves the codes
/// below `start + from` alone.
proof fn lemma_range_array_keeps(
    map: CodeMap,
    start: int,
    end: int,
    items: Seq<PrimitiveView>,
    from: int,
    code: u16,
)
    requires
        0 <= start,
        0 <= from,
        end <= u16::MAX,
        code < start + from,
    ensures
        range_with_array(map, start, end, items, from).0.contains_key(code) == map.contains_key(
            code,
        ),
        range_with_array(map, start, end, items, from).0[code] == map[code],
    decreases items.len() - from,
{
    if from < items.len() && start + from <= end {
        match items[from] {
            PrimitiveView::String(bytes) => match utf16be_text(bytes) {
                Some(text) => {
                    lemma_range_array_keeps(
                        map.insert((start + from) as u16, text),
                        start,
                        end,
                        items,
                        from + 1,
                        code,
                    );
                },
                None => {},
            },
            _ => {},
        }
    }
}

/// A map from 16-bit character codes to Unicode text.
#[derive(Debug)]
pub struct CMap {
    map: HashMap<u16, String>,
}

/// The texts of a map of strings.
pub open spec fn texts_of(m: Map<u16, String>) -> CodeMap {
    Map::new(|code: u16| m.contains_key(code), |code: u16| m[code]@)
}

impl View for CMap {
    type V = CodeMap;

    closed spec fn view(&self) -> CodeMap {
        texts_of(self.map@)
    }
}

impl CMap {
    /// The map without entries.
    pub fn new() -> (m: CMap)
        ensures
            m@ == Map::<u16, Seq<char>>::empty(),
    {
        let map: HashMap<u16, String> = HashMap::new();
        assert(texts_of(map@) =~= Map::<u16, Seq<char>>::empty());
        CMap { map }
    }

    /// The text of a code, if the map has one for it.
    pub fn get(&self, code: u16) -> (text: Option<&String>)
        ensures
            match text {
                Some(s) => self@.contains_key(code) && self@[code] == s@,
                None => !self@.contains_key(code),
            },
    {
        self.map.get(&code)
    }

    /// Number of codes that have a text.
    pub fn len(&self) -> (n: usize)
        ensures
            n == self@.dom().len(),
    {
        assert(self@.dom() =~= self.map@.dom());
        self.map.len()
    }

    /// Enters a text for a code, in place of any the code had.
    pub fn insert(&mut self, code: u16, text: String)
        ensures
            final(self)@ == old(self)@.insert(code, text@),
    {
        let ghost before = self.map@;
        self.map.insert(code, text);
        assert(texts_of(self.map@) =~= texts_of(before).insert(code, text@));
    }
}

/// The bytes of a string token.
fn token_string(tokens: &[CMapToken], i: usize) -> (s: Option<&[u8]>)
    ensures
        match s {
            Some(bytes) => string_at(tokens_view(tokens@), i as int) == Some(bytes@),
            None => string_at(tokens_view(tokens@), i as int) is None,
        },
{
    if i < tokens.len() {
        match &tokens[i] {
            CMapToken::Value(Primitive::String(s)) => Some(s.as_bytes()),
            _ => None,
        }
    } else {
        None
    }
}

/// The code that a string token of two bytes spells.
fn token_code(tokens: &[CMapToken], i: usize) -> (c: Option<u16>)
    ensures
        c == code_at(tokens_view(tokens@), i as int),
{
    match token_string(tokens, i) {
        Some(bytes) => {
            if bytes.len() == 2 {
                Some(bytes[0] as u16 * 256 + bytes[1] as u16)
            } else {
                None
            }
        },
        None => None,
    }
}

/// The position `n` tokens on, or the end of the stream.
fn step(tokens: &[CMapToken], pos: usize, n: usize) -> (next: usize)
    requires
        pos <= tokens@.len(),
        n <= 3,
    ensures
        next == advance(tokens_view(tokens@), pos as int, n as int),
        pos <= next <= tokens@.len(),
{
    if tokens.len() - pos >= n {
        pos + n
    } else {
        tokens.len()
    }
}

/// Reads a `beginbfchar` block from `pos` on.
fn read_bfchar(tokens: &[CMapToken], start_pos: usize, cmap: &mut CMap) -> (next: usize)
    requires
        start_pos <= tokens@.len(),
    ensures
        (next as int, final(cmap)@) == bfchar_block(
            tokens_view(tokens@),
            start_pos as int,
            old(cmap)@,
        ),
        start_pos <= next <= tokens@.len(),
{
    let ghost views = tokens_view(tokens@);
    let mut pos = start_pos;
    loop
        invariant
            pos <= tokens@.len(),
            views == tokens_view(tokens@),
            bfchar_block(views, start_pos as int, old(cmap)@) == bfchar_block(
                views,
                pos as int,
                cmap@,
            ),
            start_pos <= pos,
        decreases tokens@.len() - pos,
    {
        if pos >= tokens.len() {
            return pos;
        }
        let entry = match (token_code(tokens, pos), token_string(tokens, pos + 1)) {
            (Some(code), Some(bytes)) => match utf16be_to_string(bytes) {
                Some(text) => Some((code, text)),
                None => None,
            },
            _ => None,
        };
        match entry {
            Some((code, text)) => {
                cmap.insert(code, text);
                pos += 2;
            },
            None => {
                return step(tokens, pos, 2);
            },
        }
    }
}

/// Raises the last byte by one, modulo 256.
fn bump(bytes: &mut Vec<u8>)
    ensures
        final(bytes)@ == bump_last(old(bytes)@, 1),
{
    let n = bytes.len();
    if n > 0 {
        let last = bytes[n - 1];
        bytes[n - 1] = last.wrapping_add(1);
        assert(bytes@ =~= bump_last(old(bytes)@, 1));
    }
}

/// Fills a range from one string.
fn fill_from_string(cmap: &mut CMap, start: u16, end: u16, first: &[u8]) -> (whole: bool)
    ensures
        (final(cmap)@, whole) == range_with_string(old(cmap)@, start as int, end as int, first@),
{
    let mut bytes: Vec<u8> = Vec::new();
    let mut k: usize = 0;
    while k < first.len()
        invariant
            k <= first@.len(),
            bytes@ == first@.subrange(0, k as int),
        decreases first@.len() - k,
    {
        bytes.push(first[k]);
        assert(bytes@ =~= first@.subrange(0, k + 1));
        k += 1;
    }
    assert(bytes@ =~= first@);
    let mut code: u32 = start as u32;
    while code <= end as u32
        invariant
            start <= code,
            code <= end + 1 || code == start,
            range_with_string(old(cmap)@, start as int, end as int, first@) == range_with_string(
                cmap@,
                code as int,
                end as int,
                bytes@,
            ),
        decreases end + 1 - code,
    {
        match utf16be_to_string(bytes.as_slice()) {
            Some(text) => {
                cmap.insert(code as u16, text);
            },
            None => {
                return false;
            },
        }
        bump(&mut bytes);
        code += 1;
    }
    true
}

/// Fills a range from an array of strings.
fn fill_from_array(cmap: &mut CMap, start: u16, end: u16, items: &Vec<Primitive>) -> (whole: bool)
    ensures
        (final(cmap)@, whole) == range_with_array(
            old(cmap)@,
            start as int,
            end as int,
            prims_view(items@),
            0,
        ),
{
    let ghost views = prims_view(items@);
    let mut i: usize = 0;
    while i < items.len() && i <= end as usize && start as usize <= end as usize - i
        invariant
            i <= items@.len(),
            views == prims_view(items@),
            range_with_array(old(cmap)@, start as int, end as int, views, 0) == range_with_array(
                cmap@,
                start as int,
                end as int,
                views,
                i as int,
            ),
        decreases items@.len() - i,
    {
        let text = match &items[i] {
            Primitive::String(s) => utf16be_to_string(s.as_bytes()),
            _ => None,
        };
        match text {
            Some(text) => {
                cmap.insert((start as usize + i) as u16, text);
            },
            None => {
                return false;
            },
        }
        i += 1;
    }
    true
}

/// Reads a `beginbfrange` block from `pos` on.
fn read_bfrange(tokens: &[CMapToken], start_pos: usize, cmap: &mut CMap) -> (next: usize)
    requires
        start_pos <= tokens@.len(),
    ensures
        (next as int, final(cmap)@) == bfrange_block(
            tokens_view(tokens@),
            start_pos as int,
            old(cmap)@,
        ),
        start_pos <= next <= tokens@.len(),
{
    let ghost views = tokens_view(tokens@);
    let mut pos = start_pos;
    loop
        invariant
            pos <= tokens@.len(),
            views == tokens_view(tokens@),
            bfrange_block(views, start_pos as int, old(cmap)@) == bfrange_block(
                views,
                pos as int,
                cmap@,
            ),
            start_pos <= pos,
        decreases tokens@.len() - pos,
    {
        if pos >= tokens.len() {
            return pos;
        }
        let (start, end) = match (token_code(tokens, pos), token_code(tokens, pos + 1)) {
            (Some(start), Some(end)) => (start, end),
            _ => {
                return step(tokens, pos, 3);
            },
        };
        if pos + 2 >= tokens.len() {
            return step(tokens, pos, 3);
        }
        let whole = match &tokens[pos + 2] {
            CMapToken::Value(Primitive::String(s)) => fill_from_string(
                cmap,
                start,
                end,
                s.as_bytes(),
            ),
            CMapToken::Value(Primitive::Array(items)) => fill_from_array(cmap, start, end, items),
            _ => false,
        };
        pos += 3;
        if !whole {
            return pos;
        }
    }
}

/// Builds the map from codes to text out of a font's token stream.
///
/// Tokens are passed over until `beginbfchar` or `beginbfrange` opens a
/// block. A block is read entry by entry and ends with the first entry
/// that is none; the reading then goes on after it. `endcmap` ends the
/// reading. Nothing in the stream makes the reading fail.
pub fn parse_cmap(tokens: &[CMapToken]) -> (cmap: CMap)
    ensures
        cmap@ == cmap_spec(tokens_view(tokens@)),
{
    let ghost views = tokens_view(tokens@);
    let mut cmap = CMap::new();
    let mut pos: usize = 0;
    while pos < tokens.len()
        invariant
            pos <= tokens@.len(),
            views == tokens_view(tokens@),
            cmap_spec(views) == scan(views, pos as int, cmap@),
        ensures
            cmap_spec(views) == cmap@,
        decreases tokens@.len() - pos,
    {
        match &tokens[pos] {
            CMapToken::Keyword(word) => {
                if str_eq(word.as_str(), "beginbfchar") {
                    pos = read_bfchar(tokens, pos + 1, &mut cmap);
                } else if str_eq(word.as_str(), "beginbfrange") {
                    pos = read_bfrange(tokens, pos + 1, &mut cmap);
                } else if str_eq(word.as_str(), "endcmap") {
                    break ;
                } else {
                    pos += 1;
                }
            },
            CMapToken::Value(_) => {
                pos += 1;
            },
        }
    }
    cmap
}

} // verus!
