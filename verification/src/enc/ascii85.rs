//! The base-85 codec: four bytes as five symbols, with `z` for four zero
//! bytes and `~>` at the end.

use crate::error::{ErrorView, PdfError};
use vstd::prelude::*;

verus! {

/// The symbol `z`, short for a group of four zero bytes.
pub const ZERO_GROUP: u8 = 0x7a;

/// The symbol `u`, the largest digit; it fills up a last short group.
pub const MAX_SYMBOL: u8 = 0x75;

/// The two bytes `~>` that end the data.
pub open spec fn end_marker() -> Seq<u8> {
    seq![0x7eu8, 0x3eu8]
}

/// Digit value of a symbol: the bytes `!` to `u` stand for 0 to 84.
pub open spec fn sym(b: u8) -> Option<int> {
    if 0x21 <= b <= 0x75 {
        Some(b - 0x21)
    } else {
        None
    }
}

/// The number that five digits denote in base 85, first digit highest.
pub open spec fn group_value(d0: int, d1: int, d2: int, d3: int, d4: int) -> int {
    (((d0 * 85 + d1) * 85 + d2) * 85 + d3) * 85 + d4
}

/// The four bytes of a 32-bit number, highest first.
#[verifier::opaque]
pub open spec fn be_bytes(v: int) -> Seq<u8> {
    let q1 = v / 256;
    let q2 = q1 / 256;
    let q3 = q2 / 256;
    seq![(q3 % 256) as u8, (q2 % 256) as u8, (q1 % 256) as u8, (v % 256) as u8]
}

/// The word at the head of `input` and the number of bytes it takes: `z`
/// gives four zero bytes; five symbols whose number fits in 32 bits give
/// that number's bytes. `None` where the input starts with neither.
#[verifier::opaque]
pub open spec fn word_spec(input: Seq<u8>) -> Option<(int, Seq<u8>)> {
    if input.len() == 0 {
        None
    } else if input[0] == ZERO_GROUP {
        Some((1, seq![0u8, 0u8, 0u8, 0u8]))
    } else if input.len() >= 5 && sym(input[0]) is Some && sym(input[1]) is Some && sym(
        input[2],
    ) is Some && sym(input[3]) is Some && sym(input[4]) is Some && group_value(
        sym(input[0]).unwrap(),
        sym(input[1]).unwrap(),
        sym(input[2]).unwrap(),
        sym(input[3]).unwrap(),
        sym(input[4]).unwrap(),
    ) <= u32::MAX {
        Some(
            (
                5,
                be_bytes(
                    group_value(
                        sym(input[0]).unwrap(),
                        sym(input[1]).unwrap(),
                        sym(input[2]).unwrap(),
                        sym(input[3]).unwrap(),
                        sym(input[4]).unwrap(),
                    ),
                ),
            ),
        )
    } else {
        None
    }
}

/// Whether `needle` stands in `data` at offset `i`.
pub open spec fn occurs_at(data: Seq<u8>, needle: Seq<u8>, i: int) -> bool {
    0 <= i && i + needle.len() <= data.len() && data.subrange(i, i + needle.len()) == needle
}

/// The least offset at or after `from` at which `needle` stands in `data`.
pub open spec fn search_from(data: Seq<u8>, needle: Seq<u8>, from: int) -> Option<int>
    decreases data.len() - from,
{
    if from < 0 || from + needle.len() > data.len() {
        None
    } else if occurs_at(data, needle, from) {
        Some(from)
    } else if from >= data.len() {
        None
    } else {
        search_from(data, needle, from + 1)
    }
}

/// What the end of the data decodes to, once no whole word is left: the
/// symbols before `~>`, at most four, are filled up with `u` to a group of
/// five, and one byte fewer than there were symbols is kept of its word.
/// `None` where `~>` is missing, more than four bytes stand before it, or
/// the filled group is no word.
pub open spec fn tail_spec(rest: Seq<u8>) -> Option<Seq<u8>> {
    match search_from(rest, end_marker(), 0) {
        None => None,
        Some(tail_len) => {
            if tail_len >= 5 {
                None
            } else if tail_len == 0 {
                Some(Seq::empty())
            } else {
                let padded = rest.subrange(0, tail_len) + Seq::new(
                    (5 - tail_len) as nat,
                    |i: int| MAX_SYMBOL,
                );
                match word_spec(padded) {
                    None => None,
                    Some((_, word)) => Some(word.subrange(0, tail_len - 1)),
                }
            }
        },
    }
}

/// What decoding `data` gives: the bytes of its words, one after the other,
/// then those of its end; `None` where the end is malformed.
pub open spec fn decode_85_spec(data: Seq<u8>) -> Option<Seq<u8>>
    decreases data.len(),
{
    match word_spec(data) {
        Some((advance, word)) => match {
            proof {
                reveal(word_spec);
            }
            decode_85_spec(data.skip(advance))
        } {
            Some(rest) => Some(word + rest),
            None => None,
        },
        None => tail_spec(data),
    }
}

/// The number that up to four bytes denote, highest first, as if zero bytes
/// followed them.
pub open spec fn word_value(b: Seq<u8>) -> int {
    let b0: int = if b.len() > 0 { b[0] as int } else { 0 };
    let b1: int = if b.len() > 1 { b[1] as int } else { 0 };
    let b2: int = if b.len() > 2 { b[2] as int } else { 0 };
    let b3: int = if b.len() > 3 { b[3] as int } else { 0 };
    ((b0 * 256 + b1) * 256 + b2) * 256 + b3
}

/// The five symbols of a 32-bit number, highest digit first.
#[verifier::opaque]
pub open spec fn group_symbols(v: int) -> Seq<u8> {
    let q1 = v / 85;
    let q2 = q1 / 85;
    let q3 = q2 / 85;
    let q4 = q3 / 85;
    seq![
        (q4 + 0x21) as u8,
        (q3 % 85 + 0x21) as u8,
        (q2 % 85 + 0x21) as u8,
        (q1 % 85 + 0x21) as u8,
        (v % 85 + 0x21) as u8,
    ]
}

/// The base-85 text of `bytes`: `z` for each whole group of four zero
/// bytes, five symbols for any other whole group, one symbol more than
/// there are bytes for a last short group, then `~>`.
pub open spec fn encode_85_spec(bytes: Seq<u8>) -> Seq<u8>
    decreases bytes.len(),
{
    if bytes.len() >= 4 {
        let v = word_value(bytes.subrange(0, 4));
        let head = if v == 0 {
            seq![ZERO_GROUP]
        } else {
            group_symbols(v)
        };
        head + encode_85_spec(bytes.skip(4))
    } else if bytes.len() == 0 {
        end_marker()
    } else {
        group_symbols(word_value(bytes)).subrange(0, bytes.len() as int + 1) + end_marker()
    }
}

/// Digit value of a symbol: the bytes `!` to `u` stand for 0 to 84.
#[inline]
pub fn sym_85(byte: u8) -> (v: Option<u8>)
    ensures
        match v {
            Some(d) => sym(byte) == Some(d as int),
            None => sym(byte) is None,
        },
{
    if 0x21 <= byte && byte <= 0x75 {
        Some(byte - 0x21)
    } else {
        None
    }
}

/// Reads the word at the head of `input`: the number of bytes it takes and
/// its four bytes.
pub fn word_85(input: &[u8]) -> (w: Option<(u8, [u8; 4])>)
    ensures
        match w {
            Some((advance, bytes)) => word_spec(input@) == Some((advance as int, bytes@)),
            None => word_spec(input@) is None,
        },
{
    reveal(word_spec);
    if input.len() == 0 {
        return None;
    }
    if input[0] == ZERO_GROUP {
        let zeros: [u8; 4] = [0, 0, 0, 0];
        assert(zeros@ =~= seq![0u8, 0u8, 0u8, 0u8]);
        return Some((1, zeros));
    }
    if input.len() < 5 {
        return None;
    }
    match (
        sym_85(input[0]),
        sym_85(input[1]),
        sym_85(input[2]),
        sym_85(input[3]),
        sym_85(input[4]),
    ) {
        (Some(a), Some(b), Some(c), Some(d), Some(e)) => {
            let q: u64 = (((a as u64 * 85 + b as u64) * 85 + c as u64) * 85 + d as u64) * 85
                + e as u64;
            if q > 0xffff_ffff {
                None
            } else {
                let q1: u64 = q / 256;
                let q2: u64 = q1 / 256;
                let q3: u64 = q2 / 256;
                let bytes: [u8; 4] = [
                    (q3 % 256) as u8,
                    (q2 % 256) as u8,
                    (q1 % 256) as u8,
                    (q % 256) as u8,
                ];
                assert(bytes@ =~= be_bytes(q as int)) by {
                    reveal(be_bytes);
                }
                Some((5, bytes))
            }
        },
        _ => None,
    }
}

/// Finds `needle` in `data`: the least offset at which it stands.
pub fn substr(data: &[u8], needle: &[u8]) -> (at: Option<usize>)
    requires
        needle@.len() > 0,
    ensures
        match at {
            Some(i) => search_from(data@, needle@, 0) == Some(i as int),
            None => search_from(data@, needle@, 0) is None,
        },
{
    let n = needle.len();
    let len = data.len();
    let mut i: usize = 0;
    while i < len && n <= len - i
        invariant
            n == needle@.len(),
            len == data@.len(),
            n > 0,
            i <= len,
            search_from(data@, needle@, 0) == search_from(data@, needle@, i as int),
        decreases len - i,
    {
        let mut j: usize = 0;
        while j < n && data[i + j] == needle[j]
            invariant
                n == needle@.len(),
                len == data@.len(),
                i + n <= len,
                j <= n,
                forall|k: int| 0 <= k < j ==> data@[i + k] == needle@[k],
            decreases n - j,
        {
            j += 1;
        }
        if j == n {
            assert(data@.subrange(i as int, i + n) =~= needle@);
            return Some(i);
        }
        assert(!occurs_at(data@, needle@, i as int)) by {
            if occurs_at(data@, needle@, i as int) {
                assert(data@.subrange(i as int, i + n)[j as int] == needle@[j as int]);
            }
        }
        i += 1;
    }
    None
}

/// Joins what was decoded so far with what the rest decodes to.
pub open spec fn prepend(done: Seq<u8>, rest: Option<Seq<u8>>) -> Option<Seq<u8>> {
    match rest {
        Some(r) => Some(done + r),
        None => None,
    }
}

/// Decodes the end of the data, from the first byte that starts no word.
fn decode_tail(rest: &[u8]) -> (t: Option<Vec<u8>>)
    ensures
        match t {
            Some(bytes) => tail_spec(rest@) == Some(bytes@),
            None => tail_spec(rest@) is None,
        },
{
    let eod: [u8; 2] = [0x7e, 0x3e];
    assert(eod@ =~= end_marker());
    let tail_len = match substr(rest, eod.as_slice()) {
        Some(n) => n,
        None => {
            return None;
        },
    };
    let mut out: Vec<u8> = Vec::new();
    if tail_len >= 5 {
        return None;
    }
    if tail_len == 0 {
        assert(out@ =~= Seq::<u8>::empty());
        return Some(out);
    }
    proof {
        lemma_search_from(rest@, end_marker(), 0);
    }
    let mut tail: [u8; 5] = [MAX_SYMBOL, MAX_SYMBOL, MAX_SYMBOL, MAX_SYMBOL, MAX_SYMBOL];
    let mut k: usize = 0;
    while k < tail_len
        invariant
            k <= tail_len < 5,
            tail_len <= rest@.len(),
            forall|j: int| 0 <= j < k ==> tail@[j] == rest@[j],
            forall|j: int| k <= j < 5 ==> tail@[j] == MAX_SYMBOL,
        decreases tail_len - k,
    {
        tail[k] = rest[k];
        k += 1;
    }
    assert(tail@ =~= rest@.subrange(0, tail_len as int) + Seq::new(
        (5 - tail_len) as nat,
        |i: int| MAX_SYMBOL,
    ));
    match word_85(tail.as_slice()) {
        None => None,
        Some((_, last)) => {
            let mut m: usize = 0;
            while m < tail_len - 1
                invariant
                    0 < tail_len < 5,
                    m <= tail_len - 1,
                    out@ == last@.subrange(0, m as int),
                decreases tail_len - 1 - m,
            {
                out.push(last[m]);
                assert(out@ =~= last@.subrange(0, m + 1));
                m += 1;
            }
            Some(out)
        },
    }
}

/// Decodes base-85 text.
///
/// Whole words are read for as long as one stands at the head of what is
/// left; `~>` must follow within four bytes, and the symbols before it
/// form the last, short group. Fails with `Ascii85TailError` where `~>` is
/// missing or what stands before it is no such group.
pub fn decode_85(data: &[u8]) -> (res: Result<Vec<u8>, PdfError>)
    ensures
        match res {
            Ok(bytes) => decode_85_spec(data@) == Some(bytes@),
            Err(e) => decode_85_spec(data@) is None && e@ == ErrorView::Ascii85TailError,
        },
{
    let len = data.len();
    let mut out: Vec<u8> = Vec::new();
    let mut pos: usize = 0;
    assert(data@.skip(0) =~= data@);
    loop
        invariant
            len == data@.len(),
            pos <= len,
            decode_85_spec(data@) == prepend(out@, decode_85_spec(data@.skip(pos as int))),
        ensures
            word_spec(data@.skip(pos as int)) is None,
        decreases len - pos,
    {
        let rest = &data[pos..len];
        assert(rest@ =~= data@.skip(pos as int));
        match word_85(rest) {
            Some((advance, word)) => {
                proof {
                    lemma_decode_step(data@.skip(pos as int), out@);
                    assert(data@.skip(pos as int).skip(advance as int) =~= data@.skip(
                        pos + advance,
                    ));
                }
                let ghost before = out@;
                out.push(word[0]);
                out.push(word[1]);
                out.push(word[2]);
                out.push(word[3]);
                assert(out@ =~= before + word@);
                pos += advance as usize;
            },
            None => {
                break ;
            },
        }
    }
    let rest = &data[pos..len];
    assert(rest@ =~= data@.skip(pos as int));
    match decode_tail(rest) {
        Some(mut last) => {
            out.append(&mut last);
            Ok(out)
        },
        None => Err(PdfError::Ascii85TailError),
    }
}

/// One step of decoding: where a word stands at the head of `rest`, what
/// `rest` decodes to after `done` is what the remainder decodes to after
/// `done` and the word.
proof fn lemma_decode_step(rest: Seq<u8>, done: Seq<u8>)
    requires
        word_spec(rest) is Some,
    ensures
        word_spec(rest).unwrap().1.len() == 4,
        1 <= word_spec(rest).unwrap().0 <= rest.len(),
        prepend(done, decode_85_spec(rest)) == prepend(
            done + word_spec(rest).unwrap().1,
            decode_85_spec(rest.skip(word_spec(rest).unwrap().0)),
        ),
{
    reveal(word_spec);
    reveal(be_bytes);
    let (advance, word) = word_spec(rest).unwrap();
    let tail = decode_85_spec(rest.skip(advance));
    if tail is Some {
        assert(done + (word + tail.unwrap()) =~= (done + word) + tail.unwrap());
    }
}

/// The five symbols of a 32-bit number, highest digit first.
fn group_85(v: u32) -> (g: [u8; 5])
    ensures
        g@ == group_symbols(v as int),
{
    let q1: u32 = v / 85;
    let q2: u32 = q1 / 85;
    let q3: u32 = q2 / 85;
    let q4: u32 = q3 / 85;
    let g: [u8; 5] = [
        (q4 + 0x21) as u8,
        (q3 % 85 + 0x21) as u8,
        (q2 % 85 + 0x21) as u8,
        (q1 % 85 + 0x21) as u8,
        (v % 85 + 0x21) as u8,
    ];
    assert(g@ =~= group_symbols(v as int)) by {
        reveal(group_symbols);
    }
    g
}

/// The number that the bytes of `data` from `at` on denote, highest first:
/// four of them, or as many as are left, as if zero bytes followed.
fn word_at(data: &[u8], at: usize) -> (v: u32)
    requires
        at <= data@.len(),
    ensures
        data@.len() - at >= 4 ==> v == word_value(data@.subrange(at as int, at + 4)),
        data@.len() - at < 4 ==> v == word_value(data@.skip(at as int)),
{
    let left = data.len() - at;
    let b0: u32 = if left > 0 { data[at] as u32 } else { 0 };
    let b1: u32 = if left > 1 { data[at + 1] as u32 } else { 0 };
    let b2: u32 = if left > 2 { data[at + 2] as u32 } else { 0 };
    let b3: u32 = if left > 3 { data[at + 3] as u32 } else { 0 };
    ((b0 * 256 + b1) * 256 + b2) * 256 + b3
}

/// Writes bytes as base-85 text, ended by `~>`.
pub fn encode_85(data: &[u8]) -> (text: Vec<u8>)
    ensures
        text@ == encode_85_spec(data@),
{
    let len = data.len();
    let mut text: Vec<u8> = Vec::new();
    let mut pos: usize = 0;
    assert(data@.skip(0) =~= data@);
    while len - pos >= 4
        invariant
            len == data@.len(),
            pos <= len,
            encode_85_spec(data@) == text@ + encode_85_spec(data@.skip(pos as int)),
        decreases len - pos,
    {
        let v = word_at(data, pos);
        let ghost before = text@;
        let ghost rest = data@.skip(pos as int);
        proof {
            assert(rest.subrange(0, 4) =~= data@.subrange(pos as int, pos + 4));
            assert(rest.skip(4) =~= data@.skip(pos + 4));
        }
        if v == 0 {
            text.push(ZERO_GROUP);
            assert(text@ =~= before + seq![ZERO_GROUP]);
        } else {
            let g = group_85(v);
            text.push(g[0]);
            text.push(g[1]);
            text.push(g[2]);
            text.push(g[3]);
            text.push(g[4]);
            assert(text@ =~= before + g@);
        }
        proof {
            let head = if v == 0 {
                seq![ZERO_GROUP]
            } else {
                group_symbols(v as int)
            };
            assert(before + (head + encode_85_spec(rest.skip(4))) =~= (before + head)
                + encode_85_spec(rest.skip(4)));
        }
        pos += 4;
    }
    let left = len - pos;
    let ghost before = text@;
    if left > 0 {
        let g = group_85(word_at(data, pos));
        let mut k: usize = 0;
        while k <= left
            invariant
                0 < left < 4,
                k <= left + 1,
                text@ == before + g@.subrange(0, k as int),
                g@.len() == 5,
            decreases left + 1 - k,
        {
            text.push(g[k]);
            assert(text@ =~= before + g@.subrange(0, k + 1));
            k += 1;
        }
    }
    let ghost symbols = text@;
    text.push(0x7e);
    text.push(0x3e);
    proof {
        assert(text@ =~= symbols + end_marker());
        let rest = data@.skip(pos as int);
        if left > 0 {
            assert(before + (group_symbols(word_value(rest)).subrange(0, left + 1) + end_marker())
                =~= (before + group_symbols(word_value(rest)).subrange(0, left + 1))
                + end_marker());
        }
    }
    text
}

/// The symbols written for a 32-bit number are symbols, none of them `z`,
/// and denote that number again.
proof fn lemma_group_symbols(v: int)
    requires
        0 <= v <= u32::MAX,
    ensures
        group_symbols(v).len() == 5,
        forall|i: int|
            0 <= i < 5 ==> 0x21 <= #[trigger] group_symbols(v)[i] <= 0x75 && sym(
                group_symbols(v)[i],
            ) is Some,
        group_value(
            sym(group_symbols(v)[0]).unwrap(),
            sym(group_symbols(v)[1]).unwrap(),
            sym(group_symbols(v)[2]).unwrap(),
            sym(group_symbols(v)[3]).unwrap(),
            sym(group_symbols(v)[4]).unwrap(),
        ) == v,
{
    reveal(group_symbols);
    let q1 = v / 85;
    let q2 = q1 / 85;
    let q3 = q2 / 85;
    let q4 = q3 / 85;
    assert(q4 < 85);
    let s = group_symbols(v);
    assert(sym(s[0]) == Some(q4));
    assert(sym(s[1]) == Some(q3 % 85));
    assert(sym(s[2]) == Some(q2 % 85));
    assert(sym(s[3]) == Some(q1 % 85));
    assert(sym(s[4]) == Some(v % 85));
}

/// Four bytes denote a 32-bit number whose bytes they are; the number is
/// zero only where all four are.
proof fn lemma_word_bytes(b: Seq<u8>)
    requires
        b.len() == 4,
    ensures
        0 <= word_value(b) <= u32::MAX,
        be_bytes(word_value(b)) == b,
        word_value(b) == 0 ==> b == seq![0u8, 0u8, 0u8, 0u8],
{
    reveal(be_bytes);
    let v = word_value(b);
    assert(v / 256 == (b[0] * 256 + b[1]) * 256 + b[2]);
    assert(v / 256 / 256 == b[0] * 256 + b[1]);
    assert(be_bytes(v) =~= b);
    if v == 0 {
        assert(b =~= seq![0u8, 0u8, 0u8, 0u8]);
    }
}

/// The digits of a number whose low three bytes are zero, cut after the
/// second and filled up with the largest digit, denote a number with the
/// same high byte.
proof fn lemma_fill_after_two(v: int, b0: int)
    requires
        0 <= b0 < 256,
        v == b0 * 16777216,
    ensures
        ({
            let q3 = v / 85 / 85 / 85;
            let w = group_value(q3 / 85, q3 % 85, 84, 84, 84);
            0 <= w <= u32::MAX && w / 256 / 256 / 256 == b0
        }),
{
    let q1 = v / 85;
    let q2 = q1 / 85;
    let q3 = q2 / 85;
    let w = group_value(q3 / 85, q3 % 85, 84, 84, 84);
    assert(w == q3 * 614125 + 614124);
    assert(v <= w < v + 16777216);
}

/// The same after the third digit, for a number whose low two bytes are
/// zero: the high two bytes stay.
proof fn lemma_fill_after_three(v: int, high: int)
    requires
        0 <= high < 65536,
        v == high * 65536,
    ensures
        ({
            let q2 = v / 85 / 85;
            let w = group_value(q2 / 85 / 85, q2 / 85 % 85, q2 % 85, 84, 84);
            0 <= w <= u32::MAX && w / 256 / 256 == high
        }),
{
    let q1 = v / 85;
    let q2 = q1 / 85;
    let w = group_value(q2 / 85 / 85, q2 / 85 % 85, q2 % 85, 84, 84);
    assert(w == q2 * 7225 + 7224);
    assert(v <= w < v + 65536);
}

/// The same after the fourth digit, for a number whose low byte is zero:
/// the high three bytes stay.
proof fn lemma_fill_after_four(v: int, high: int)
    requires
        0 <= high < 16777216,
        v == high * 256,
    ensures
        ({
            let q1 = v / 85;
            let w = group_value(q1 / 85 / 85 / 85, q1 / 85 / 85 % 85, q1 / 85 % 85, q1 % 85, 84);
            0 <= w <= u32::MAX && w / 256 == high
        }),
{
    let q1 = v / 85;
    let w = group_value(q1 / 85 / 85 / 85, q1 / 85 / 85 % 85, q1 / 85 % 85, q1 % 85, 84);
    assert(w == q1 * 85 + 84);
    assert(v <= w < v + 256);
}

/// The digit values of the symbols of a 32-bit number.
proof fn lemma_symbol_digits(v: int)
    requires
        0 <= v <= u32::MAX,
    ensures
        sym(group_symbols(v)[0]) == Some(v / 85 / 85 / 85 / 85),
        sym(group_symbols(v)[1]) == Some(v / 85 / 85 / 85 % 85),
        sym(group_symbols(v)[2]) == Some(v / 85 / 85 % 85),
        sym(group_symbols(v)[3]) == Some(v / 85 % 85),
        sym(group_symbols(v)[4]) == Some(v % 85),
{
    reveal(group_symbols);
}

/// The bytes of a 32-bit number, one by one.
proof fn lemma_be_bytes(v: int)
    requires
        0 <= v <= u32::MAX,
    ensures
        be_bytes(v).len() == 4,
        be_bytes(v)[0] == v / 256 / 256 / 256,
        be_bytes(v)[1] == v / 256 / 256 % 256,
        be_bytes(v)[2] == v / 256 % 256,
        be_bytes(v)[3] == v % 256,
{
    reveal(be_bytes);
}

/// The word that five symbols with the given digits stand for.
proof fn lemma_word_of_digits(g: Seq<u8>, d0: int, d1: int, d2: int, d3: int, d4: int)
    requires
        g.len() == 5,
        g[0] != ZERO_GROUP,
        sym(g[0]) == Some(d0),
        sym(g[1]) == Some(d1),
        sym(g[2]) == Some(d2),
        sym(g[3]) == Some(d3),
        sym(g[4]) == Some(d4),
        group_value(d0, d1, d2, d3, d4) <= u32::MAX,
    ensures
        word_spec(g) == Some((5int, be_bytes(group_value(d0, d1, d2, d3, d4)))),
{
    reveal(word_spec);
}

/// A word depends on the first five bytes only, where its first byte is
/// not `z`.
proof fn lemma_word_of_prefix(text: Seq<u8>, g: Seq<u8>)
    requires
        g.len() == 5,
        text.len() >= 5,
        forall|i: int| 0 <= i < 5 ==> text[i] == g[i],
    ensures
        word_spec(text) == word_spec(g),
{
    reveal(word_spec);
}

/// The word of a group whose symbols carry the given digits, as far as the
/// bytes that the lemmas on filling up speak of.
proof fn lemma_filled_word(padded: Seq<u8>, d0: int, d1: int, d2: int, d3: int, d4: int)
    requires
        padded.len() == 5,
        padded[0] != ZERO_GROUP,
        sym(padded[0]) == Some(d0),
        sym(padded[1]) == Some(d1),
        sym(padded[2]) == Some(d2),
        sym(padded[3]) == Some(d3),
        sym(padded[4]) == Some(d4),
        0 <= group_value(d0, d1, d2, d3, d4) <= u32::MAX,
    ensures
        word_spec(padded) matches Some((_, word)) && word.len() == 4 && ({
            let w = group_value(d0, d1, d2, d3, d4);
            &&& word[0] == w / 256 / 256 / 256
            &&& word[1] == w / 256 / 256 % 256
            &&& word[2] == w / 256 % 256
        }),
{
    lemma_word_of_digits(padded, d0, d1, d2, d3, d4);
    lemma_be_bytes(group_value(d0, d1, d2, d3, d4));
}

/// A last group of one to three bytes: its symbols, filled up with `u`,
/// are a word, and the word starts with those bytes.
proof fn lemma_short_group(b: Seq<u8>)
    requires
        1 <= b.len() <= 3,
    ensures
        ({
            let padded = group_symbols(word_value(b)).subrange(0, b.len() as int + 1) + Seq::new(
                (4 - b.len()) as nat,
                |i: int| MAX_SYMBOL,
            );
            word_spec(padded) matches Some((_, word)) && word.len() == 4 && word.subrange(
                0,
                b.len() as int,
            ) == b
        }),
{
    let n = b.len() as int;
    let v = word_value(b);
    assert(0 <= v <= u32::MAX);
    lemma_group_symbols(v);
    lemma_symbol_digits(v);
    let s = group_symbols(v);
    let padded = s.subrange(0, n + 1) + Seq::new((4 - n) as nat, |i: int| MAX_SYMBOL);
    assert(sym(MAX_SYMBOL) == Some(84int));
    assert(padded.len() == 5);
    assert(padded[0] == s[0] && padded[0] != ZERO_GROUP);
    assert(padded[1] == s[1]);
    let d0 = v / 85 / 85 / 85 / 85;
    let d1 = v / 85 / 85 / 85 % 85;
    if n == 1 {
        assert(padded[2] == MAX_SYMBOL && padded[3] == MAX_SYMBOL && padded[4] == MAX_SYMBOL);
        let high = b[0] as int;
        assert(v == high * 16777216);
        lemma_fill_after_two(v, high);
        lemma_filled_word(padded, d0, d1, 84, 84, 84);
        let word = word_spec(padded).unwrap().1;
        assert(word[0] == b[0]);
        assert(word.subrange(0, 1) =~= b);
    } else if n == 2 {
        assert(padded[2] == s[2]);
        assert(padded[3] == MAX_SYMBOL && padded[4] == MAX_SYMBOL);
        let d2 = v / 85 / 85 % 85;
        let high = b[0] * 256 + b[1];
        assert(v == high * 65536);
        lemma_fill_after_three(v, high);
        lemma_filled_word(padded, d0, d1, d2, 84, 84);
        let word = word_spec(padded).unwrap().1;
        let w = group_value(d0, d1, d2, 84, 84);
        assert(w / 256 / 256 == high);
        assert(word[0] == b[0]);
        assert(word[1] == b[1]);
        assert(word.subrange(0, 2) =~= b);
    } else {
        assert(padded[2] == s[2]);
        assert(padded[3] == s[3]);
        assert(padded[4] == MAX_SYMBOL);
        let d2 = v / 85 / 85 % 85;
        let d3 = v / 85 % 85;
        let high = (b[0] * 256 + b[1]) * 256 + b[2];
        assert(v == high * 256);
        lemma_fill_after_four(v, high);
        lemma_filled_word(padded, d0, d1, d2, d3, 84);
        let word = word_spec(padded).unwrap().1;
        let w = group_value(d0, d1, d2, d3, 84);
        assert(w / 256 == high);
        assert(word[0] == b[0]);
        assert(word[1] == b[1]);
        assert(word[2] == b[2]);
        assert(word.subrange(0, 3) =~= b);
    }
}

/// Where `needle` stands at `at` and nowhere from `from` up to `at`, the
/// search from `from` finds it at `at`.
proof fn lemma_search_finds(data: Seq<u8>, needle: Seq<u8>, from: int, at: int)
    requires
        0 <= from <= at,
        occurs_at(data, needle, at),
        forall|j: int| from <= j < at ==> !occurs_at(data, needle, j),
    ensures
        search_from(data, needle, from) == Some(at),
    decreases at - from,
{
    if from < at {
        lemma_search_finds(data, needle, from + 1, at);
    }
}

/// The end of encoded data decodes to the short group it was written for.
proof fn lemma_tail_round_trip(b: Seq<u8>)
    requires
        b.len() < 4,
    ensures
        word_spec(encode_85_spec(b)) is None,
        tail_spec(encode_85_spec(b)) == Some(b),
{
    reveal(word_spec);
    let n = b.len() as int;
    let text = encode_85_spec(b);
    let eod = end_marker();
    if n == 0 {
        assert(text =~= eod);
        assert(text.subrange(0, 2) =~= eod);
        lemma_search_finds(text, eod, 0, 0);
        assert(b =~= Seq::<u8>::empty());
    } else {
        let v = word_value(b);
        lemma_group_symbols(v);
        lemma_short_group(b);
        let s = group_symbols(v);
        let head = s.subrange(0, n + 1);
        assert(text == head + eod);
        assert(text.len() == n + 3);
        assert(text[0] == s[0]);
        assert(text[n + 1] == 0x7eu8);
        assert(sym(0x7eu8) is None);
        assert forall|j: int| 0 <= j < n + 1 implies !occurs_at(text, eod, j) by {
            assert(text[j] == s[j]);
            if occurs_at(text, eod, j) {
                assert(text.subrange(j, j + 2)[0] == eod[0]);
            }
        }
        assert(text.subrange(n + 1, n + 3) =~= eod);
        lemma_search_finds(text, eod, 0, n + 1);
        assert(text.subrange(0, n + 1) =~= head);
    }
}

/// Decoding undoes encoding: for every byte sequence, whole groups of
/// zeros and lengths that are no multiple of four included, the text
/// written for it decodes to it again.
pub proof fn lemma_base85_round_trip(bytes: Seq<u8>)
    ensures
        decode_85_spec(encode_85_spec(bytes)) == Some(bytes),
    decreases bytes.len(),
{
    let text = encode_85_spec(bytes);
    if bytes.len() < 4 {
        lemma_tail_round_trip(bytes);
    } else {
        let first = bytes.subrange(0, 4);
        let v = word_value(first);
        let rest = encode_85_spec(bytes.skip(4));
        lemma_word_bytes(first);
        lemma_base85_round_trip(bytes.skip(4));
        if v == 0 {
            assert(text == seq![ZERO_GROUP] + rest);
            assert(text[0] == ZERO_GROUP);
            assert(text.skip(1) =~= rest);
            assert(word_spec(text) == Some((1int, seq![0u8, 0u8, 0u8, 0u8]))) by {
                reveal(word_spec);
            }
        } else {
            lemma_group_symbols(v);
            let s = group_symbols(v);
            assert(text == s + rest);
            assert(text[0] == s[0] && text[1] == s[1] && text[2] == s[2] && text[3] == s[3]
                && text[4] == s[4]);
            assert(text.skip(5) =~= rest);
            lemma_word_of_prefix(text, s);
            lemma_word_of_digits(
                s,
                sym(s[0]).unwrap(),
                sym(s[1]).unwrap(),
                sym(s[2]).unwrap(),
                sym(s[3]).unwrap(),
                sym(s[4]).unwrap(),
            );
            assert(word_spec(text) == Some((5int, first)));
        }
        assert(first + bytes.skip(4) =~= bytes);
    }
}

/// `search_from` finds the least offset: `needle` stands at the offset it
/// gives and at none before it, from `from` on; it gives none only where
/// `needle` stands nowhere from `from` on.
pub proof fn lemma_search_from(data: Seq<u8>, needle: Seq<u8>, from: int)
    requires
        0 <= from,
    ensures
        match search_from(data, needle, from) {
            Some(i) => from <= i && occurs_at(data, needle, i) && forall|j: int|
                from <= j < i ==> !occurs_at(data, needle, j),
            None => forall|j: int| from <= j ==> !occurs_at(data, needle, j),
        },
    decreases data.len() - from,
{
    if from + needle.len() <= data.len() && !occurs_at(data, needle, from) && from < data.len() {
        lemma_search_from(data, needle, from + 1);
    }
}

} // verus!
