//! The hexadecimal codec: two digits per byte, high digit first.

use crate::error::{result_view, ErrorView, PdfError};
use itertools::Itertools;
use vstd::prelude::*;

verus! {

/// Value of a hexadecimal digit, `None` for any other byte.
pub open spec fn nibble(c: u8) -> Option<u8> {
    if 0x30 <= c <= 0x39 {
        Some((c - 0x30) as u8)
    } else if 0x61 <= c <= 0x66 {
        Some((c - 0x61 + 10) as u8)
    } else if 0x41 <= c <= 0x46 {
        Some((c - 0x41 + 10) as u8)
    } else {
        None
    }
}

/// Whether the `k`-th pair of bytes is a pair of digits.
pub open spec fn pair_ok(data: Seq<u8>, k: int) -> bool {
    nibble(data[2 * k]) is Some && nibble(data[2 * k + 1]) is Some
}

/// The byte that the `k`-th pair of digits stands for.
pub open spec fn pair_value(data: Seq<u8>, k: int) -> u8 {
    (nibble(data[2 * k]).unwrap() * 16 + nibble(data[2 * k + 1]).unwrap()) as u8
}

/// Index of the first pair at or after `from` that is not a pair of digits;
/// the number of whole pairs if there is none.
pub open spec fn first_bad_pair(data: Seq<u8>, from: int) -> int
    decreases data.len() / 2 - from,
{
    if from < 0 || from >= data.len() / 2 {
        data.len() as int / 2
    } else if !pair_ok(data, from) {
        from
    } else {
        first_bad_pair(data, from + 1)
    }
}

/// What decoding `data` gives. The first pair that is not two digits is
/// reported with its offset; if every pair is good and one byte is left
/// over, that byte is reported at its offset, beside a zero.
pub open spec fn hex_decode_spec(data: Seq<u8>) -> Result<Seq<u8>, ErrorView> {
    let n = data.len() as int / 2;
    let k = first_bad_pair(data, 0);
    if k < n {
        Err(
            ErrorView::HexDecode {
                pos: (2 * k) as usize,
                bytes: seq![data[2 * k], data[2 * k + 1]],
            },
        )
    } else if data.len() % 2 == 1 {
        Err(
            ErrorView::HexDecode {
                pos: (data.len() - 1) as usize,
                bytes: seq![data[data.len() - 1], 0u8],
            },
        )
    } else {
        Ok(Seq::new(n as nat, |i: int| pair_value(data, i)))
    }
}

/// The lower-case digit for a value below sixteen.
pub open spec fn digit(v: int) -> u8 {
    if v < 10 {
        (0x30 + v) as u8
    } else {
        (0x61 + v - 10) as u8
    }
}

/// The hexadecimal text of `bytes`, in lower case.
pub open spec fn hex_encode_spec(bytes: Seq<u8>) -> Seq<u8> {
    Seq::new(
        2 * bytes.len(),
        |i: int|
            if i % 2 == 0 {
                digit(bytes[i / 2] as int / 16)
            } else {
                digit(bytes[i / 2] as int % 16)
            },
    )
}

/// `first_bad_pair` finds the least bad pair: every pair before it, from
/// `from` on, is good, and it is bad itself unless it is the pair count.
pub proof fn lemma_first_bad_pair(data: Seq<u8>, from: int)
    requires
        0 <= from <= data.len() / 2,
    ensures
        from <= first_bad_pair(data, from) <= data.len() / 2,
        forall|k: int| from <= k < first_bad_pair(data, from) ==> pair_ok(data, k),
        first_bad_pair(data, from) < data.len() / 2 ==> !pair_ok(
            data,
            first_bad_pair(data, from),
        ),
    decreases data.len() / 2 - from,
{
    if from < data.len() / 2 && pair_ok(data, from) {
        lemma_first_bad_pair(data, from + 1);
    }
}

/// If every pair in `[from, upto)` is good, the search from `from` goes on
/// from `upto`.
proof fn lemma_first_bad_pair_skip(data: Seq<u8>, from: int, upto: int)
    requires
        0 <= from <= upto <= data.len() / 2,
        forall|k: int| from <= k < upto ==> pair_ok(data, k),
    ensures
        first_bad_pair(data, from) == first_bad_pair(data, upto),
    decreases upto - from,
{
    if from < upto {
        lemma_first_bad_pair_skip(data, from + 1, upto);
    }
}

/// Decoding undoes encoding: for every byte sequence, the digits written
/// for it decode to it again.
pub proof fn lemma_hex_round_trip(bytes: Seq<u8>)
    ensures
        hex_decode_spec(hex_encode_spec(bytes)) == Ok::<Seq<u8>, ErrorView>(bytes),
{
    let text = hex_encode_spec(bytes);
    assert forall|k: int| 0 <= k < bytes.len() implies pair_ok(text, k) && pair_value(text, k)
        == bytes[k] by {
        assert(text[2 * k] == digit(bytes[k] as int / 16));
        assert(text[2 * k + 1] == digit(bytes[k] as int % 16));
    }
    lemma_first_bad_pair_skip(text, 0, bytes.len() as int);
    assert(hex_decode_spec(text)->Ok_0 =~= bytes);
}

/// Input of odd length, and input that holds a byte that is no digit, fail
/// with a `HexDecode` error whose position lies inside the input.
pub proof fn lemma_hex_rejects(data: Seq<u8>)
    requires
        data.len() % 2 == 1 || exists|i: int| 0 <= i < data.len() && nibble(data[i]) is None,
    ensures
        hex_decode_spec(data) matches Err(ErrorView::HexDecode { pos, .. }) && pos < data.len(),
{
    lemma_first_bad_pair(data, 0);
    if data.len() % 2 == 0 {
        let i = choose|i: int| 0 <= i < data.len() && nibble(data[i]) is None;
        assert(!pair_ok(data, i / 2));
    }
}

/// Value of a hexadecimal digit, `None` for any other byte. Both cases of
/// the letters `a` to `f` are digits.
pub fn decode_nibble(c: u8) -> (v: Option<u8>)
    ensures
        v == nibble(c),
        v matches Some(n) ==> n < 16,
{
    if 0x30 <= c && c <= 0x39 {
        Some(c - 0x30)
    } else if 0x61 <= c && c <= 0x66 {
        Some(c - 0x61 + 10)
    } else if 0x41 <= c && c <= 0x46 {
        Some(c - 0x41 + 10)
    } else {
        None
    }
}

/// Pairs the bytes up in order, by `Itertools::tuples`: pair `k` holds the
/// bytes at `2k` and `2k + 1`, and a last byte without a partner is left
/// out. Trusted: the grouping is the outside crate's.
#[verifier::external_body]
fn byte_pairs(data: &[u8]) -> (pairs: Vec<(u8, u8)>)
    ensures
        pairs@.len() == data@.len() / 2,
        forall|k: int| 0 <= k < pairs@.len() ==> pairs@[k] == (data@[2 * k], data@[2 * k + 1]),
{
    data.iter().copied().tuples().collect()
}

/// Decodes hexadecimal text: each pair of digits gives one byte.
///
/// Fails with `HexDecode` at the first pair that is not two digits, naming
/// its offset and its two bytes; a single byte left over after the last
/// pair fails in the same way, reported beside a zero byte.
pub fn decode_hex(data: &[u8]) -> (res: Result<Vec<u8>, PdfError>)
    ensures
        result_view(res) == hex_decode_spec(data@),
{
    let pairs = byte_pairs(data);
    let n = data.len();
    let mut out: Vec<u8> = Vec::new();
    let mut i: usize = 0;
    while i < pairs.len()
        invariant
            i <= pairs@.len(),
            n == data@.len(),
            pairs@.len() == data@.len() / 2,
            forall|k: int| 0 <= k < pairs@.len() ==> pairs@[k] == (data@[2 * k], data@[2 * k + 1]),
            forall|k: int| 0 <= k < i ==> pair_ok(data@, k),
            out@.len() == i,
            forall|k: int| 0 <= k < i ==> out@[k] == pair_value(data@, k),
        decreases pairs@.len() - i,
    {
        let (high, low) = pairs[i];
        match (decode_nibble(low), decode_nibble(high)) {
            (Some(l), Some(h)) => {
                assert((h << 4 | l) == h * 16 + l) by (bit_vector)
                    requires
                        h < 16,
                        l < 16,
                ;
                out.push(h << 4 | l);
            },
            _ => {
                proof {
                    lemma_first_bad_pair_skip(data@, 0, i as int);
                }
                let e = PdfError::HexDecode { pos: i * 2, bytes: [high, low] };
                assert(e@->HexDecode_bytes =~= seq![high, low]);
                return Err(e);
            },
        }
        i += 1;
    }
    proof {
        lemma_first_bad_pair_skip(data@, 0, i as int);
    }
    if n % 2 == 1 {
        let last = data[n - 1];
        let e = PdfError::HexDecode { pos: n - 1, bytes: [last, 0] };
        assert(e@->HexDecode_bytes =~= seq![last, 0u8]);
        return Err(e);
    }
    assert(out@ =~= Seq::new((data@.len() / 2) as nat, |k: int| pair_value(data@, k)));
    Ok(out)
}

/// The lower-case hexadecimal digit for a value below sixteen.
fn encode_nibble(v: u8) -> (c: u8)
    requires
        v < 16,
    ensures
        c == digit(v as int),
        nibble(c) == Some(v),
{
    if v < 10 {
        0x30 + v
    } else {
        0x61 + (v - 10)
    }
}

/// Writes each byte as two lower-case hexadecimal digits, high digit first.
pub fn encode_hex(data: &[u8]) -> (text: Vec<u8>)
    ensures
        text@ == hex_encode_spec(data@),
{
    let mut text: Vec<u8> = Vec::new();
    let mut i: usize = 0;
    while i < data.len()
        invariant
            i <= data@.len(),
            text@.len() == 2 * i,
            forall|j: int| 0 <= j < 2 * i ==> text@[j] == hex_encode_spec(data@)[j],
        decreases data@.len() - i,
    {
        let b = data[i];
        text.push(encode_nibble(b / 16));
        text.push(encode_nibble(b % 16));
        i += 1;
    }
    assert(text@ =~= hex_encode_spec(data@));
    text
}

} // verus!
