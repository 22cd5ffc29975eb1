//! Row predictors: each byte of a row is stored as its difference from a
//! value predicted from the bytes to its left and above it.

use crate::error::{ErrorView, PdfError};
use vstd::prelude::*;

verus! {

/// How a row is predicted; the tag byte in front of a row names one.
#[derive(Debug, Clone, Copy, PartialEq, Eq, Structural)]
#[allow(dead_code)]
pub enum PredictorType {
    /// Tag 0: nothing is predicted.
    NoFilter,
    /// Tag 1: the byte one pixel to the left.
    Sub,
    /// Tag 2: the byte above.
    Up,
    /// Tag 3: the mean of the two, rounded down.
    Avg,
    /// Tag 4: whichever of left, above and upper left is nearest to
    /// `left + above - upper left`.
    Paeth,
}

/// The predictor that a tag byte names.
pub open spec fn predictor_of(n: u8) -> Option<PredictorType> {
    if n == 0 {
        Some(PredictorType::NoFilter)
    } else if n == 1 {
        Some(PredictorType::Sub)
    } else if n == 2 {
        Some(PredictorType::Up)
    } else if n == 3 {
        Some(PredictorType::Avg)
    } else if n == 4 {
        Some(PredictorType::Paeth)
    } else {
        None
    }
}

/// Distance between two numbers.
pub open spec fn distance(x: int, y: int) -> int {
    if x >= y {
        x - y
    } else {
        y - x
    }
}

/// The Paeth predictor: of left `a`, above `b` and upper left `c`, the one
/// nearest to `a + b - c`; on a tie `a` before `b` before `c`.
pub open spec fn paeth(a: u8, b: u8, c: u8) -> u8 {
    let p = a + b - c;
    let pa = distance(p, a as int);
    let pb = distance(p, b as int);
    let pc = distance(p, c as int);
    if pa <= pb && pa <= pc {
        a
    } else if pb <= pc {
        b
    } else {
        c
    }
}

/// The value predicted for byte `i` of a row, from the row's own bytes
/// `row` and the bytes `prev` of the row above. A pixel is `bpp` bytes
/// wide; left of the first pixel everything counts as zero.
pub open spec fn predicted(
    kind: PredictorType,
    bpp: int,
    prev: Seq<u8>,
    row: Seq<u8>,
    i: int,
) -> u8 {
    let left = if i >= bpp {
        row[i - bpp]
    } else {
        0u8
    };
    let up = prev[i];
    let up_left = if i >= bpp {
        prev[i - bpp]
    } else {
        0u8
    };
    match kind {
        PredictorType::NoFilter => 0u8,
        PredictorType::Sub => left,
        PredictorType::Up => up,
        PredictorType::Avg => ((left + up) / 2) as u8,
        PredictorType::Paeth => paeth(left, up, up_left),
    }
}

/// The first `n` bytes of the row that the stored bytes `inp` stand for:
/// each is the stored byte plus its prediction, modulo 256.
pub open spec fn unfiltered_prefix(
    kind: PredictorType,
    bpp: int,
    prev: Seq<u8>,
    inp: Seq<u8>,
    n: int,
) -> Seq<u8>
    decreases n,
{
    if n <= 0 {
        Seq::empty()
    } else {
        let done = unfiltered_prefix(kind, bpp, prev, inp, n - 1);
        done.push(inp[n - 1].wrapping_add(predicted(kind, bpp, prev, done, n - 1)))
    }
}

/// The row that the stored bytes `inp` stand for.
pub open spec fn unfiltered(kind: PredictorType, bpp: int, prev: Seq<u8>, inp: Seq<u8>) -> Seq<
    u8,
> {
    unfiltered_prefix(kind, bpp, prev, inp, inp.len() as int)
}

/// The bytes stored for the row `row`: each byte minus its prediction,
/// modulo 256.
pub open spec fn filtered(kind: PredictorType, bpp: int, prev: Seq<u8>, row: Seq<u8>) -> Seq<u8> {
    Seq::new(row.len(), |i: int| row[i].wrapping_sub(predicted(kind, bpp, prev, row, i)))
}

/// A prediction looks only at bytes of the row left of the one predicted.
pub proof fn lemma_predicted_local(
    kind: PredictorType,
    bpp: int,
    prev: Seq<u8>,
    a: Seq<u8>,
    b: Seq<u8>,
    i: int,
)
    requires
        bpp >= 1,
        0 <= i <= a.len(),
        i <= b.len(),
        forall|j: int| 0 <= j < i ==> a[j] == b[j],
    ensures
        predicted(kind, bpp, prev, a, i) == predicted(kind, bpp, prev, b, i),
{
}

/// The unfiltered row, byte by byte: it is as long as the stored row, its
/// prefixes are the shorter results, and each byte is the stored byte plus
/// the prediction made from the row itself.
pub proof fn lemma_unfiltered(kind: PredictorType, bpp: int, prev: Seq<u8>, inp: Seq<u8>, n: int)
    requires
        bpp >= 1,
        0 <= n <= inp.len(),
    ensures
        unfiltered_prefix(kind, bpp, prev, inp, n).len() == n,
        forall|i: int|
            0 <= i < n ==> #[trigger] unfiltered_prefix(kind, bpp, prev, inp, n)[i] == inp[i].wrapping_add(
                predicted(kind, bpp, prev, unfiltered_prefix(kind, bpp, prev, inp, n), i),
            ),
        forall|m: int, i: int|
            0 <= i < m <= n ==> #[trigger] unfiltered_prefix(kind, bpp, prev, inp, m)[i]
                == unfiltered_prefix(kind, bpp, prev, inp, n)[i],
    decreases n,
{
    if n > 0 {
        lemma_unfiltered(kind, bpp, prev, inp, n - 1);
        let done = unfiltered_prefix(kind, bpp, prev, inp, n - 1);
        let full = unfiltered_prefix(kind, bpp, prev, inp, n);
        assert(full == done.push(inp[n - 1].wrapping_add(predicted(kind, bpp, prev, done, n - 1))));
        assert forall|i: int| 0 <= i < n implies #[trigger] full[i] == inp[i].wrapping_add(
            predicted(kind, bpp, prev, full, i),
        ) by {
            lemma_predicted_local(kind, bpp, prev, done, full, i);
        }
        assert forall|m: int, i: int| 0 <= i < m <= n implies #[trigger] unfiltered_prefix(
            kind,
            bpp,
            prev,
            inp,
            m,
        )[i] == full[i] by {
            if m < n {
                assert(unfiltered_prefix(kind, bpp, prev, inp, m)[i] == done[i]);
            }
        }
    }
}

/// Filtering undoes unfiltering: for every predictor, and every stored row
/// and row above of one length, the row that the stored bytes stand for is
/// stored as those bytes again.
pub proof fn lemma_filter_unfilter(kind: PredictorType, bpp: int, prev: Seq<u8>, raw: Seq<u8>)
    requires
        bpp >= 1,
        prev.len() == raw.len(),
    ensures
        filtered(kind, bpp, prev, unfiltered(kind, bpp, prev, raw)) == raw,
{
    lemma_unfiltered(kind, bpp, prev, raw, raw.len() as int);
    let row = unfiltered(kind, bpp, prev, raw);
    assert forall|i: int| 0 <= i < raw.len() implies filtered(kind, bpp, prev, row)[i]
        == raw[i] by {
        let p = predicted(kind, bpp, prev, row, i);
        assert(row[i] == raw[i].wrapping_add(p));
    }
    assert(filtered(kind, bpp, prev, row) =~= raw);
}

/// Unfiltering undoes filtering: the bytes stored for a row stand for that
/// row.
pub proof fn lemma_unfilter_filter(kind: PredictorType, bpp: int, prev: Seq<u8>, row: Seq<u8>)
    requires
        bpp >= 1,
        prev.len() == row.len(),
    ensures
        unfiltered(kind, bpp, prev, filtered(kind, bpp, prev, row)) == row,
{
    let stored = filtered(kind, bpp, prev, row);
    lemma_unfilter_filter_prefix(kind, bpp, prev, row, row.len() as int);
    assert(unfiltered(kind, bpp, prev, stored) =~= row);
}

/// The first `n` bytes that the stored bytes of a row stand for are the
/// first `n` bytes of the row.
proof fn lemma_unfilter_filter_prefix(
    kind: PredictorType,
    bpp: int,
    prev: Seq<u8>,
    row: Seq<u8>,
    n: int,
)
    requires
        bpp >= 1,
        prev.len() == row.len(),
        0 <= n <= row.len(),
    ensures
        unfiltered_prefix(kind, bpp, prev, filtered(kind, bpp, prev, row), n) == row.subrange(0, n),
    decreases n,
{
    let stored = filtered(kind, bpp, prev, row);
    if n > 0 {
        lemma_unfilter_filter_prefix(kind, bpp, prev, row, n - 1);
        let done = row.subrange(0, n - 1);
        lemma_predicted_local(kind, bpp, prev, done, row, n - 1);
        let p = predicted(kind, bpp, prev, row, n - 1);
        assert(stored[n - 1] == row[n - 1].wrapping_sub(p));
        assert(done.push(stored[n - 1].wrapping_add(p)) =~= row.subrange(0, n));
    } else {
        assert(unfiltered_prefix(kind, bpp, prev, stored, n) =~= row.subrange(0, n));
    }
}

impl PredictorType {
    /// The predictor that a tag byte names: 0 to 4 name one, any other
    /// byte fails with `IncorrectPredictorType`.
    pub fn from_u8(n: u8) -> (res: Result<PredictorType, PdfError>)
        ensures
            match res {
                Ok(kind) => predictor_of(n) == Some(kind),
                Err(e) => predictor_of(n) is None && e@ == (ErrorView::IncorrectPredictorType {
                    n,
                }),
            },
    {
        match n {
            0 => Ok(PredictorType::NoFilter),
            1 => Ok(PredictorType::Sub),
            2 => Ok(PredictorType::Up),
            3 => Ok(PredictorType::Avg),
            4 => Ok(PredictorType::Paeth),
            n => Err(PdfError::IncorrectPredictorType { n }),
        }
    }
}

/// The Paeth predictor of left `a`, above `b` and upper left `c`.
pub fn filter_paeth(a: u8, b: u8, c: u8) -> (r: u8)
    ensures
        r == paeth(a, b, c),
{
    let ia = a as i16;
    let ib = b as i16;
    let ic = c as i16;

    let p = ia + ib - ic;

    let pa = if p >= ia { p - ia } else { ia - p };
    let pb = if p >= ib { p - ib } else { ib - p };
    let pc = if p >= ic { p - ic } else { ic - p };

    if pa <= pb && pa <= pc {
        a
    } else if pb <= pc {
        b
    } else {
        c
    }
}

/// The value predicted for byte `i` of `row`.
fn predict(kind: PredictorType, bpp: usize, prev: &[u8], row: &[u8], i: usize) -> (p: u8)
    requires
        bpp >= 1,
        i < row@.len(),
        prev@.len() == row@.len(),
    ensures
        p == predicted(kind, bpp as int, prev@, row@, i as int),
{
    match kind {
        PredictorType::NoFilter => 0,
        PredictorType::Sub => if i >= bpp { row[i - bpp] } else { 0 },
        PredictorType::Up => prev[i],
        PredictorType::Avg => {
            let left: u16 = if i >= bpp { row[i - bpp] as u16 } else { 0 };
            ((left + prev[i] as u16) / 2) as u8
        },
        PredictorType::Paeth => {
            if i >= bpp {
                filter_paeth(row[i - bpp], prev[i], prev[i - bpp])
            } else {
                filter_paeth(0, prev[i], 0)
            }
        },
    }
}

/// Recovers a row from its stored bytes: `out` becomes the row that `inp`
/// stands for under the predictor `filter`, given the row above, `prev`.
///
/// A pixel is `bpp` bytes wide, at least one. The three rows have one
/// length.
pub fn unfilter(filter: PredictorType, bpp: usize, prev: &[u8], inp: &[u8], out: &mut [u8])
    requires
        bpp >= 1,
        inp@.len() == old(out)@.len(),
        inp@.len() == prev@.len(),
    ensures
        final(out)@ == unfiltered(filter, bpp as int, prev@, inp@),
        final(out)@.len() == inp@.len(),
        forall|i: int|
            0 <= i < inp@.len() ==> #[trigger] final(out)@[i] == inp@[i].wrapping_add(
                predicted(filter, bpp as int, prev@, final(out)@, i),
            ),
{
    let len = inp.len();
    let mut i: usize = 0;
    while i < len
        invariant
            bpp >= 1,
            i <= len,
            len == inp@.len(),
            len == prev@.len(),
            len == out@.len(),
            out@.subrange(0, i as int) == unfiltered_prefix(
                filter,
                bpp as int,
                prev@,
                inp@,
                i as int,
            ),
        decreases len - i,
    {
        let p = predict(filter, bpp, prev, out, i);
        let ghost before = out@;
        proof {
            lemma_predicted_local(
                filter,
                bpp as int,
                prev@,
                before,
                before.subrange(0, i as int),
                i as int,
            );
        }
        out[i] = inp[i].wrapping_add(p);
        assert(out@.subrange(0, i + 1) =~= before.subrange(0, i as int).push(out@[i as int]));
        i += 1;
    }
    proof {
        assert(out@.subrange(0, len as int) =~= out@);
        lemma_unfiltered(filter, bpp as int, prev@, inp@, len as int);
    }
}

/// Turns a row into its stored bytes, in place: each byte of `current`
/// becomes its difference from the value that `method` predicts for it,
/// given the row above, `previous`.
///
/// A pixel is `bpp` bytes wide, at least one. The two rows have one
/// length.
#[allow(unused)]
pub fn filter(method: PredictorType, bpp: usize, previous: &[u8], current: &mut [u8])
    requires
        bpp >= 1,
        previous@.len() == old(current)@.len(),
    ensures
        final(current)@ == filtered(method, bpp as int, previous@, old(current)@),
{
    let len = current.len();
    let mut i: usize = len;
    while i > 0
        invariant
            bpp >= 1,
            i <= len,
            len == current@.len(),
            len == previous@.len(),
            len == old(current)@.len(),
            forall|j: int| 0 <= j < i ==> current@[j] == old(current)@[j],
            forall|j: int|
                i <= j < len ==> current@[j] == old(current)@[j].wrapping_sub(
                    predicted(method, bpp as int, previous@, old(current)@, j),
                ),
        decreases i,
    {
        i -= 1;
        let p = predict(method, bpp, previous, current, i);
        proof {
            lemma_predicted_local(method, bpp as int, previous@, current@, old(current)@, i as int);
        }
        current[i] = current[i].wrapping_sub(p);
    }
    assert(current@ =~= filtered(method, bpp as int, previous@, old(current)@));
}

} // verus!
