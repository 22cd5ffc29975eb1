//! Deflate, followed by the row predictor that the parameters ask for.

use crate::enc::predictor::{predictor_of, unfilter, unfiltered, unfiltered_prefix, PredictorType};
use crate::error::{result_view, ErrorView, PdfError};
use inflate::{inflate_bytes, inflate_bytes_zlib};
use vstd::prelude::*;

verus! {

/// Parameters of the LZW and Flate filters.
#[derive(Debug, Clone, Copy)]
pub struct LZWFlateParams {
    /// Which predictor was applied before compression; above 10, each row
    /// names its own.
    pub predictor: i32,
    /// Colour components per sample.
    pub n_components: i32,
    /// Bits per colour component.
    pub bits_per_component: i32,
    /// Samples per row.
    pub columns: i32,
    /// Whether LZW code lengths grow one code early.
    pub early_change: i32,
}

/// What `inflate_bytes_zlib` returns for `data`: the content of a zlib
/// stream, or the decoder's complaint.
pub uninterp spec fn zlib_inflated(data: Seq<u8>) -> Result<Seq<u8>, Seq<char>>;

/// What `inflate_bytes` returns for `data`: the content of a bare deflate
/// stream, or the decoder's complaint.
pub uninterp spec fn deflate_inflated(data: Seq<u8>) -> Result<Seq<u8>, Seq<char>>;

/// `inflate::inflate_bytes_zlib` decompresses a zlib stream, checksum and
/// all. Trusted: it returns, and what it returns depends on `data` alone;
/// that result is given the name `zlib_inflated`.
pub assume_specification[ inflate::inflate_bytes_zlib ](data: &[u8]) -> (r: Result<
    Vec<u8>,
    String,
>)
    ensures
        match r {
            Ok(bytes) => zlib_inflated(data@) == Ok::<Seq<u8>, Seq<char>>(bytes@),
            Err(msg) => zlib_inflated(data@) == Err::<Seq<u8>, Seq<char>>(msg@),
        },
;

/// `inflate::inflate_bytes` decompresses a deflate stream that has no
/// header. Trusted: it returns, and what it returns depends on `data`
/// alone; that result is given the name `deflate_inflated`.
pub assume_specification[ inflate::inflate_bytes ](data: &[u8]) -> (r: Result<Vec<u8>, String>)
    ensures
        match r {
            Ok(bytes) => deflate_inflated(data@) == Ok::<Seq<u8>, Seq<char>>(bytes@),
            Err(msg) => deflate_inflated(data@) == Err::<Seq<u8>, Seq<char>>(msg@),
        },
;

/// Bytes per pixel: components times bits per component, rounded up to
/// whole bytes. One where either count is not positive.
pub open spec fn stride(params: LZWFlateParams) -> int {
    if params.n_components >= 1 && params.bits_per_component >= 1 {
        (params.n_components * params.bits_per_component + 7) / 8
    } else {
        1
    }
}

/// The tag byte in front of row `r`.
pub open spec fn row_tag(inp: Seq<u8>, columns: int, r: int) -> u8 {
    inp[r * (columns + 1)]
}

/// The stored bytes of row `r`, without its tag.
pub open spec fn row_stored(inp: Seq<u8>, columns: int, r: int) -> Seq<u8> {
    inp.subrange(r * (columns + 1) + 1, (r + 1) * (columns + 1))
}

/// The row above row `r` in what has been recovered so far: all zeros
/// above the first row.
pub open spec fn row_above(done: Seq<u8>, columns: int, r: int) -> Seq<u8> {
    if r == 0 {
        Seq::new(columns as nat, |i: int| 0u8)
    } else {
        done.subrange((r - 1) * columns, r * columns)
    }
}

/// The first `n` rows recovered from tagged rows of `columns` bytes each.
/// The first tag that names no predictor fails the whole.
pub open spec fn rows_unfiltered(inp: Seq<u8>, columns: int, bpp: int, n: int) -> Result<
    Seq<u8>,
    ErrorView,
>
    decreases n,
{
    if n <= 0 {
        Ok(Seq::empty())
    } else {
        match rows_unfiltered(inp, columns, bpp, n - 1) {
            Err(e) => Err(e),
            Ok(done) => match predictor_of(row_tag(inp, columns, n - 1)) {
                None => Err(ErrorView::IncorrectPredictorType { n: row_tag(inp, columns, n - 1) }),
                Some(kind) => Ok(
                    done + unfiltered(
                        kind,
                        bpp,
                        row_above(done, columns, n - 1),
                        row_stored(inp, columns, n - 1),
                    ),
                ),
            },
        }
    }
}

/// What the predictor stage makes of decompressed bytes. A predictor of
/// 10 or less leaves them as they are. Above that they are as many tagged
/// rows as fit, each recovered from the row before; bytes after the last
/// whole row are left out. A negative column count is refused.
pub open spec fn unpredict_spec(inp: Seq<u8>, params: LZWFlateParams) -> Result<
    Seq<u8>,
    ErrorView,
> {
    if params.predictor <= 10 {
        Ok(inp)
    } else if params.columns < 0 {
        Err(ErrorView::Other { msg: "negative Columns in predictor parameters"@ })
    } else {
        rows_unfiltered(
            inp,
            params.columns as int,
            stride(params),
            inp.len() as int / (params.columns + 1),
        )
    }
}

/// What the whole filter makes of what the two decompressors return: the
/// zlib result where there is one, else the bare deflate result, then the
/// predictor stage; the second complaint where both fail.
pub open spec fn flate_spec(
    zlib: Result<Seq<u8>, Seq<char>>,
    bare: Result<Seq<u8>, Seq<char>>,
    params: LZWFlateParams,
) -> Result<Seq<u8>, ErrorView> {
    match zlib {
        Ok(bytes) => unpredict_spec(bytes, params),
        Err(_) => match bare {
            Ok(bytes) => unpredict_spec(bytes, params),
            Err(msg) => Err(ErrorView::Other { msg }),
        },
    }
}

/// A pixel width beyond the row's end predicts like any other beyond it.
proof fn lemma_wide_stride(
    kind: PredictorType,
    bpp1: int,
    bpp2: int,
    prev: Seq<u8>,
    inp: Seq<u8>,
    n: int,
)
    requires
        0 <= n <= inp.len(),
        bpp1 >= inp.len(),
        bpp2 >= inp.len(),
    ensures
        unfiltered_prefix(kind, bpp1, prev, inp, n) == unfiltered_prefix(kind, bpp2, prev, inp, n),
    decreases n,
{
    if n > 0 {
        lemma_wide_stride(kind, bpp1, bpp2, prev, inp, n - 1);
    }
}

/// Bytes per pixel, for use as an index distance: `stride`, or the largest
/// index where `stride` is beyond it.
fn pixel_stride(params: &LZWFlateParams) -> (bpp: usize)
    ensures
        bpp >= 1,
        bpp == stride(*params) || (bpp == usize::MAX && stride(*params) > usize::MAX),
{
    if params.n_components >= 1 && params.bits_per_component >= 1 {
        let n: u64 = params.n_components as u64;
        let b: u64 = params.bits_per_component as u64;
        assert(1 <= n * b <= 0x4000_0000_0000_0000) by (nonlinear_arith)
            requires
                1 <= n <= 0x7fff_ffff,
                1 <= b <= 0x7fff_ffff,
        ;
        let bits: u64 = n * b;
        let bytes: u64 = (bits + 7) / 8;
        if bytes > usize::MAX as u64 {
            usize::MAX
        } else {
            bytes as usize
        }
    } else {
        1
    }
}

/// The predictor stage: recovers the rows from decompressed bytes, as the
/// parameters ask.
pub fn unpredict(inp: Vec<u8>, params: &LZWFlateParams) -> (res: Result<Vec<u8>, PdfError>)
    ensures
        result_view(res) == unpredict_spec(inp@, *params),
{
    if params.predictor <= 10 {
        return Ok(inp);
    }
    if params.columns < 0 {
        return Err(
            PdfError::Other { msg: "negative Columns in predictor parameters".to_string() },
        );
    }
    let columns = params.columns as usize;
    let bpp = pixel_stride(params);
    let len = inp.len();
    let rows = len / (columns + 1);
    let ghost cols = columns as int;
    let ghost spec_bpp = stride(*params);
    proof {
        assert(rows * (cols + 1) <= len) by (nonlinear_arith)
            requires
                rows == len as int / (cols + 1),
                cols >= 0,
        ;
        assert(rows * cols <= rows * (cols + 1)) by (nonlinear_arith)
            requires
                rows >= 0,
                cols >= 0,
        ;
    }

    // output buffer
    let mut out: Vec<u8> = Vec::new();
    if rows == 0 {
        return Ok(out);
    }
    // the row above the first is all zeros
    let mut prev_row: Vec<u8> = vec![0u8; columns];
    let mut row_out: Vec<u8> = vec![0u8; columns];
    assert(prev_row@ =~= row_above(out@, cols, 0));

    let mut r: usize = 0;
    let mut in_off: usize = 0;  // offset of the row's tag in the input
    while r < rows
        invariant
            r <= rows,
            len == inp@.len(),
            cols == columns,
            columns <= i32::MAX,
            params.predictor > 10,
            params.columns == columns,
            spec_bpp == stride(*params),
            rows == len as int / (cols + 1),
            rows * (cols + 1) <= len,
            in_off == r * (cols + 1),
            bpp >= 1,
            spec_bpp >= 1,
            bpp == spec_bpp || (bpp == usize::MAX && spec_bpp > usize::MAX),
            rows_unfiltered(inp@, cols, spec_bpp, r as int) == Ok::<Seq<u8>, ErrorView>(out@),
            out@.len() == r * cols,
            prev_row@ == row_above(out@, cols, r as int),
            prev_row@.len() == columns,
            row_out@.len() == columns,
        decreases rows - r,
    {
        proof {
            assert((r + 1) * (cols + 1) <= rows * (cols + 1)) by (nonlinear_arith)
                requires
                    r < rows,
                    cols >= 0,
            ;
            assert((r + 1) * (cols + 1) == r * (cols + 1) + cols + 1) by (nonlinear_arith);
            assert((r + 1) * cols == r * cols + cols) by (nonlinear_arith);
        }
        let tag = inp[in_off];
        let kind = match PredictorType::from_u8(tag) {
            Ok(kind) => kind,
            Err(e) => {
                proof {
                    assert(row_tag(inp@, cols, r as int) == tag);
                    assert(rows_unfiltered(inp@, cols, spec_bpp, r as int + 1) == Err::<
                        Seq<u8>,
                        ErrorView,
                    >(ErrorView::IncorrectPredictorType { n: tag }));
                    lemma_rows_fail(inp@, cols, spec_bpp, r as int + 1, rows as int);
                }
                return Err(e);
            },
        };
        let row_in = &inp[in_off + 1..in_off + 1 + columns];
        assert(row_in@ =~= row_stored(inp@, cols, r as int));
        unfilter(kind, bpp, prev_row.as_slice(), row_in, row_out.as_mut_slice());
        proof {
            if bpp != spec_bpp {
                lemma_wide_stride(kind, bpp as int, spec_bpp, prev_row@, row_in@, cols);
            }
        }
        let ghost before = out@;
        let mut k: usize = 0;
        while k < columns
            invariant
                k <= columns,
                row_out@.len() == columns,
                out@ == before + row_out@.subrange(0, k as int),
            decreases columns - k,
        {
            out.push(row_out[k]);
            assert(out@ =~= before + row_out@.subrange(0, k + 1));
            k += 1;
        }
        assert(row_out@.subrange(0, columns as int) =~= row_out@);
        std::mem::swap(&mut prev_row, &mut row_out);
        r += 1;
        in_off += columns + 1;
        assert(prev_row@ =~= row_above(out@, cols, r as int));
    }
    Ok(out)
}

/// Once the first `n` rows fail, so do the first `m`, for any `m` from `n`
/// on, and with the same error.
proof fn lemma_rows_fail(inp: Seq<u8>, columns: int, bpp: int, n: int, m: int)
    requires
        0 <= n <= m,
        rows_unfiltered(inp, columns, bpp, n) is Err,
    ensures
        rows_unfiltered(inp, columns, bpp, m) == rows_unfiltered(inp, columns, bpp, n),
    decreases m - n,
{
    if n < m {
        lemma_rows_fail(inp, columns, bpp, n, m - 1);
    }
}

/// Decompresses `data` and undoes the predictor.
///
/// The data is read as a zlib stream first; where that fails it is read
/// once more as a bare deflate stream, for writers that leave the header
/// out. Fails with the decompressor's complaint where both readings fail,
/// and as the predictor stage does.
pub fn flate_decode(data: &[u8], params: &LZWFlateParams) -> (res: Result<Vec<u8>, PdfError>)
    ensures
        result_view(res) == flate_spec(zlib_inflated(data@), deflate_inflated(data@), *params),
{
    // First flate decode
    let decoded = match inflate_bytes_zlib(data) {
        Ok(bytes) => bytes,
        Err(_) => match inflate_bytes(data) {
            Ok(bytes) => bytes,
            Err(msg) => {
                return Err(PdfError::Other { msg });
            },
        },
    };
    // Then unfilter (PNG)
    unpredict(decoded, params)
}

} // verus!
