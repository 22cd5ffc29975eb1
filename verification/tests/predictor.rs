use pdf::enc::flate::LZWFlateParams;
use pdf::enc::{
    decode, filter, filter_paeth, flate_decode, unfilter, unpredict, PredictorType, StreamFilter,
};
use pdf::PdfError;

// zlib stream of the bytes [4,10,20,30, 4,1,1,1]
const ZLIB_TWO_ROWS: [u8; 16] = [120, 218, 99, 225, 18, 145, 99, 97, 100, 100, 4, 0, 1, 146, 0, 72];
// the same bytes as a bare deflate stream
const RAW_TWO_ROWS: [u8; 10] = [99, 225, 18, 145, 99, 97, 100, 100, 4, 0];
// zlib stream of the bytes [1,2,3,4,5,6]
const ZLIB_SIX: [u8; 14] = [120, 218, 99, 100, 98, 102, 97, 101, 3, 0, 0, 62, 0, 22];

fn params(predictor: i32, n_components: i32, bits_per_component: i32, columns: i32) -> LZWFlateParams {
    LZWFlateParams { predictor, n_components, bits_per_component, columns, early_change: 1 }
}

fn all_kinds() -> [PredictorType; 5] {
    [
        PredictorType::NoFilter,
        PredictorType::Sub,
        PredictorType::Up,
        PredictorType::Avg,
        PredictorType::Paeth,
    ]
}

#[test]
fn predictor_tags() {
    assert_eq!(PredictorType::from_u8(0).unwrap(), PredictorType::NoFilter);
    assert_eq!(PredictorType::from_u8(1).unwrap(), PredictorType::Sub);
    assert_eq!(PredictorType::from_u8(2).unwrap(), PredictorType::Up);
    assert_eq!(PredictorType::from_u8(3).unwrap(), PredictorType::Avg);
    assert_eq!(PredictorType::from_u8(4).unwrap(), PredictorType::Paeth);
}

#[test]
fn predictor_tag_out_of_range() {
    for n in [5u8, 6, 15, 255] {
        match PredictorType::from_u8(n) {
            Err(PdfError::IncorrectPredictorType { n: found }) => assert_eq!(found, n),
            other => panic!("unexpected result: {:?}", other),
        }
    }
}

#[test]
fn paeth_picks_the_nearest() {
    // p = a + b - c
    assert_eq!(filter_paeth(0, 0, 0), 0);
    assert_eq!(filter_paeth(0, 7, 0), 7);
    assert_eq!(filter_paeth(7, 0, 0), 7);
    assert_eq!(filter_paeth(10, 20, 30), 10); // p = 0: distances 10, 20, 30
    assert_eq!(filter_paeth(30, 20, 10), 30); // p = 40: distances 10, 20, 30
}

#[test]
fn paeth_upper_left_wins_when_nearest() {
    // a = 10, b = 30, c = 20: p = 20, pa = 10, pb = 10, pc = 0
    assert_eq!(filter_paeth(10, 30, 20), 20);
}

#[test]
fn paeth_breaks_ties_left_then_above() {
    // a = 1, b = 1, c = 1: all distances 0 -> left
    assert_eq!(filter_paeth(1, 1, 1), 1);
    // a = 2, b = 4, c = 3: p = 3, pa = 1, pb = 1, pc = 0 -> upper left
    assert_eq!(filter_paeth(2, 4, 3), 3);
    // a = 5, b = 5, c = 0: p = 10, pa = 5, pb = 5, pc = 10 -> left
    assert_eq!(filter_paeth(5, 5, 0), 5);
    // a = 0, b = 255, c = 255: p = 0, pa = 0 -> left
    assert_eq!(filter_paeth(0, 255, 255), 0);
    // a = 200, b = 100, c = 150: p = 150, pa = 50, pb = 50, pc = 0 -> upper left
    assert_eq!(filter_paeth(200, 100, 150), 150);
    // a = 100, b = 90, c = 95: p = 95 -> pc = 0
    assert_eq!(filter_paeth(100, 90, 95), 95);
    // above beats upper left on a tie: a = 0, b = 4, c = 2: p = 2, pa = 2, pb = 2, pc = 0
    assert_eq!(filter_paeth(0, 4, 2), 2);
    // a = 9, b = 3, c = 1: p = 11, pa = 2, pb = 8, pc = 10 -> left
    assert_eq!(filter_paeth(9, 3, 1), 9);
    // a = 3, b = 9, c = 1: p = 11, pa = 8, pb = 2, pc = 10 -> above
    assert_eq!(filter_paeth(3, 9, 1), 9);
}

#[test]
fn unfilter_none_copies() {
    let prev = [9u8, 9, 9, 9];
    let inp = [1u8, 2, 3, 4];
    let mut out = [0u8; 4];
    unfilter(PredictorType::NoFilter, 1, &prev, &inp, &mut out);
    assert_eq!(out, [1, 2, 3, 4]);
}

#[test]
fn unfilter_sub_adds_the_left_pixel() {
    let prev = [0u8; 6];
    let inp = [1u8, 2, 3, 4, 5, 6];
    let mut out = [0xaau8; 6];
    unfilter(PredictorType::Sub, 2, &prev, &inp, &mut out);
    // the first pixel stands as it is; then each byte adds the one two back
    assert_eq!(out, [1, 2, 4, 6, 9, 12]);
}

#[test]
fn unfilter_up_adds_the_row_above() {
    let prev = [10u8, 20, 250];
    let inp = [1u8, 2, 10];
    let mut out = [0u8; 3];
    unfilter(PredictorType::Up, 1, &prev, &inp, &mut out);
    assert_eq!(out, [11, 22, 4]);
}

#[test]
fn unfilter_avg_adds_the_mean() {
    let prev = [10u8, 21, 200];
    let inp = [1u8, 1, 1];
    let mut out = [0u8; 3];
    unfilter(PredictorType::Avg, 1, &prev, &inp, &mut out);
    // 1 + 10/2 = 6; 1 + (6 + 21)/2 = 14; 1 + (14 + 200)/2 = 108
    assert_eq!(out, [6, 14, 108]);
}

#[test]
fn unfilter_avg_does_not_wrap_the_sum() {
    let prev = [0u8, 200];
    let inp = [200u8, 0];
    let mut out = [0u8; 2];
    unfilter(PredictorType::Avg, 1, &prev, &inp, &mut out);
    // left 200, above 200: the mean is 200, not (400 mod 256) / 2
    assert_eq!(out, [200, 200]);
}

#[test]
fn unfilter_paeth_on_two_rows() {
    let zeros = [0u8; 3];
    let mut row0 = [0u8; 3];
    unfilter(PredictorType::Paeth, 3, &zeros, &[10, 20, 30], &mut row0);
    assert_eq!(row0, [10, 20, 30]);
    let mut row1 = [0u8; 3];
    unfilter(PredictorType::Paeth, 3, &row0, &[1, 1, 1], &mut row1);
    assert_eq!(row1, [11, 21, 31]);
}

#[test]
fn unfilter_with_a_pixel_wider_than_the_row() {
    let prev = [5u8, 6];
    let inp = [1u8, 2];
    for kind in [PredictorType::Sub, PredictorType::Avg, PredictorType::Paeth] {
        let mut out = [0u8; 2];
        unfilter(kind, 8, &prev, &inp, &mut out);
        let expected = match kind {
            PredictorType::Sub => [1, 2],
            PredictorType::Avg => [3, 5],
            _ => [6, 8],
        };
        assert_eq!(out, expected);
    }
}

#[test]
fn filter_sub_subtracts_the_left_pixel() {
    let prev = [0u8; 6];
    let mut row = [1u8, 2, 4, 6, 9, 12];
    filter(PredictorType::Sub, 2, &prev, &mut row);
    assert_eq!(row, [1, 2, 3, 4, 5, 6]);
}

#[test]
fn filter_none_leaves_the_row() {
    let prev = [1u8, 2, 3];
    let mut row = [7u8, 8, 9];
    filter(PredictorType::NoFilter, 1, &prev, &mut row);
    assert_eq!(row, [7, 8, 9]);
}

#[test]
fn filter_undoes_unfilter() {
    let prev: Vec<u8> = (0..32u32).map(|i| (i * 97 + 13) as u8).collect();
    let raw: Vec<u8> = (0..32u32).map(|i| (i * 203 + 101) as u8).collect();
    for kind in all_kinds() {
        for bpp in [1usize, 2, 3, 4, 7, 32, 40] {
            let mut row = vec![0u8; raw.len()];
            unfilter(kind, bpp, &prev, &raw, &mut row);
            filter(kind, bpp, &prev, &mut row);
            assert_eq!(row, raw, "{:?} with {} bytes per pixel", kind, bpp);
        }
    }
}

#[test]
fn unfilter_undoes_filter() {
    let prev: Vec<u8> = (0..24u32).map(|i| (i * 31 + 200) as u8).collect();
    let row: Vec<u8> = (0..24u32).map(|i| (i * 59 + 250) as u8).collect();
    for kind in all_kinds() {
        for bpp in [1usize, 3, 4] {
            let mut stored = row.clone();
            filter(kind, bpp, &prev, &mut stored);
            let mut back = vec![0u8; row.len()];
            unfilter(kind, bpp, &prev, &stored, &mut back);
            assert_eq!(back, row, "{:?} with {} bytes per pixel", kind, bpp);
        }
    }
}

#[test]
fn filter_on_empty_rows() {
    for kind in all_kinds() {
        let mut row: [u8; 0] = [];
        filter(kind, 1, &[], &mut row);
        let mut out: [u8; 0] = [];
        unfilter(kind, 1, &[], &[], &mut out);
    }
}

#[test]
fn unpredict_leaves_data_without_a_row_predictor() {
    for predictor in [-3, 0, 1, 2, 10] {
        let out = unpredict(vec![4, 10, 20, 30], &params(predictor, 3, 8, 3)).unwrap();
        assert_eq!(out, vec![4, 10, 20, 30]);
    }
}

#[test]
fn unpredict_paeth_rows() {
    let out = unpredict(vec![4, 10, 20, 30, 4, 1, 1, 1], &params(15, 3, 8, 3)).unwrap();
    assert_eq!(out, vec![10, 20, 30, 11, 21, 31]);
}

#[test]
fn unpredict_rows_of_mixed_kinds() {
    // columns 2, one byte per pixel
    let inp = vec![
        0, 5, 6, // none
        1, 1, 1, // sub: 1, 2
        2, 1, 1, // up: 2, 3
        3, 2, 2, // avg: 2 + 2/2 = 3; 2 + (3 + 3)/2 = 5
    ];
    let out = unpredict(inp, &params(12, 1, 8, 2)).unwrap();
    assert_eq!(out, vec![5, 6, 1, 2, 2, 3, 3, 5]);
}

#[test]
fn unpredict_derives_the_pixel_width_from_the_bit_count() {
    // two components of sixteen bits: four bytes per pixel
    let inp = vec![1, 1, 2, 3, 4, 10, 10, 10, 10];
    let out = unpredict(inp, &params(11, 2, 16, 8)).unwrap();
    assert_eq!(out, vec![1, 2, 3, 4, 11, 12, 13, 14]);
    // one component of one bit: one byte per pixel
    let out = unpredict(vec![1, 1, 1, 1], &params(11, 1, 1, 3)).unwrap();
    assert_eq!(out, vec![1, 2, 3]);
}

#[test]
fn unpredict_reports_a_bad_tag() {
    match unpredict(vec![4, 10, 20, 30, 9, 1, 1, 1], &params(15, 3, 8, 3)) {
        Err(PdfError::IncorrectPredictorType { n }) => assert_eq!(n, 9),
        other => panic!("unexpected result: {:?}", other),
    }
}

#[test]
fn unpredict_leaves_out_a_last_short_row() {
    let out = unpredict(vec![0, 1, 2, 3, 0, 4], &params(15, 1, 8, 3)).unwrap();
    assert_eq!(out, vec![1, 2, 3]);
    let out = unpredict(vec![0, 1], &params(15, 1, 8, 3)).unwrap();
    assert_eq!(out, Vec::<u8>::new());
}

#[test]
fn unpredict_with_no_columns_checks_the_tags() {
    assert_eq!(unpredict(vec![0, 1, 2, 3, 4], &params(15, 1, 8, 0)).unwrap(), Vec::<u8>::new());
    assert!(matches!(
        unpredict(vec![0, 1, 7], &params(15, 1, 8, 0)),
        Err(PdfError::IncorrectPredictorType { n: 7 })
    ));
}

#[test]
fn unpredict_refuses_negative_columns() {
    match unpredict(vec![0, 1, 2], &params(15, 1, 8, -1)) {
        Err(PdfError::Other { msg }) => {
            assert_eq!(msg, "negative Columns in predictor parameters")
        }
        other => panic!("unexpected result: {:?}", other),
    }
}

#[test]
fn flate_inflates_zlib_data() {
    let out = flate_decode(&ZLIB_SIX, &params(1, 1, 8, 1)).unwrap();
    assert_eq!(out, vec![1, 2, 3, 4, 5, 6]);
}

#[test]
fn flate_falls_back_to_bare_deflate() {
    let out = flate_decode(&RAW_TWO_ROWS, &params(1, 1, 8, 1)).unwrap();
    assert_eq!(out, vec![4, 10, 20, 30, 4, 1, 1, 1]);
}

#[test]
fn flate_with_paeth_predictor() {
    let out = flate_decode(&ZLIB_TWO_ROWS, &params(15, 3, 8, 3)).unwrap();
    assert_eq!(out, vec![10, 20, 30, 11, 21, 31]);
    let out = decode(&ZLIB_TWO_ROWS, &StreamFilter::FlateDecode(params(15, 3, 8, 3))).unwrap();
    assert_eq!(out, vec![10, 20, 30, 11, 21, 31]);
}

#[test]
fn flate_reports_data_that_is_no_deflate_stream() {
    // the reserved block type
    match flate_decode(&[0x07, 0x00], &params(1, 1, 8, 1)) {
        Err(PdfError::Other { msg }) => assert!(!msg.is_empty()),
        other => panic!("unexpected result: {:?}", other),
    }
}

#[test]
fn unimplemented_filters_say_so() {
    let cases = [
        (StreamFilter::LZWDecode(params(1, 1, 8, 1)), "LZWDecode"),
        (StreamFilter::JPXDecode, "JPXDecode"),
        (StreamFilter::CCITTFaxDecode, "CCITTFaxDecode"),
        (StreamFilter::Crypt, "Crypt"),
    ];
    for (filter, name) in cases {
        match decode(b"data", &filter) {
            Err(PdfError::Unimplemented { what }) => assert_eq!(what, name),
            other => panic!("unexpected result: {:?}", other),
        }
    }
}

#[test]
fn dct_wraps_the_decoder_failure() {
    let filter = StreamFilter::DCTDecode(pdf::enc::DCTDecodeParams { color_transform: None });
    assert!(matches!(decode(b"this is no image", &filter), Err(PdfError::Jpeg { .. })));
    assert!(matches!(decode(b"", &filter), Err(PdfError::Jpeg { .. })));
}
