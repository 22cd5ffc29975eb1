use pdf::enc::{decode, decode_85, decode_hex, encode_85, encode_hex, StreamFilter};
use pdf::enc::{decode_nibble, substr, sym_85, word_85};
use pdf::PdfError;

#[test]
fn hex_round_trip_on_sample_bytes() {
    let bytes: Vec<u8> = vec![0x00, 0x01, 0x7f, 0x80, 0xab, 0xff];
    let text = encode_hex(&bytes);
    assert_eq!(text, b"00017f80abff".to_vec());
    assert_eq!(decode_hex(&text).unwrap(), bytes);
}

#[test]
fn hex_round_trip_on_every_byte() {
    let bytes: Vec<u8> = (0..=255u8).collect();
    let text = encode_hex(&bytes);
    assert_eq!(text.len(), 512);
    assert_eq!(decode_hex(&text).unwrap(), bytes);
}

#[test]
fn hex_decodes_both_cases() {
    assert_eq!(decode_hex(b"DeadBEEF").unwrap(), vec![0xde, 0xad, 0xbe, 0xef]);
    assert_eq!(decode_hex(b"09afAF").unwrap(), vec![0x09, 0xaf, 0xaf]);
}

#[test]
fn hex_of_nothing_is_nothing() {
    assert_eq!(decode_hex(b"").unwrap(), Vec::<u8>::new());
    assert_eq!(encode_hex(&[]), Vec::<u8>::new());
}

#[test]
fn hex_reports_the_first_bad_pair() {
    match decode_hex(b"00zz11yy") {
        Err(PdfError::HexDecode { pos, bytes }) => {
            assert_eq!(pos, 2);
            assert_eq!(bytes, [b'z', b'z']);
        }
        other => panic!("unexpected result: {:?}", other),
    }
}

#[test]
fn hex_reports_a_pair_with_one_bad_digit() {
    match decode_hex(b"4a4g") {
        Err(PdfError::HexDecode { pos, bytes }) => {
            assert_eq!(pos, 2);
            assert_eq!(bytes, [b'4', b'g']);
        }
        other => panic!("unexpected result: {:?}", other),
    }
    match decode_hex(b"H0") {
        Err(PdfError::HexDecode { pos, bytes }) => {
            assert_eq!(pos, 0);
            assert_eq!(bytes, [b'H', b'0']);
        }
        other => panic!("unexpected result: {:?}", other),
    }
}

#[test]
fn hex_rejects_odd_length() {
    match decode_hex(b"abc") {
        Err(PdfError::HexDecode { pos, bytes }) => {
            assert_eq!(pos, 2);
            assert_eq!(bytes, [b'c', 0]);
        }
        other => panic!("unexpected result: {:?}", other),
    }
}

#[test]
fn hex_reports_a_bad_pair_before_the_odd_byte() {
    match decode_hex(b"0x1") {
        Err(PdfError::HexDecode { pos, bytes }) => {
            assert_eq!(pos, 0);
            assert_eq!(bytes, [b'0', b'x']);
        }
        other => panic!("unexpected result: {:?}", other),
    }
}

#[test]
fn nibbles() {
    assert_eq!(decode_nibble(b'0'), Some(0));
    assert_eq!(decode_nibble(b'9'), Some(9));
    assert_eq!(decode_nibble(b'a'), Some(10));
    assert_eq!(decode_nibble(b'f'), Some(15));
    assert_eq!(decode_nibble(b'A'), Some(10));
    assert_eq!(decode_nibble(b'F'), Some(15));
    assert_eq!(decode_nibble(b'g'), None);
    assert_eq!(decode_nibble(b'G'), None);
    assert_eq!(decode_nibble(b' '), None);
    assert_eq!(decode_nibble(b'/'), None);
    assert_eq!(decode_nibble(b':'), None);
}

#[test]
fn base85_encodes_known_text() {
    assert_eq!(encode_85(b"Man "), b"9jqo^~>".to_vec());
    assert_eq!(
        encode_85(b"Man is distinguished"),
        b"9jqo^BlbD-BleB1DJ+*+F(f,q~>".to_vec()
    );
    assert_eq!(encode_85(b""), b"~>".to_vec());
    assert_eq!(encode_85(b"a"), b"@/~>".to_vec());
    assert_eq!(encode_85(b"ab"), b"@:B~>".to_vec());
    assert_eq!(encode_85(b"abc"), b"@:E^~>".to_vec());
    assert_eq!(encode_85(&[0xff, 0xff, 0xff, 0xff]), b"s8W-!~>".to_vec());
}

#[test]
fn base85_uses_the_zero_shorthand() {
    assert_eq!(encode_85(&[0, 0, 0, 0]), b"z~>".to_vec());
    assert_eq!(encode_85(&[0, 0, 0, 0, 0]), b"z!!~>".to_vec());
    assert_eq!(
        encode_85(&[0, 0, 0, 0, 1, 2, 3, 4, 0]),
        b"z!<N?+!!~>".to_vec()
    );
}

#[test]
fn base85_decodes_known_text() {
    assert_eq!(decode_85(b"9jqo^~>").unwrap(), b"Man ".to_vec());
    assert_eq!(
        decode_85(b"9jqo^BlbD-BleB1DJ+*+F(f,q~>").unwrap(),
        b"Man is distinguished".to_vec()
    );
    assert_eq!(decode_85(b"z~>").unwrap(), vec![0, 0, 0, 0]);
    assert_eq!(decode_85(b"zz~>").unwrap(), vec![0; 8]);
    assert_eq!(decode_85(b"~>").unwrap(), Vec::<u8>::new());
    assert_eq!(decode_85(b"@/~>").unwrap(), b"a".to_vec());
    assert_eq!(decode_85(b"@:B~>").unwrap(), b"ab".to_vec());
    assert_eq!(decode_85(b"@:E^~>").unwrap(), b"abc".to_vec());
    assert_eq!(decode_85(b"s8W-!~>").unwrap(), vec![0xff; 4]);
}

#[test]
fn base85_round_trip_on_all_lengths() {
    for len in 0..40usize {
        let bytes: Vec<u8> = (0..len).map(|i| (i * 37 + len * 11) as u8).collect();
        let text = encode_85(&bytes);
        assert_eq!(decode_85(&text).unwrap(), bytes, "length {}", len);
    }
}

#[test]
fn base85_round_trip_with_runs_of_zeros() {
    for len in 0..20usize {
        let zeros = vec![0u8; len];
        assert_eq!(decode_85(&encode_85(&zeros)).unwrap(), zeros);
        let mut mixed = vec![0u8; len];
        mixed.push(0xfe);
        mixed.extend_from_slice(&[0, 0, 0, 0, 0, 0]);
        assert_eq!(decode_85(&encode_85(&mixed)).unwrap(), mixed);
    }
}

#[test]
fn base85_round_trip_on_high_bytes() {
    for last in [0u8, 1, 84, 85, 127, 128, 254, 255] {
        for len in 1..9usize {
            let bytes = vec![last; len];
            assert_eq!(decode_85(&encode_85(&bytes)).unwrap(), bytes);
        }
    }
}

#[test]
fn base85_ignores_what_follows_the_end() {
    assert_eq!(decode_85(b"9jqo^~>trailing").unwrap(), b"Man ".to_vec());
}

#[test]
fn base85_needs_the_end_marker() {
    assert!(matches!(decode_85(b"9jqo^"), Err(PdfError::Ascii85TailError)));
    assert!(matches!(decode_85(b""), Err(PdfError::Ascii85TailError)));
    assert!(matches!(decode_85(b"9jqo^~"), Err(PdfError::Ascii85TailError)));
}

#[test]
fn base85_rejects_a_long_or_bad_tail() {
    // five bytes before the marker that are no word
    assert!(matches!(decode_85(b"9jqo{~>"), Err(PdfError::Ascii85TailError)));
    // a byte that is no symbol in the last group
    assert!(matches!(decode_85(b"9j{~>"), Err(PdfError::Ascii85TailError)));
    // a last group whose number does not fit in 32 bits
    assert!(matches!(decode_85(b"uuuu~>"), Err(PdfError::Ascii85TailError)));
}

#[test]
fn base85_rejects_a_group_beyond_32_bits() {
    assert!(matches!(decode_85(b"s8W-\"~>"), Err(PdfError::Ascii85TailError)));
}

#[test]
fn symbols() {
    assert_eq!(sym_85(b'!'), Some(0));
    assert_eq!(sym_85(b'u'), Some(84));
    assert_eq!(sym_85(b' '), None);
    assert_eq!(sym_85(b'v'), None);
    assert_eq!(sym_85(b'z'), None);
    assert_eq!(sym_85(b'~'), None);
}

#[test]
fn words() {
    assert_eq!(word_85(b"9jqo^rest"), Some((5, [b'M', b'a', b'n', b' '])));
    assert_eq!(word_85(b"zrest"), Some((1, [0, 0, 0, 0])));
    assert_eq!(word_85(b"!!!!!"), Some((5, [0, 0, 0, 0])));
    assert_eq!(word_85(b"!!!!\""), Some((5, [0, 0, 0, 1])));
    assert_eq!(word_85(b"s8W-!"), Some((5, [255, 255, 255, 255])));
    assert_eq!(word_85(b"s8W-\""), None);
    assert_eq!(word_85(b"9jqo"), None);
    assert_eq!(word_85(b""), None);
    assert_eq!(word_85(b"9jq~>"), None);
}

#[test]
fn finds_the_first_occurrence() {
    assert_eq!(substr(b"ab~>cd~>", b"~>"), Some(2));
    assert_eq!(substr(b"~>", b"~>"), Some(0));
    assert_eq!(substr(b"~~>", b"~>"), Some(1));
    assert_eq!(substr(b"abc", b"~>"), None);
    assert_eq!(substr(b"~", b"~>"), None);
    assert_eq!(substr(b"", b"~>"), None);
    assert_eq!(substr(b"abc", b"c"), Some(2));
}

#[test]
fn decode_dispatches_on_the_filter() {
    assert_eq!(
        decode(b"48656c6c6f", &StreamFilter::ASCIIHexDecode).unwrap(),
        b"Hello".to_vec()
    );
    assert_eq!(
        decode(b"9jqo^~>", &StreamFilter::ASCII85Decode).unwrap(),
        b"Man ".to_vec()
    );
}

#[test]
fn decode_passes_a_codec_failure_on() {
    assert!(matches!(
        decode(b"4x", &StreamFilter::ASCIIHexDecode),
        Err(PdfError::HexDecode { pos: 0, bytes: [b'4', b'x'] })
    ));
    assert!(matches!(
        decode(b"9jqo^", &StreamFilter::ASCII85Decode),
        Err(PdfError::Ascii85TailError)
    ));
}
