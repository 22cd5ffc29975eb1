use pdf::error::dump_data;
use pdf::object::color::ColorSpace;
use pdf::PdfError;

fn assert_send<T: Send>() {}

fn assert_sync<T: Sync>() {}

#[test]
fn error_is_send_and_sync() {
    // note that these checks happens at compile time, not when the test is run
    assert_send::<PdfError>();
    assert_sync::<PdfError>();
}

fn passed_on(source: PdfError) -> PdfError {
    PdfError::Try { file: "somewhere", line: 1, column: 2, source: Box::new(source) }
}

#[test]
fn end_of_input_is_seen_through_layers() {
    assert!(PdfError::EOF.is_eof());
    assert!(passed_on(PdfError::EOF).is_eof());
    assert!(passed_on(passed_on(PdfError::EOF)).is_eof());
    let with_context = PdfError::TryContext {
        file: "somewhere",
        line: 1,
        column: 2,
        context: vec![("key", "value".to_string())],
        source: Box::new(passed_on(PdfError::EOF)),
    };
    assert!(with_context.is_eof());
}

#[test]
fn other_failures_are_not_the_end_of_input() {
    assert!(!PdfError::Reference.is_eof());
    assert!(!PdfError::Ascii85TailError.is_eof());
    assert!(!passed_on(PdfError::Reference).is_eof());
    assert!(!PdfError::Other { msg: "EOF".to_string() }.is_eof());
    // a field failure is no layer of passing on
    let in_field = PdfError::FromPrimitive {
        typ: "Font",
        field: "Subtype",
        source: Box::new(PdfError::EOF),
    };
    assert!(!in_field.is_eof());
}

#[test]
fn the_causal_chain_can_be_walked() {
    let root = PdfError::HexDecode { pos: 4, bytes: [b'x', b'y'] };
    let e = passed_on(PdfError::FromPrimitive {
        typ: "Font",
        field: "Widths",
        source: Box::new(root),
    });
    let first = e.source().unwrap();
    assert!(matches!(first, PdfError::FromPrimitive { typ: "Font", field: "Widths", .. }));
    let second = first.source().unwrap();
    assert!(matches!(second, PdfError::HexDecode { pos: 4, bytes: [b'x', b'y'] }));
    assert!(second.source().is_none());
    assert!(PdfError::EOF.source().is_none());
}

#[test]
fn dumping_data_does_nothing() {
    dump_data(&[1, 2, 3]);
    dump_data(&[]);
}

#[test]
fn writing_out_is_not_provided() {
    let mut out = vec![1u8, 2];
    assert!(matches!(
        ColorSpace::DeviceGray.serialize(&mut out),
        Err(PdfError::Unimplemented { what: "serialize" })
    ));
    assert_eq!(out, vec![1, 2]);
}
