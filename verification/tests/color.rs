use pdf::object::color::{get_index, ColorSpace};
use pdf::object::function::Function;
use pdf::object::{NoResolve, ObjectTable};
use pdf::primitive::{Dictionary, PdfStream, PdfString, PlainRef, Primitive};
use pdf::PdfError;

fn name(s: &str) -> Primitive {
    Primitive::Name(s.to_string())
}

fn reference(id: u64) -> Primitive {
    Primitive::Reference(PlainRef { id, gen: 0 })
}

fn dict(entries: Vec<(&str, Primitive)>) -> Dictionary {
    let mut d = Dictionary::new();
    for (k, v) in entries {
        d.insert(k.to_string(), v);
    }
    d
}

fn table(objects: Vec<(u64, Option<Primitive>)>) -> ObjectTable {
    let mut t = ObjectTable::new();
    for (id, value) in objects {
        t.add(PlainRef { id, gen: 0 }, value);
    }
    t
}

fn string(bytes: &[u8]) -> Primitive {
    Primitive::String(PdfString::new(bytes.to_vec()))
}

// zlib stream of the bytes [1,2,3,4,5,6]
const ZLIB_SIX: [u8; 14] = [120, 218, 99, 100, 98, 102, 97, 101, 3, 0, 0, 62, 0, 22];

#[test]
fn a_bare_name_is_a_device_space() {
    assert!(matches!(
        ColorSpace::from_primitive(name("DeviceGray"), &NoResolve),
        Ok(ColorSpace::DeviceGray)
    ));
    assert!(matches!(
        ColorSpace::from_primitive(name("DeviceRGB"), &NoResolve),
        Ok(ColorSpace::DeviceRGB)
    ));
    assert!(matches!(
        ColorSpace::from_primitive(name("DeviceCMYK"), &NoResolve),
        Ok(ColorSpace::DeviceCMYK)
    ));
}

#[test]
fn any_other_bare_name_is_unimplemented() {
    assert!(matches!(
        ColorSpace::from_primitive(name("Pattern"), &NoResolve),
        Err(PdfError::Unimplemented { what: "ColorSpace" })
    ));
}

#[test]
fn what_is_neither_name_nor_array_is_refused() {
    assert!(matches!(
        ColorSpace::from_primitive(Primitive::Integer(1), &NoResolve),
        Err(PdfError::UnexpectedPrimitive { expected: "Array", found: "Integer" })
    ));
    assert!(matches!(
        ColorSpace::from_primitive(reference(1), &NoResolve),
        Err(PdfError::Reference)
    ));
}

#[test]
fn an_empty_array_is_out_of_bounds() {
    assert!(matches!(
        ColorSpace::from_primitive(Primitive::Array(vec![]), &NoResolve),
        Err(PdfError::Bounds { index: 0, len: 0 })
    ));
}

#[test]
fn the_head_of_the_array_has_to_be_a_name() {
    assert!(matches!(
        ColorSpace::from_primitive(Primitive::Array(vec![Primitive::Integer(1)]), &NoResolve),
        Err(PdfError::UnexpectedPrimitive { expected: "Name", found: "Integer" })
    ));
}

#[test]
fn an_unknown_family_is_kept_as_it_is() {
    let arr = vec![name("CalRGB"), Primitive::Integer(1)];
    match ColorSpace::from_primitive(Primitive::Array(arr), &NoResolve) {
        Ok(ColorSpace::Other(items)) => {
            assert_eq!(items.len(), 2);
            assert_eq!(items[0].as_name().unwrap(), "CalRGB");
        }
        other => panic!("unexpected result: {:?}", other),
    }
}

#[test]
fn indexed_with_a_string_table() {
    let arr = vec![name("Indexed"), name("DeviceRGB"), Primitive::Integer(1), string(&[1, 2, 3, 4, 5, 6])];
    match ColorSpace::from_primitive(Primitive::Array(arr), &NoResolve) {
        Ok(ColorSpace::Indexed(base, lookup)) => {
            assert!(matches!(*base, ColorSpace::DeviceRGB));
            assert_eq!(lookup, vec![1, 2, 3, 4, 5, 6]);
        }
        other => panic!("unexpected result: {:?}", other),
    }
}

#[test]
fn indexed_with_a_stream_table() {
    let stream = Primitive::Stream(PdfStream {
        info: dict(vec![("Filter", name("FlateDecode"))]),
        data: ZLIB_SIX.to_vec(),
    });
    let arr = vec![name("Indexed"), name("DeviceRGB"), Primitive::Integer(1), stream];
    match ColorSpace::from_primitive(Primitive::Array(arr), &NoResolve) {
        Ok(ColorSpace::Indexed(base, lookup)) => {
            assert!(matches!(*base, ColorSpace::DeviceRGB));
            assert_eq!(lookup, vec![1, 2, 3, 4, 5, 6]);
        }
        other => panic!("unexpected result: {:?}", other),
    }
}

#[test]
fn indexed_string_and_stream_tables_agree() {
    let from_string = ColorSpace::from_primitive(
        Primitive::Array(vec![
            name("Indexed"),
            name("DeviceGray"),
            Primitive::Integer(5),
            string(&[1, 2, 3, 4, 5, 6]),
        ]),
        &NoResolve,
    )
    .unwrap();
    let t = table(vec![(
        8,
        Some(Primitive::Stream(PdfStream {
            info: dict(vec![("Filter", Primitive::Array(vec![name("FlateDecode")]))]),
            data: ZLIB_SIX.to_vec(),
        })),
    )]);
    let from_stream = ColorSpace::from_primitive(
        Primitive::Array(vec![
            name("Indexed"),
            name("DeviceGray"),
            Primitive::Integer(5),
            reference(8),
        ]),
        &t,
    )
    .unwrap();
    match (from_string, from_stream) {
        (ColorSpace::Indexed(a, x), ColorSpace::Indexed(b, y)) => {
            assert!(matches!(*a, ColorSpace::DeviceGray));
            assert!(matches!(*b, ColorSpace::DeviceGray));
            assert_eq!(x, y);
        }
        other => panic!("unexpected result: {:?}", other),
    }
}

#[test]
fn indexed_needs_four_elements() {
    let arr = vec![name("Indexed")];
    assert!(matches!(
        ColorSpace::from_primitive(Primitive::Array(arr), &NoResolve),
        Err(PdfError::Bounds { index: 1, len: 1 })
    ));
    let arr = vec![name("Indexed"), name("DeviceRGB"), Primitive::Integer(1)];
    assert!(matches!(
        ColorSpace::from_primitive(Primitive::Array(arr), &NoResolve),
        Err(PdfError::Bounds { index: 3, len: 3 })
    ));
}

#[test]
fn indexed_table_of_another_kind() {
    let arr = vec![name("Indexed"), name("DeviceRGB"), Primitive::Integer(1), Primitive::Integer(2)];
    assert!(matches!(
        ColorSpace::from_primitive(Primitive::Array(arr), &NoResolve),
        Err(PdfError::UnexpectedPrimitive { expected: "String or Stream", found: "Integer" })
    ));
}

#[test]
fn indexed_table_whose_stream_does_not_decode() {
    let stream = Primitive::Stream(PdfStream {
        info: dict(vec![("Filter", name("ASCIIHexDecode"))]),
        data: b"0g".to_vec(),
    });
    let arr = vec![name("Indexed"), name("DeviceRGB"), Primitive::Integer(1), stream];
    assert!(matches!(
        ColorSpace::from_primitive(Primitive::Array(arr), &NoResolve),
        Err(PdfError::HexDecode { pos: 0, bytes: [b'0', b'g'] })
    ));
}

#[test]
fn indexed_on_a_nested_base() {
    let base = Primitive::Array(vec![
        name("Indexed"),
        name("DeviceCMYK"),
        Primitive::Integer(0),
        string(&[9, 9, 9, 9]),
    ]);
    let t = table(vec![(3, Some(base))]);
    let arr = vec![name("Indexed"), reference(3), Primitive::Integer(0), string(&[0])];
    match ColorSpace::from_primitive(Primitive::Array(arr), &t) {
        Ok(ColorSpace::Indexed(outer, lookup)) => {
            assert_eq!(lookup, vec![0]);
            match &*outer {
                ColorSpace::Indexed(inner, table) => {
                    assert!(matches!(**inner, ColorSpace::DeviceCMYK));
                    assert_eq!(*table, vec![9, 9, 9, 9]);
                }
                other => panic!("unexpected base: {:?}", other),
            }
        }
        other => panic!("unexpected result: {:?}", other),
    }
}

#[test]
fn a_base_named_through_a_reference() {
    let t = table(vec![(3, Some(name("DeviceRGB")))]);
    let arr = vec![name("Indexed"), reference(3), Primitive::Integer(0), string(&[0, 0, 0])];
    match ColorSpace::from_primitive(Primitive::Array(arr), &t) {
        Ok(ColorSpace::Indexed(base, _)) => assert!(matches!(*base, ColorSpace::DeviceRGB)),
        other => panic!("unexpected result: {:?}", other),
    }
}

#[test]
fn spaces_that_contain_themselves_are_refused() {
    let t = table(vec![(
        1,
        Some(Primitive::Array(vec![
            name("Indexed"),
            reference(1),
            Primitive::Integer(0),
            string(&[0]),
        ])),
    )]);
    match ColorSpace::from_primitive(reference(1), &t) {
        Err(PdfError::Other { msg }) => assert_eq!(msg, "too many nested references"),
        other => panic!("unexpected result: {:?}", other),
    }
}

#[test]
fn separation() {
    let tint = Primitive::Dictionary(dict(vec![
        ("FunctionType", Primitive::Integer(2)),
        ("N", Primitive::Integer(1)),
    ]));
    let arr = vec![name("Separation"), name("Gold"), name("DeviceCMYK"), tint];
    match ColorSpace::from_primitive(Primitive::Array(arr), &NoResolve) {
        Ok(ColorSpace::Separation(colorant, alternate, function)) => {
            assert_eq!(colorant, "Gold");
            assert!(matches!(*alternate, ColorSpace::DeviceCMYK));
            assert_eq!(function.function_type, 2);
            assert!(function.info.get("N").is_some());
            assert!(function.info.get("FunctionType").is_none());
            assert!(function.data.is_empty());
        }
        other => panic!("unexpected result: {:?}", other),
    }
}

#[test]
fn separation_checks_its_parts_in_order() {
    let arr = vec![name("Separation"), Primitive::Integer(1), name("DeviceCMYK")];
    assert!(matches!(
        ColorSpace::from_primitive(Primitive::Array(arr), &NoResolve),
        Err(PdfError::UnexpectedPrimitive { expected: "Name", found: "Integer" })
    ));
    let arr = vec![name("Separation"), name("Gold")];
    assert!(matches!(
        ColorSpace::from_primitive(Primitive::Array(arr), &NoResolve),
        Err(PdfError::Bounds { index: 2, len: 2 })
    ));
    let arr = vec![name("Separation"), name("Gold"), name("DeviceCMYK")];
    assert!(matches!(
        ColorSpace::from_primitive(Primitive::Array(arr), &NoResolve),
        Err(PdfError::Bounds { index: 3, len: 3 })
    ));
    let arr = vec![name("Separation"), name("Gold"), name("Nonsense"), Primitive::Null];
    assert!(matches!(
        ColorSpace::from_primitive(Primitive::Array(arr), &NoResolve),
        Err(PdfError::Unimplemented { .. })
    ));
}

#[test]
fn a_function_needs_its_type() {
    match Function::from_primitive(Primitive::Dictionary(Dictionary::new()), &NoResolve) {
        Err(PdfError::MissingEntry { typ, field }) => {
            assert_eq!(typ, "Function");
            assert_eq!(field, "FunctionType");
        }
        other => panic!("unexpected result: {:?}", other),
    }
    let stream = Primitive::Stream(PdfStream {
        info: dict(vec![("FunctionType", Primitive::Integer(4))]),
        data: b"{ 1 exch sub }".to_vec(),
    });
    let f = Function::from_primitive(stream, &NoResolve).unwrap();
    assert_eq!(f.function_type, 4);
    assert_eq!(f.data, b"{ 1 exch sub }".to_vec());
    assert!(matches!(
        Function::from_primitive(Primitive::Integer(0), &NoResolve),
        Err(PdfError::UnexpectedPrimitive { expected: "Dictionary or Stream", found: "Integer" })
    ));
}

#[test]
fn icc_based() {
    let profile = Primitive::Stream(PdfStream {
        info: dict(vec![
            ("N", Primitive::Integer(3)),
            ("Alternate", name("DeviceRGB")),
            (
                "Range",
                Primitive::Array(vec![Primitive::Integer(0), Primitive::Integer(1)]),
            ),
            ("Filter", name("ASCIIHexDecode")),
        ]),
        data: b"00ff".to_vec(),
    });
    let arr = vec![name("ICCBased"), profile];
    match ColorSpace::from_primitive(Primitive::Array(arr), &NoResolve) {
        Ok(ColorSpace::Icc(stream)) => {
            assert_eq!(stream.info.components, 3);
            assert!(matches!(stream.info.alternate.as_deref(), Some(ColorSpace::DeviceRGB)));
            assert_eq!(stream.info.range.as_ref().map(|r| r.len()), Some(2));
            assert!(stream.info.metadata.is_none());
            assert_eq!(stream.data().unwrap(), vec![0x00, 0xff]);
        }
        other => panic!("unexpected result: {:?}", other),
    }
}

#[test]
fn icc_based_needs_the_component_count() {
    let profile = Primitive::Stream(PdfStream { info: Dictionary::new(), data: vec![] });
    let arr = vec![name("ICCBased"), profile];
    match ColorSpace::from_primitive(Primitive::Array(arr), &NoResolve) {
        Err(PdfError::MissingEntry { typ, field }) => {
            assert_eq!(typ, "IccInfo");
            assert_eq!(field, "N");
        }
        other => panic!("unexpected result: {:?}", other),
    }
    let arr = vec![name("ICCBased")];
    assert!(matches!(
        ColorSpace::from_primitive(Primitive::Array(arr), &NoResolve),
        Err(PdfError::Bounds { index: 1, len: 1 })
    ));
}

#[test]
fn icc_based_with_a_negative_component_count() {
    let profile = Primitive::Stream(PdfStream {
        info: dict(vec![("N", Primitive::Integer(-3))]),
        data: vec![],
    });
    let arr = vec![name("ICCBased"), profile];
    match ColorSpace::from_primitive(Primitive::Array(arr), &NoResolve) {
        Err(PdfError::FromPrimitive { typ, field, source }) => {
            assert_eq!(typ, "IccInfo");
            assert_eq!(field, "N");
            assert!(matches!(*source, PdfError::Other { .. }));
        }
        other => panic!("unexpected result: {:?}", other),
    }
}

#[test]
fn get_index_names_the_index_and_the_length() {
    let arr = vec![Primitive::Integer(10), Primitive::Integer(11)];
    assert!(matches!(get_index(&arr, 0), Ok(Primitive::Integer(10))));
    assert!(matches!(get_index(&arr, 1), Ok(Primitive::Integer(11))));
    assert!(matches!(get_index(&arr, 2), Err(PdfError::Bounds { index: 2, len: 2 })));
    assert!(matches!(get_index(&[], 7), Err(PdfError::Bounds { index: 7, len: 0 })));
}
