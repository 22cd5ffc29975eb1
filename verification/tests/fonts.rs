use pdf::encoding::{BaseEncoding, Encoding};
use pdf::font::descriptor::FontDescriptor;
use pdf::font::query::read_w_array;
use pdf::font::read::read_gid_table;
use pdf::font::{Font, FontData, FontStretch, FontType, FontTypeExt, StandardFonts};
use pdf::object::{NoResolve, ObjectTable};
use pdf::primitive::{Dictionary, Number, PdfStream, PdfString, PlainRef, Primitive, Real};
use pdf::PdfError;

fn name(s: &str) -> Primitive {
    Primitive::Name(s.to_string())
}

fn whole(n: i32) -> Primitive {
    Primitive::Integer(n)
}

fn frac(x: f32) -> Primitive {
    Primitive::Number(Real { bits: x.to_bits() })
}

fn reference(id: u64) -> Primitive {
    Primitive::Reference(PlainRef { id, gen: 0 })
}

fn dict(entries: Vec<(&str, Primitive)>) -> Dictionary {
    let mut d = Dictionary::new();
    for (k, v) in entries {
        d.insert(k.to_string(), v);
    }
    d
}

fn table(objects: Vec<(u64, Option<Primitive>)>) -> ObjectTable {
    let mut t = ObjectTable::new();
    for (id, value) in objects {
        t.add(PlainRef { id, gen: 0 }, value);
    }
    t
}

fn value(n: Number) -> f32 {
    match n {
        Number::Integer(i) => i as f32,
        Number::Real(r) => f32::from_bits(r.bits),
    }
}

fn descriptor_entries() -> Vec<(&'static str, Primitive)> {
    vec![
        ("Type", name("FontDescriptor")),
        ("FontName", name("ABCDEF+Sample")),
        ("Flags", whole(32)),
        ("FontBBox", Primitive::Array(vec![whole(-10), frac(-20.5), whole(1000), whole(900)])),
        ("ItalicAngle", whole(0)),
        ("Ascent", whole(800)),
        ("Descent", whole(-200)),
        ("CapHeight", frac(700.5)),
    ]
}

fn descriptor() -> Primitive {
    Primitive::Dictionary(dict(descriptor_entries()))
}

fn descriptor_with(extra: Vec<(&'static str, Primitive)>) -> Primitive {
    let mut entries = descriptor_entries();
    entries.extend(extra);
    Primitive::Dictionary(dict(entries))
}

fn hex_stream(text: &[u8]) -> Primitive {
    Primitive::Stream(PdfStream {
        info: dict(vec![("Filter", name("ASCIIHexDecode"))]),
        data: text.to_vec(),
    })
}

fn standard() -> StandardFonts {
    let mut s = StandardFonts::new();
    s.add("Courier".to_string(), vec![1, 1, 1]);
    s.add("Helvetica".to_string(), vec![2, 2, 2]);
    s.add("Helvetica".to_string(), vec![3, 3, 3]);
    s
}

fn true_type(extra: Vec<(&'static str, Primitive)>) -> Primitive {
    let mut entries = vec![
        ("Type", name("Font")),
        ("Subtype", name("TrueType")),
        ("BaseFont", name("Sample")),
        ("FirstChar", whole(65)),
        ("LastChar", whole(67)),
        ("Widths", Primitive::Array(vec![whole(600), frac(610.5), whole(620)])),
        ("FontDescriptor", descriptor()),
    ];
    entries.extend(extra);
    Primitive::Dictionary(dict(entries))
}

#[test]
fn a_font_without_subtype_names_the_missing_field() {
    let d = dict(vec![("Type", name("Font")), ("BaseFont", name("Sample"))]);
    match Font::from_primitive(Primitive::Dictionary(d), &NoResolve, &StandardFonts::new()) {
        Err(PdfError::MissingEntry { typ, field }) => {
            assert_eq!(typ, "Font");
            assert_eq!(field, "Subtype");
        }
        other => panic!("unexpected result: {:?}", other),
    }
}

#[test]
fn a_font_without_base_font_names_the_missing_field() {
    let d = dict(vec![("Type", name("Font")), ("Subtype", name("Type1"))]);
    match Font::from_primitive(Primitive::Dictionary(d), &NoResolve, &StandardFonts::new()) {
        Err(PdfError::MissingEntry { typ, field }) => {
            assert_eq!(typ, "Font");
            assert_eq!(field, "BaseFont");
        }
        other => panic!("unexpected result: {:?}", other),
    }
}

#[test]
fn a_font_has_to_say_that_it_is_one() {
    let d = dict(vec![("Subtype", name("Type1")), ("BaseFont", name("Sample"))]);
    match Font::from_primitive(Primitive::Dictionary(d), &NoResolve, &StandardFonts::new()) {
        Err(PdfError::MissingEntry { typ, field }) => {
            assert_eq!(typ, "Font");
            assert_eq!(field, "Type");
        }
        other => panic!("unexpected result: {:?}", other),
    }
    let d = dict(vec![
        ("Type", name("Page")),
        ("Subtype", name("Type1")),
        ("BaseFont", name("Sample")),
    ]);
    match Font::from_primitive(Primitive::Dictionary(d), &NoResolve, &StandardFonts::new()) {
        Err(PdfError::KeyValueMismatch { key, value, found }) => {
            assert_eq!(key, "Type");
            assert_eq!(value, "Font");
            assert_eq!(found, "Page");
        }
        other => panic!("unexpected result: {:?}", other),
    }
}

#[test]
fn a_font_of_an_unknown_kind() {
    let d = dict(vec![
        ("Type", name("Font")),
        ("Subtype", name("Type42")),
        ("BaseFont", name("Sample")),
    ]);
    match Font::from_primitive(Primitive::Dictionary(d), &NoResolve, &StandardFonts::new()) {
        Err(PdfError::UnknownVariant { id, name }) => {
            assert_eq!(id, "FontType");
            assert_eq!(name, "Type42");
        }
        other => panic!("unexpected result: {:?}", other),
    }
}

#[test]
fn a_standard_font_name_bypasses_the_descriptor() {
    // the descriptor is malformed and declares a font file: neither is looked at
    let d = dict(vec![
        ("Type", name("Font")),
        ("Subtype", name("Type1")),
        ("BaseFont", name("Helvetica")),
        (
            "FontDescriptor",
            Primitive::Dictionary(dict(vec![("FontFile", hex_stream(b"zz"))])),
        ),
    ]);
    let font = Font::from_primitive(Primitive::Dictionary(d), &NoResolve, &standard()).unwrap();
    assert_eq!(font.name, "Helvetica");
    assert_eq!(font.subtype, FontType::Type1);
    // the first font of that name is the one found
    assert_eq!(font.standard_font(), Some(&[2u8, 2, 2][..]));
    assert!(matches!(font.data, FontData::Standard(_)));
    assert!(font.embedded_data().is_none());
    assert!(font.info().is_none());
    assert!(!font.is_cid());
    assert!(matches!(font.widths(), Ok(None)));
    // what was left of the dictionary is kept
    assert!(font._other.get("FontDescriptor").is_some());
    assert!(font._other.get("BaseFont").is_none());
}

#[test]
fn a_standard_font_of_any_declared_kind() {
    let d = dict(vec![
        ("Type", name("Font")),
        ("Subtype", name("CIDFontType2")),
        ("BaseFont", name("Courier")),
    ]);
    let font = Font::from_primitive(Primitive::Dictionary(d), &NoResolve, &standard()).unwrap();
    assert_eq!(font.standard_font(), Some(&[1u8, 1, 1][..]));
}

#[test]
fn standard_font_names_are_matched_exactly() {
    for base in ["helvetica", "Helvetica-Bold", "Helvetic", " Helvetica"] {
        let d = dict(vec![
            ("Type", name("Font")),
            ("Subtype", name("Type3")),
            ("BaseFont", name(base)),
        ]);
        let font = Font::from_primitive(Primitive::Dictionary(d), &NoResolve, &standard()).unwrap();
        assert!(font.standard_font().is_none(), "{}", base);
        assert!(matches!(font.data, FontData::Other(_)));
    }
}

#[test]
fn the_same_font_without_standard_fonts_needs_its_descriptor() {
    let d = dict(vec![
        ("Type", name("Font")),
        ("Subtype", name("Type1")),
        ("BaseFont", name("Helvetica")),
    ]);
    match Font::from_primitive(Primitive::Dictionary(d), &NoResolve, &StandardFonts::new()) {
        Err(PdfError::MissingEntry { typ, field }) => {
            assert_eq!(typ, "TFont");
            assert_eq!(field, "FontDescriptor");
        }
        other => panic!("unexpected result: {:?}", other),
    }
}

#[test]
fn a_true_type_font() {
    let font = Font::from_primitive(
        true_type(vec![("Encoding", name("WinAnsiEncoding"))]),
        &NoResolve,
        &standard(),
    )
    .unwrap();
    assert_eq!(font.subtype, FontType::TrueType);
    assert_eq!(font.name, "Sample");
    assert!(!font.is_cid());
    assert!(font.cid_to_gid_map().is_none());
    assert!(font.to_unicode().is_none());
    assert_eq!(font.encoding().map(|e| e.base), Some(BaseEncoding::WinAnsiEncoding));
    let info = font.info().unwrap();
    assert_eq!(info.first_char, Some(65));
    assert_eq!(info.last_char, Some(67));
    assert_eq!(info.widths.len(), 3);
    assert_eq!(info.font_descriptor.font_name, "ABCDEF+Sample");
    assert_eq!(info.font_descriptor.flags, 32);
    assert_eq!(value(info.font_descriptor.font_bbox.bottom), -20.5);
    assert_eq!(value(info.font_descriptor.cap_height), 700.5);
    assert_eq!(value(info.font_descriptor.leading), 0.0);
    assert!(font.embedded_data().is_none());
    let widths = font.widths().unwrap().unwrap();
    assert_eq!(value(widths.get(64)), 0.0);
    assert_eq!(value(widths.get(65)), 600.0);
    assert_eq!(value(widths.get(66)), 610.5);
    assert_eq!(value(widths.get(67)), 620.0);
    assert_eq!(value(widths.get(68)), 0.0);
}

#[test]
fn a_font_without_first_char_has_no_width_table() {
    let d = dict(vec![
        ("Type", name("Font")),
        ("Subtype", name("Type1")),
        ("BaseFont", name("Sample")),
        ("Widths", Primitive::Array(vec![whole(600)])),
        ("FontDescriptor", descriptor()),
    ]);
    let font = Font::from_primitive(Primitive::Dictionary(d), &NoResolve, &standard()).unwrap();
    assert!(matches!(font.widths(), Ok(None)));
    assert!(font.info().is_some());
}

#[test]
fn the_embedded_program_is_decoded() {
    let d = dict(vec![
        ("Type", name("Font")),
        ("Subtype", name("TrueType")),
        ("BaseFont", name("Sample")),
        ("FontDescriptor", descriptor_with(vec![("FontFile2", hex_stream(b"00010000"))])),
    ]);
    let font = Font::from_primitive(Primitive::Dictionary(d), &NoResolve, &standard()).unwrap();
    assert_eq!(font.embedded_data().unwrap().unwrap(), vec![0, 1, 0, 0]);
    let info = font.info().unwrap();
    assert!(info.font_descriptor.font_file.is_none());
    assert!(info.font_descriptor.font_file2.is_some());
    assert_eq!(info.font_descriptor.data().unwrap().unwrap(), vec![0, 1, 0, 0]);
}

#[test]
fn the_first_filled_place_holds_the_program() {
    let file3 = Primitive::Stream(PdfStream {
        info: dict(vec![("Subtype", name("OpenType"))]),
        data: vec![3],
    });
    let d = match descriptor_with(vec![
        ("FontFile3", file3),
        ("FontFile", hex_stream(b"01")),
    ]) {
        Primitive::Dictionary(d) => d,
        _ => unreachable!(),
    };
    let fd = FontDescriptor::from_dict(d, &NoResolve).unwrap();
    assert_eq!(fd.font_file3.as_ref().map(|s| s.info.subtype), Some(FontTypeExt::OpenType));
    assert_eq!(fd.data().unwrap().unwrap(), vec![1]);
}

#[test]
fn a_program_that_does_not_decode() {
    let d = match descriptor_with(vec![("FontFile", hex_stream(b"0"))]) {
        Primitive::Dictionary(d) => d,
        _ => unreachable!(),
    };
    let fd = FontDescriptor::from_dict(d, &NoResolve).unwrap();
    assert!(matches!(fd.data(), Some(Err(PdfError::HexDecode { pos: 0, .. }))));
}

#[test]
fn descriptor_fields() {
    let d = match descriptor_with(vec![
        ("FontStretch", name("SemiCondensed")),
        ("FontWeight", whole(700)),
        ("FontFamily", Primitive::String(PdfString::new(b"Sample".to_vec()))),
        ("StemV", whole(80)),
        ("MissingWidth", frac(250.0)),
        ("CharSet", Primitive::Null),
    ]) {
        Primitive::Dictionary(d) => d,
        _ => unreachable!(),
    };
    let fd = FontDescriptor::from_dict(d, &NoResolve).unwrap();
    assert_eq!(fd.font_stretch, Some(FontStretch::SemiCondensed));
    assert_eq!(fd.font_weight.map(value), Some(700.0));
    assert_eq!(fd.font_family.as_ref().map(|s| s.as_bytes().to_vec()), Some(b"Sample".to_vec()));
    assert_eq!(value(fd.stem_v), 80.0);
    assert_eq!(value(fd.stem_h), 0.0);
    assert_eq!(value(fd.missing_width), 250.0);
    assert!(fd.char_set.is_none());
    assert!(fd.data().is_none());
}

#[test]
fn a_missing_descriptor_field_is_named() {
    let mut entries = descriptor_entries();
    entries.retain(|(k, _)| *k != "Ascent");
    match FontDescriptor::from_dict(dict(entries), &NoResolve) {
        Err(PdfError::MissingEntry { typ, field }) => {
            assert_eq!(typ, "FontDescriptor");
            assert_eq!(field, "Ascent");
        }
        other => panic!("unexpected result: {:?}", other),
    }
}

#[test]
fn a_bad_descriptor_field_is_named() {
    let d = match descriptor_with(vec![("FontStretch", name("Wide"))]) {
        Primitive::Dictionary(d) => d,
        _ => unreachable!(),
    };
    match FontDescriptor::from_dict(d, &NoResolve) {
        Err(PdfError::FromPrimitive { typ, field, source }) => {
            assert_eq!(typ, "FontDescriptor");
            assert_eq!(field, "FontStretch");
            assert!(matches!(*source, PdfError::UnknownVariant { id: "FontStretch", .. }));
        }
        other => panic!("unexpected result: {:?}", other),
    }
    let mut entries = descriptor_entries();
    entries.retain(|(k, _)| *k != "FontBBox");
    entries.push(("FontBBox", Primitive::Array(vec![whole(0), whole(0), whole(1)])));
    match FontDescriptor::from_dict(dict(entries), &NoResolve) {
        Err(PdfError::FromPrimitive { typ, field, source }) => {
            assert_eq!(typ, "FontDescriptor");
            assert_eq!(field, "FontBBox");
            match *source {
                PdfError::Other { msg } => assert_eq!(msg, "len != 4"),
                other => panic!("unexpected cause: {:?}", other),
            }
        }
        other => panic!("unexpected result: {:?}", other),
    }
}

#[test]
fn stretch_names_are_ordered_from_narrow_to_wide() {
    assert_eq!(FontStretch::from_name("UltraCondensed").unwrap(), FontStretch::UltraCondensed);
    assert_eq!(FontStretch::from_name("Normal").unwrap(), FontStretch::Normal);
    assert_eq!(FontStretch::from_name("UltraExpanded").unwrap(), FontStretch::UltraExpanded);
    assert!(FontStretch::UltraCondensed < FontStretch::Condensed);
    assert!(FontStretch::Condensed < FontStretch::Normal);
    assert!(FontStretch::Normal < FontStretch::UltraExpanded);
    assert!(matches!(
        FontStretch::from_name("normal"),
        Err(PdfError::UnknownVariant { id: "FontStretch", .. })
    ));
}

#[test]
fn font_type_names() {
    let cases = [
        ("Type0", FontType::Type0),
        ("Type1", FontType::Type1),
        ("MMType1", FontType::MMType1),
        ("Type3", FontType::Type3),
        ("TrueType", FontType::TrueType),
        ("CIDFontType0", FontType::CIDFontType0),
        ("CIDFontType2", FontType::CIDFontType2),
    ];
    for (text, kind) in cases {
        assert_eq!(FontType::from_name(text).unwrap(), kind);
        assert_eq!(FontType::from_primitive(name(text), &NoResolve).unwrap(), kind);
    }
    assert!(matches!(
        FontType::from_primitive(whole(1), &NoResolve),
        Err(PdfError::UnexpectedPrimitive { expected: "Name", found: "Integer" })
    ));
}

fn cid_font(subtype: &str, extra: Vec<(&'static str, Primitive)>) -> Primitive {
    let mut entries = vec![
        ("Type", name("Font")),
        ("Subtype", name(subtype)),
        ("BaseFont", name("Sample-CID")),
        (
            "CIDSystemInfo",
            Primitive::Dictionary(dict(vec![
                ("Registry", Primitive::String(PdfString::new(b"Adobe".to_vec()))),
                ("Ordering", Primitive::String(PdfString::new(b"Identity".to_vec()))),
                ("Supplement", whole(0)),
            ])),
        ),
        ("FontDescriptor", descriptor()),
        ("DW", whole(1000)),
    ];
    entries.extend(extra);
    Primitive::Dictionary(dict(entries))
}

#[test]
fn a_cid_font_with_a_width_array() {
    let w = Primitive::Array(vec![
        whole(10),
        Primitive::Array(vec![whole(500), frac(510.5), whole(520)]),
        whole(20),
        whole(22),
        whole(700),
        whole(5),
        Primitive::Array(vec![whole(300)]),
    ]);
    let font =
        Font::from_primitive(cid_font("CIDFontType0", vec![("W", w)]), &NoResolve, &standard())
            .unwrap();
    assert!(font.is_cid());
    assert!(font.cid_to_gid_map().is_none());
    assert!(font.info().is_none());
    let widths = font.widths().unwrap().unwrap();
    let expected = [
        (0, 1000.0),
        (4, 1000.0),
        (5, 300.0),
        (6, 1000.0),
        (9, 1000.0),
        (10, 500.0),
        (11, 510.5),
        (12, 520.0),
        (13, 1000.0),
        (19, 1000.0),
        (20, 700.0),
        (21, 700.0),
        (22, 700.0),
        (23, 1000.0),
        (60000, 1000.0),
    ];
    for (code, width) in expected {
        assert_eq!(value(widths.get(code)), width, "code {}", code);
    }
}

#[test]
fn a_cid_font_without_a_width_array_has_only_the_default() {
    let font =
        Font::from_primitive(cid_font("CIDFontType0", vec![]), &NoResolve, &standard()).unwrap();
    let widths = font.widths().unwrap().unwrap();
    assert_eq!(value(widths.get(0)), 1000.0);
    assert_eq!(value(widths.get(123)), 1000.0);
    match &font.data {
        FontData::CIDFontType0(cid) => {
            assert!(cid.widths.is_empty());
            assert_eq!(cid.system_info.len(), 3);
            // what the record does not read is kept
            assert!(cid._other.get("CIDSystemInfo").is_none());
        }
        other => panic!("unexpected data: {:?}", other),
    }
}

#[test]
fn width_arrays() {
    let items = vec![whole(1), Primitive::Array(vec![whole(10), whole(11)]), whole(7), whole(5), whole(99)];
    let w = read_w_array(&items, Number::Integer(0)).unwrap();
    assert_eq!(w.get(0), Number::Integer(0));
    assert_eq!(w.get(1), Number::Integer(10));
    assert_eq!(w.get(2), Number::Integer(11));
    // a range whose end lies before its start sets nothing
    assert_eq!(w.get(5), Number::Integer(0));
    assert_eq!(w.get(6), Number::Integer(0));
    assert_eq!(w.get(7), Number::Integer(0));
    let empty: Vec<Primitive> = vec![];
    let w = read_w_array(&empty, Number::Integer(3)).unwrap();
    assert_eq!(w.get(0), Number::Integer(3));
}

#[test]
fn a_width_array_entry_of_neither_shape_names_what_was_found() {
    let items = vec![whole(1), name("oops")];
    match read_w_array(&items, Number::Integer(0)) {
        Err(PdfError::Other { msg }) => assert_eq!(msg, "unexpected primitive in W array: Name"),
        other => panic!("unexpected result: {:?}", other),
    }
    let items = vec![whole(1), Primitive::Array(vec![whole(5)]), whole(2)];
    match read_w_array(&items, Number::Integer(0)) {
        Err(PdfError::Other { msg }) => assert_eq!(msg, "unexpected primitive in W array: None"),
        other => panic!("unexpected result: {:?}", other),
    }
}

#[test]
fn width_array_errors() {
    let items = vec![name("a"), whole(1)];
    assert!(matches!(
        read_w_array(&items, Number::Integer(0)),
        Err(PdfError::UnexpectedPrimitive { expected: "Integer", found: "Name" })
    ));
    let items = vec![whole(1), Primitive::Array(vec![whole(5), name("wide")])];
    assert!(matches!(
        read_w_array(&items, Number::Integer(0)),
        Err(PdfError::UnexpectedPrimitive { expected: "Number", found: "Name" })
    ));
    let items = vec![whole(1), whole(2)];
    match read_w_array(&items, Number::Integer(0)) {
        Err(PdfError::Other { msg }) => assert_eq!(msg, "unexpected end of W array"),
        other => panic!("unexpected result: {:?}", other),
    }
    let items = vec![whole(1), whole(2), name("wide")];
    assert!(matches!(
        read_w_array(&items, Number::Integer(0)),
        Err(PdfError::UnexpectedPrimitive { expected: "Number", found: "Name" })
    ));
    let items = vec![whole(-1), Primitive::Array(vec![whole(5)])];
    match read_w_array(&items, Number::Integer(0)) {
        Err(PdfError::Other { msg }) => assert_eq!(msg, "negative code in W array"),
        other => panic!("unexpected result: {:?}", other),
    }
}

#[test]
fn a_malformed_width_array_fails_the_query() {
    let w = Primitive::Array(vec![whole(1), Primitive::Boolean(true)]);
    let font =
        Font::from_primitive(cid_font("CIDFontType2", vec![("W", w)]), &NoResolve, &standard())
            .unwrap();
    match font.widths() {
        Err(PdfError::Other { msg }) => assert_eq!(msg, "unexpected primitive in W array: Boolean"),
        other => panic!("unexpected result: {:?}", other),
    }
}

#[test]
fn a_cid_to_gid_table_is_read_from_a_stream() {
    let map = hex_stream(b"000100020304ff");
    let font = Font::from_primitive(
        cid_font("CIDFontType2", vec![("CIDToGIDMap", map)]),
        &NoResolve,
        &standard(),
    )
    .unwrap();
    assert!(font.is_cid());
    // a last odd byte is left out
    assert_eq!(font.cid_to_gid_map(), Some(&[1u16, 2, 0x0304][..]));
}

#[test]
fn a_cid_to_gid_table_may_be_a_reference() {
    let t = table(vec![(9, Some(hex_stream(b"00050006")))]);
    let font = Font::from_primitive(
        cid_font("CIDFontType2", vec![("CIDToGIDMap", reference(9))]),
        &t,
        &standard(),
    )
    .unwrap();
    assert_eq!(font.cid_to_gid_map(), Some(&[5u16, 6][..]));
}

#[test]
fn no_table_means_no_override() {
    for extra in [vec![], vec![("CIDToGIDMap", name("Identity"))]] {
        let font =
            Font::from_primitive(cid_font("CIDFontType2", extra), &NoResolve, &standard()).unwrap();
        assert!(font.cid_to_gid_map().is_none());
        assert!(matches!(font.data, FontData::CIDFontType2(_, None)));
    }
    // an empty table is a table
    let font = Font::from_primitive(
        cid_font("CIDFontType2", vec![("CIDToGIDMap", hex_stream(b""))]),
        &NoResolve,
        &standard(),
    )
    .unwrap();
    assert_eq!(font.cid_to_gid_map(), Some(&[][..]));
}

#[test]
fn gid_tables() {
    assert_eq!(read_gid_table(&[]), Vec::<u16>::new());
    assert_eq!(read_gid_table(&[1]), Vec::<u16>::new());
    assert_eq!(read_gid_table(&[1, 2]), vec![0x0102]);
    assert_eq!(read_gid_table(&[0xff, 0xff, 0, 0, 0x80]), vec![0xffff, 0]);
}

#[test]
fn a_type0_font_answers_through_its_first_descendant() {
    let descendant = cid_font(
        "CIDFontType2",
        vec![
            ("CIDToGIDMap", hex_stream(b"0007")),
            ("W", Primitive::Array(vec![whole(3), Primitive::Array(vec![whole(333)])])),
        ],
    );
    let descendant = match descendant {
        Primitive::Dictionary(mut d) => {
            d.insert(
                "FontDescriptor".to_string(),
                descriptor_with(vec![("FontFile2", hex_stream(b"aabb"))]),
            );
            Primitive::Dictionary(d)
        }
        _ => unreachable!(),
    };
    let t = table(vec![(20, Some(descendant))]);
    let d = dict(vec![
        ("Type", name("Font")),
        ("Subtype", name("Type0")),
        ("BaseFont", name("Sample-Identity-H")),
        ("Encoding", name("Identity-H")),
        ("DescendantFonts", Primitive::Array(vec![reference(20)])),
        ("ToUnicode", hex_stream(b"")),
    ]);
    let font = Font::from_primitive(Primitive::Dictionary(d), &t, &standard()).unwrap();
    assert_eq!(font.subtype, FontType::Type0);
    assert!(!font.is_cid());
    assert_eq!(font.encoding().map(|e| e.base), Some(BaseEncoding::IdentityH));
    assert!(font.to_unicode().is_some());
    assert_eq!(font.cid_to_gid_map(), Some(&[7u16][..]));
    assert_eq!(font.embedded_data().unwrap().unwrap(), vec![0xaa, 0xbb]);
    let widths = font.widths().unwrap().unwrap();
    assert_eq!(value(widths.get(3)), 333.0);
    assert_eq!(value(widths.get(4)), 1000.0);
    match &font.data {
        FontData::Type0(t0) => {
            assert_eq!(t0.descendant_fonts.len(), 1);
            assert!(t0.descendant_fonts[0].is_cid());
            // the key was read before the kind was looked at
            assert!(t0.to_unicode.is_none());
        }
        other => panic!("unexpected data: {:?}", other),
    }
}

#[test]
fn a_type0_font_without_descendants() {
    let d = dict(vec![
        ("Type", name("Font")),
        ("Subtype", name("Type0")),
        ("BaseFont", name("Sample")),
    ]);
    let font = Font::from_primitive(Primitive::Dictionary(d), &NoResolve, &standard()).unwrap();
    assert!(matches!(font.widths(), Ok(None)));
    assert!(font.embedded_data().is_none());
    assert!(font.cid_to_gid_map().is_none());
}

#[test]
fn a_failing_descendant_names_the_field() {
    let d = dict(vec![
        ("Type", name("Font")),
        ("Subtype", name("Type0")),
        ("BaseFont", name("Sample")),
        ("DescendantFonts", Primitive::Array(vec![reference(20)])),
    ]);
    match Font::from_primitive(Primitive::Dictionary(d), &NoResolve, &standard()) {
        Err(PdfError::FromPrimitive { typ, field, source }) => {
            assert_eq!(typ, "Type0Font");
            assert_eq!(field, "DescendantFonts");
            assert!(matches!(*source, PdfError::Reference));
        }
        other => panic!("unexpected result: {:?}", other),
    }
}

#[test]
fn a_font_that_is_its_own_descendant_is_refused() {
    let d = dict(vec![
        ("Type", name("Font")),
        ("Subtype", name("Type0")),
        ("BaseFont", name("Loop")),
        ("DescendantFonts", Primitive::Array(vec![reference(1)])),
    ]);
    let t = table(vec![(1, Some(Primitive::Dictionary(d)))]);
    assert!(Font::from_primitive(reference(1), &t, &standard()).is_err());
}

#[test]
fn encodings() {
    let e = Encoding::from_primitive(name("MacRomanEncoding"), &NoResolve).unwrap();
    assert_eq!(e.base, BaseEncoding::MacRomanEncoding);
    assert!(e.differences.is_empty());
    let d = dict(vec![
        ("BaseEncoding", name("WinAnsiEncoding")),
        (
            "Differences",
            Primitive::Array(vec![
                whole(39),
                name("quotesingle"),
                whole(96),
                name("grave"),
                name("a"),
                whole(39),
                name("quoteright"),
            ]),
        ),
    ]);
    let e = Encoding::from_primitive(Primitive::Dictionary(d), &NoResolve).unwrap();
    assert_eq!(e.base, BaseEncoding::WinAnsiEncoding);
    assert_eq!(e.differences.len(), 4);
    assert_eq!(e.difference(96).map(|s| s.as_str()), Some("grave"));
    assert_eq!(e.difference(97).map(|s| s.as_str()), Some("a"));
    // the later entry for a code is the one found
    assert_eq!(e.difference(39).map(|s| s.as_str()), Some("quoteright"));
    assert_eq!(e.difference(98), None);
    let e = Encoding::from_primitive(Primitive::Dictionary(Dictionary::new()), &NoResolve).unwrap();
    assert_eq!(e.base, BaseEncoding::Unspecified);
}

#[test]
fn encoding_errors() {
    assert!(matches!(
        Encoding::from_primitive(name("Klingon"), &NoResolve),
        Err(PdfError::UnknownVariant { id: "BaseEncoding", .. })
    ));
    assert!(matches!(
        Encoding::from_primitive(whole(1), &NoResolve),
        Err(PdfError::UnexpectedPrimitive { expected: "Dictionary or Name", found: "Integer" })
    ));
    let d = dict(vec![("Differences", Primitive::Array(vec![whole(1), Primitive::Null]))]);
    assert!(matches!(
        Encoding::from_primitive(Primitive::Dictionary(d), &NoResolve),
        Err(PdfError::UnexpectedPrimitive { expected: "Integer or Name", found: "Null" })
    ));
}

#[test]
fn a_font_is_found_through_a_reference() {
    let t = table(vec![(1, Some(true_type(vec![]))), (2, Some(reference(1)))]);
    let font = Font::from_primitive(reference(2), &t, &standard()).unwrap();
    assert_eq!(font.name, "Sample");
    assert!(matches!(
        Font::from_primitive(reference(3), &t, &standard()),
        Err(PdfError::NullRef { obj_nr: 3 })
    ));
}

#[test]
fn a_to_unicode_stream_is_kept() {
    let font = Font::from_primitive(
        true_type(vec![("ToUnicode", hex_stream(b"4142"))]),
        &NoResolve,
        &standard(),
    )
    .unwrap();
    assert_eq!(font.to_unicode().unwrap().data().unwrap(), b"AB".to_vec());
    assert!(font._other.get("ToUnicode").is_none());
}
