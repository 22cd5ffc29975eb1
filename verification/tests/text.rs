use pdf::cmap::CMap;
use pdf::font::text::{add_string, FontInfo};
use pdf::font::{Font, StandardFonts};
use pdf::object::NoResolve;
use pdf::primitive::{Dictionary, Primitive};
use std::rc::Rc;

fn name(s: &str) -> Primitive {
    Primitive::Name(s.to_string())
}

fn font(encoding: Option<&str>) -> Rc<Font> {
    let mut d = Dictionary::new();
    d.insert("Type".to_string(), name("Font"));
    d.insert("Subtype".to_string(), name("Type3"));
    d.insert("BaseFont".to_string(), name("Sample"));
    if let Some(e) = encoding {
        d.insert("Encoding".to_string(), name(e));
    }
    Rc::new(Font::from_primitive(Primitive::Dictionary(d), &NoResolve, &StandardFonts::new()).unwrap())
}

fn cmap(entries: &[(u16, &str)]) -> CMap {
    let mut m = CMap::new();
    for (code, text) in entries {
        m.insert(*code, text.to_string());
    }
    m
}

#[test]
fn a_font_without_encoding_gives_no_text() {
    let info = FontInfo { font: font(None), cmap: cmap(&[(65, "a")]) };
    let mut out = "kept".to_string();
    add_string(b"AAA", &mut out, &info);
    assert_eq!(out, "kept");
}

#[test]
fn one_byte_codes_fall_back_to_the_byte_itself() {
    let info = FontInfo {
        font: font(Some("WinAnsiEncoding")),
        cmap: cmap(&[(0x41, "alpha"), (0x02, "fi")]),
    };
    let mut out = "> ".to_string();
    add_string(&[0x41, 0x42, 0x02, 0xe9], &mut out, &info);
    assert_eq!(out, "> alphaBfi\u{e9}");
}

#[test]
fn two_byte_codes_are_read_at_every_byte() {
    let info = FontInfo {
        font: font(Some("Identity-H")),
        cmap: cmap(&[(0x0041, "A"), (0x0042, "B"), (0x4100, "!")]),
    };
    let mut out = String::new();
    // the codes 0041, 4100, 0042: every two neighbouring bytes are a code
    add_string(&[0x00, 0x41, 0x00, 0x42], &mut out, &info);
    assert_eq!(out, "A!B");
    let mut out = String::new();
    add_string(&[0x00], &mut out, &info);
    assert_eq!(out, "");
    add_string(&[], &mut out, &info);
    assert_eq!(out, "");
    // a code without a text gives nothing
    add_string(&[0x12, 0x34], &mut out, &info);
    assert_eq!(out, "");
}
