use pdf::font::Widths;
use pdf::primitive::{Number, Real};

fn num(x: f32) -> Number {
    Number::Real(Real { bits: x.to_bits() })
}

fn value(n: Number) -> f32 {
    match n {
        Number::Integer(i) => i as f32,
        Number::Real(r) => f32::from_bits(r.bits),
    }
}

#[test]
fn an_empty_table_gives_the_default() {
    let w = Widths::new(num(1000.0));
    assert_eq!(w.get(0), num(1000.0));
    assert_eq!(w.get(65), num(1000.0));
    assert_eq!(w.get(usize::MAX), num(1000.0));
}

#[test]
fn the_first_code_set_starts_the_run() {
    let mut w = Widths::new(num(0.0));
    w.set(32, num(250.0));
    assert_eq!(w.get(32), num(250.0));
    assert_eq!(w.get(31), num(0.0));
    assert_eq!(w.get(33), num(0.0));
    assert_eq!(w.get(0), num(0.0));
}

#[test]
fn a_run_of_codes_in_order() {
    let mut w = Widths::new(num(500.0));
    for (i, width) in [600.0f32, 610.0, 620.0].iter().enumerate() {
        w.set(10 + i, num(*width));
    }
    assert_eq!(value(w.get(9)), 500.0);
    assert_eq!(value(w.get(10)), 600.0);
    assert_eq!(value(w.get(11)), 610.0);
    assert_eq!(value(w.get(12)), 620.0);
    assert_eq!(value(w.get(13)), 500.0);
}

#[test]
fn a_code_past_the_end_leaves_a_gap_of_defaults() {
    let mut w = Widths::new(num(1.0));
    w.set(10, num(10.0));
    w.set(11, num(11.0));
    w.set(12, num(12.0));
    w.set(20, num(20.0));
    assert_eq!(value(w.get(10)), 10.0);
    assert_eq!(value(w.get(11)), 11.0);
    assert_eq!(value(w.get(12)), 12.0);
    for code in 13..20 {
        assert_eq!(value(w.get(code)), 1.0, "code {}", code);
    }
    assert_eq!(value(w.get(20)), 20.0);
    assert_eq!(value(w.get(21)), 1.0);
}

#[test]
fn a_code_before_the_start_pads_to_the_left() {
    let mut w = Widths::new(num(1.0));
    w.set(20, num(20.0));
    w.set(21, num(21.0));
    w.set(10, num(10.0));
    assert_eq!(value(w.get(9)), 1.0);
    assert_eq!(value(w.get(10)), 10.0);
    for code in 11..20 {
        assert_eq!(value(w.get(code)), 1.0, "code {}", code);
    }
    assert_eq!(value(w.get(20)), 20.0);
    assert_eq!(value(w.get(21)), 21.0);
    assert_eq!(value(w.get(22)), 1.0);
}

#[test]
fn a_code_just_before_the_start() {
    let mut w = Widths::new(num(1.0));
    w.set(5, num(5.0));
    w.set(4, num(4.0));
    assert_eq!(value(w.get(3)), 1.0);
    assert_eq!(value(w.get(4)), 4.0);
    assert_eq!(value(w.get(5)), 5.0);
    assert_eq!(value(w.get(6)), 1.0);
}

#[test]
fn setting_a_code_again_overwrites() {
    let mut w = Widths::new(num(1.0));
    w.set(5, num(5.0));
    w.set(6, num(6.0));
    w.set(7, num(7.0));
    w.set(6, num(66.0));
    assert_eq!(value(w.get(5)), 5.0);
    assert_eq!(value(w.get(6)), 66.0);
    assert_eq!(value(w.get(7)), 7.0);
}

#[test]
fn codes_set_in_any_order() {
    let codes = [50usize, 10, 30, 70, 20, 60, 40, 10, 70];
    let mut w = Widths::new(Number::Integer(-1));
    let mut expected = std::collections::BTreeMap::new();
    for (i, &code) in codes.iter().enumerate() {
        w.set(code, Number::Integer(i as i32));
        expected.insert(code, i as i32);
    }
    for code in 0..100usize {
        let want = expected.get(&code).copied().unwrap_or(-1);
        assert_eq!(w.get(code), Number::Integer(want), "code {}", code);
    }
}

#[test]
fn a_table_from_a_run() {
    let w = Widths::from_run(num(0.0), 65, vec![num(1.0), num(2.0)]);
    assert_eq!(value(w.get(64)), 0.0);
    assert_eq!(value(w.get(65)), 1.0);
    assert_eq!(value(w.get(66)), 2.0);
    assert_eq!(value(w.get(67)), 0.0);
}

#[test]
fn making_room_changes_nothing() {
    let mut w = Widths::new(num(3.0));
    w.set(4, num(4.0));
    w.ensure_capacity(1000);
    assert_eq!(value(w.get(4)), 4.0);
    assert_eq!(value(w.get(5)), 3.0);
    assert_eq!(value(w.get(999)), 3.0);
}
