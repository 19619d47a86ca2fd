use dcim::commands::expansion::Expanding;
use dcim::commands::notation::{
    count_digits, find_last, find_nth_last, float_to_string, has, remove_first, replace_first,
    trim_end, write_bracketed, write_notation, Rendering, Stage,
};
use dcim::commands::object_input::read_groups;
use dcim::number::{Class, Number};
use dcim::service::{BinaryOperation, Operation};

fn chars(s: &str) -> Vec<char> {
    s.chars().collect()
}

fn shown(raw: &str, base: u64) -> String {
    write_notation(&chars(raw), base).iter().collect()
}

fn bracketed(negative: bool, digits: &str, scale: usize) -> String {
    write_bracketed(negative, &chars(digits), scale).iter().collect()
}

fn number(v: i64) -> Number {
    if v == 0 {
        return Number::zero(256);
    }
    let m = v.unsigned_abs();
    let bits = 64 - m.leading_zeros();
    let mut mantissa = (m << (64 - bits)).to_be_bytes().to_vec();
    while mantissa.last() == Some(&0) {
        mantissa.pop();
    }
    Number { class: Class::Finite, negative: v < 0, mantissa, exponent: bits as i32, precision: 256 }
}

#[test]
fn trailing_zeros_and_separator_go() {
    assert_eq!(shown("7.0000", 10), "7");
    assert_eq!(shown("23.00", 10), "23");
    assert_eq!(shown("17.0", 16), "17");
    assert_eq!(shown("0.5000", 10), "0.5");
    assert_eq!(shown("100", 10), "100");
    assert_eq!(shown("100.", 10), "100");
    assert_eq!(shown("1.25", 10), "1.25");
}

#[test]
fn the_sign_becomes_an_underscore() {
    assert_eq!(shown("-7.0000", 10), "_7");
    assert_eq!(shown("-0.25", 10), "_0.25");
}

#[test]
fn the_exponent_marker_becomes_an_at_sign() {
    assert_eq!(shown("1.21e24", 10), "1.21@24");
    assert_eq!(shown("1.00@20", 16), "1@20");
    assert_eq!(shown("1.0e10", 10), "1@10");
    assert_eq!(shown("1.5e-10", 10), "1.5@_10");
    assert_eq!(shown("-1.5e-10", 10), "_1.5@_10");
    assert_eq!(shown("1.e5", 16), "1.e5");
}

#[test]
fn small_negative_exponents_are_written_out() {
    assert_eq!(shown("-8.00e-1", 10), "_0.8");
    assert_eq!(shown("5.0000e-1", 10), "0.5");
    assert_eq!(shown("-1.5e-3", 10), "_0.0015");
    assert_eq!(shown("1.5e-9", 10), "0.0000000015");
    assert_eq!(shown("1.5@-2", 16), "0.015");
    assert_eq!(shown("1.5e-0", 10), "1.5@_0");
}

#[test]
fn a_marker_far_from_the_end_is_left_alone() {
    assert_eq!(shown("e23456789012", 10), "e23456789012");
    assert_eq!(shown("1@23456789012", 16), "1@23456789012");
}

#[test]
fn digits_in_a_large_base_are_bracketed() {
    assert_eq!(bracketed(false, "1 30 ", 1), "(1.30)");
    assert_eq!(bracketed(true, "1 30 ", 0), "(-1 30)");
    assert_eq!(bracketed(false, "30 ", 1), "(0.30)");
    assert_eq!(bracketed(true, "30 ", 1), "(-0.30)");
    assert_eq!(bracketed(false, "12 0 7 ", 2), "(12.0 7)");
    assert_eq!(bracketed(false, "59 ", 0), "(59)");
    assert_eq!(bracketed(false, "", 0), ")");
}

#[test]
fn characters_are_found_from_the_end() {
    assert_eq!(find_last(&chars("a.b.c"), '.'), Some(3));
    assert_eq!(find_last(&chars("abc"), '.'), None);
    assert_eq!(find_nth_last(&chars("1 2 3 "), ' ', 0), Some(5));
    assert_eq!(find_nth_last(&chars("1 2 3 "), ' ', 2), Some(1));
    assert_eq!(find_nth_last(&chars("1 2 3 "), ' ', 3), None);
    assert!(has(&chars("a.b"), '.'));
    assert!(!has(&chars("ab"), '.'));
}

#[test]
fn characters_are_removed_and_replaced() {
    let mut s = chars("1.500");
    trim_end(&mut s, '0');
    assert_eq!(s, chars("1.5"));
    let mut all = chars("000");
    trim_end(&mut all, '0');
    assert!(all.is_empty());
    assert_eq!(remove_first(&chars("1.5.2"), '.'), chars("15.2"));
    assert_eq!(remove_first(&chars("15"), '.'), chars("15"));
    assert_eq!(replace_first(&chars("-1-2"), '-', '_'), chars("_1-2"));
    assert_eq!(replace_first(&chars("12"), '-', '_'), chars("12"));
}

#[test]
fn some_numbers_have_a_fixed_text() {
    let ten = Number::ten(64);
    let sixty = number(60);
    let exact = Number::minus_one(64);
    match float_to_string(&Number::zero(256), &ten, &exact) {
        Rendering::Text(t) => assert_eq!(t, "0"),
        _ => panic!("zero has a fixed text"),
    }
    match float_to_string(&Number::zero(256), &sixty, &exact) {
        Rendering::Text(t) => assert_eq!(t, "(0)"),
        _ => panic!("zero has a fixed text"),
    }
    let infinite =
        Number { class: Class::Infinite, negative: true, mantissa: vec![], exponent: 0, precision: 8 };
    match float_to_string(&infinite, &ten, &exact) {
        Rendering::Text(t) => assert_eq!(t, "Infinity"),
        _ => panic!("the infinities have a fixed text"),
    }
    let nan = Number {
        class: Class::NotANumber,
        negative: false,
        mantissa: vec![],
        exponent: 0,
        precision: 8,
    };
    match float_to_string(&nan, &ten, &exact) {
        Rendering::Text(t) => assert_eq!(t, "Not a number"),
        _ => panic!("what is no number has a fixed text"),
    }
}

#[test]
fn other_numbers_have_their_digits_asked_for() {
    let ten = Number::ten(64);
    let exact = Number::minus_one(64);
    match float_to_string(&number(7), &ten, &exact) {
        Rendering::Ask(Operation::Digits { value, radix, count }, Stage::Digits) => {
            assert_eq!(value.magnitude(), Some(7));
            assert_eq!(radix, 10);
            assert_eq!(count, None);
        }
        _ => panic!("digits are asked for"),
    }
    match float_to_string(&number(7), &number(16), &number(5)) {
        Rendering::Ask(Operation::IntegerDigits { value, radix }, Stage::Measuring) => {
            assert_eq!(value.magnitude(), Some(7));
            assert_eq!(radix, 16);
        }
        _ => panic!("the integer part is asked for"),
    }
    match float_to_string(&number(-7), &number(60), &number(3)) {
        Rendering::Ask(
            Operation::Binary(BinaryOperation::Scale, value, base),
            Stage::Expanding(Expanding::Extending { scale: 0 }),
        ) => {
            assert!(!value.negative);
            assert_eq!(value.magnitude(), Some(7));
            assert_eq!(base.magnitude(), Some(60));
        }
        _ => panic!("the expansion begins"),
    }
    let half = Number {
        class: Class::Finite,
        negative: true,
        mantissa: vec![0x80],
        exponent: 0,
        precision: 256,
    };
    match float_to_string(&half, &number(60), &number(3)) {
        Rendering::Ask(
            Operation::Binary(BinaryOperation::Scale, _, _),
            Stage::Expanding(Expanding::Scaling { value, scale: 0 }),
        ) => assert!(!value.negative && value.has_fraction()),
        _ => panic!("the value is scaled"),
    }
    match float_to_string(&half, &number(60), &number(0)) {
        Rendering::Ask(_, Stage::Expanding(Expanding::Extending { scale: 0 })) => {}
        _ => panic!("nothing is scaled where no digit may stand behind the separator"),
    }
}

#[test]
fn digits_are_counted_from_the_integer_part() {
    let sixteen = number(16);
    let count = |precision: i64, whole: &str| match count_digits(
        &number(-255),
        &sixteen,
        &number(precision),
        &chars(whole),
    ) {
        Operation::Digits { value, radix, count } => {
            assert!(value.negative);
            assert_eq!(value.magnitude(), Some(255));
            assert_eq!(radix, 16);
            count
        }
        _ => panic!("digits are asked for"),
    };
    assert_eq!(count(5, "-ff"), Some(7));
    assert_eq!(count(5, "ff"), Some(7));
    assert_eq!(count(0, "0"), Some(1));
    assert_eq!(count(0, ""), Some(0));
    assert_eq!(count(-1, "ff"), None);
    let huge = Number {
        class: Class::Finite,
        negative: false,
        mantissa: vec![0xFF; 8],
        exponent: 64,
        precision: 64,
    };
    match count_digits(&number(1), &sixteen, &huge, &chars("1")) {
        Operation::Digits { count, .. } => assert_eq!(count, None),
        _ => panic!("digits are asked for"),
    }
}

#[test]
fn what_is_written_in_brackets_is_read_back() {
    for (negative, digits, scale) in [
        (false, "1 30 ", 0usize),
        (false, "1 30 ", 1),
        (true, "12 0 7 59 ", 2),
        (true, "12 0 7 59 ", 3),
        (false, "0 ", 0),
        (true, "59 ", 0),
    ] {
        let written = write_bracketed(negative, &chars(digits), scale);
        assert_eq!(written[0], '(');
        let mut frame: Vec<char> = written[1..].iter().rev().cloned().collect();
        let read = read_groups(&mut frame, &chars("60")).unwrap();
        assert!(frame.is_empty());
        assert_eq!(read.negative, negative);
        assert_eq!(read.digits, chars(digits));
        assert_eq!(read.fraction, scale);
        assert!(read.exponent.is_empty());
    }
}
