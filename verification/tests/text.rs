use dcim::commands::constants::{is_well_scaled, parse_affixes};
use dcim::commands::{check_n, check_t, interleave, is_white_space, rev_str};
use dcim::handler::{Output, StackObject};
use dcim::number::{Class, Number, Relation};
use dcim::text::{
    canonical_digits, chars_of, code_of, compare_decimal, compose, digit_of, owned, parse_decimal,
    repeat_chars, reversed, slice_chars, string_of, write_decimal, write_hexadecimal,
};

fn chars(s: &str) -> Vec<char> {
    s.chars().collect()
}

fn text(v: &Vec<char>) -> String {
    v.iter().collect()
}

fn zero() -> StackObject {
    StackObject::Float(Number {
        class: Class::Zero,
        negative: false,
        mantissa: Vec::new(),
        exponent: 0,
        precision: 64,
    })
}

#[test]
fn characters_and_strings_convert_both_ways() {
    assert_eq!(chars_of("héllo"), vec!['h', 'é', 'l', 'l', 'o']);
    assert_eq!(string_of(&vec!['a', 'β', 'c']), "aβc");
    assert_eq!(string_of(&Vec::new()), "");
    assert_eq!(owned("dc"), "dc");
    assert_eq!(compose("<", &chars("mid"), ">"), "<mid>");
}

#[test]
fn slices_repeats_and_reversals() {
    assert_eq!(text(&slice_chars(&chars("abcdef"), 2, 4)), "cd");
    assert_eq!(text(&slice_chars(&chars("abcdef"), 3, 3)), "");
    assert_eq!(text(&repeat_chars(&chars("ab"), 3)), "ababab");
    assert_eq!(text(&repeat_chars(&chars("ab"), 0)), "");
    assert_eq!(text(&reversed(&chars("abc"))), "cba");
    assert_eq!(rev_str("1+ p".to_string()), "p +1");
    assert_eq!(rev_str(String::new()), "");
}

#[test]
fn numbers_are_written_in_decimal() {
    assert_eq!(text(&write_decimal(0)), "0");
    assert_eq!(text(&write_decimal(7)), "7");
    assert_eq!(text(&write_decimal(65536)), "65536");
    assert_eq!(text(&write_decimal(u64::MAX)), "18446744073709551615");
}

#[test]
fn numbers_are_written_in_hexadecimal_with_a_least_width() {
    assert_eq!(text(&write_hexadecimal(0x41, 4)), "0041");
    assert_eq!(text(&write_hexadecimal(0, 4)), "0000");
    assert_eq!(text(&write_hexadecimal(0x1F600, 4)), "1F600");
    assert_eq!(text(&write_hexadecimal(0xABCD, 1)), "ABCD");
    assert_eq!(text(&write_hexadecimal(0, 0)), "0");
}

#[test]
fn digits_and_codes() {
    assert_eq!(digit_of('0'), 0);
    assert_eq!(digit_of('9'), 9);
    assert_eq!(digit_of('a'), 0);
    assert_eq!(code_of('A'), 65);
    assert_eq!(code_of('\u{10000}'), 65536);
}

#[test]
fn decimal_numerals_are_compared_by_value() {
    assert_eq!(compare_decimal(&chars("007"), &chars("7")), Relation::Equal);
    assert_eq!(compare_decimal(&chars("10"), &chars("9")), Relation::Greater);
    assert_eq!(compare_decimal(&chars("9"), &chars("10")), Relation::Less);
    assert_eq!(compare_decimal(&chars(""), &chars("0")), Relation::Equal);
    assert_eq!(compare_decimal(&chars("123"), &chars("124")), Relation::Less);
    assert_eq!(
        compare_decimal(
            &chars("100000000000000000000000000000"),
            &chars("99999999999999999999999999999")
        ),
        Relation::Greater
    );
}

#[test]
fn leading_zeros_go() {
    assert_eq!(text(&canonical_digits(&chars("000"))), "0");
    assert_eq!(text(&canonical_digits(&chars(""))), "0");
    assert_eq!(text(&canonical_digits(&chars("0042"))), "42");
    assert_eq!(text(&canonical_digits(&chars("42"))), "42");
}

#[test]
fn decimal_numerals_are_read_up_to_the_largest() {
    assert_eq!(parse_decimal(&chars("")), Some(0));
    assert_eq!(parse_decimal(&chars("42")), Some(42));
    assert_eq!(parse_decimal(&chars("18446744073709551615")), Some(u64::MAX));
    assert_eq!(parse_decimal(&chars("18446744073709551616")), None);
    assert_eq!(parse_decimal(&chars("99999999999999999999")), None);
}

#[test]
fn arity_is_checked() {
    let mut output: Vec<Output> = Vec::new();
    assert!(check_n('+', 2, &mut output));
    assert!(check_n('v', 1, &mut output));
    assert!(check_n('|', 3, &mut output));
    assert!(output.is_empty());
    assert!(!check_n('+', 1, &mut output));
    assert!(!check_n('|', 2, &mut output));
    assert!(!check_n('v', 0, &mut output));
    assert_eq!(
        output,
        vec![
            Err("! Insufficient arguments for command '+'".to_string()),
            Err("! Insufficient arguments for command '|'".to_string()),
            Err("! Insufficient arguments for command 'v'".to_string()),
        ]
    );
}

#[test]
fn kinds_are_checked() {
    let mut output: Vec<Output> = Vec::new();
    let number = zero();
    let word = StackObject::String("a".to_string());
    assert!(check_t('+', &number, Some(&number), None, &mut output));
    assert!(check_t('+', &word, Some(&word), None, &mut output));
    assert!(check_t('-', &word, Some(&number), None, &mut output));
    assert!(check_t('X', &word, Some(&number), None, &mut output));
    assert!(check_t('g', &word, None, None, &mut output));
    assert!(check_t('|', &number, Some(&number), Some(&number), &mut output));
    assert!(output.is_empty());
    assert!(!check_t('+', &word, Some(&number), None, &mut output));
    assert!(!check_t('-', &number, Some(&word), None, &mut output));
    assert!(!check_t('X', &number, Some(&number), None, &mut output));
    assert!(!check_t('v', &word, None, None, &mut output));
    assert!(!check_t('|', &number, Some(&number), Some(&word), &mut output));
    assert_eq!(output.len(), 5);
    assert_eq!(output[0], Err("! Invalid argument type(s) for command '+'".to_string()));
    assert_eq!(output[4], Err("! Invalid argument type(s) for command '|'".to_string()));
}

#[test]
fn kinds_of_values_are_told_apart() {
    let number = zero();
    let word = StackObject::String("a".to_string());
    assert!(number.is_float() && !number.is_string());
    assert!(word.is_string() && !word.is_float());
    assert!(number.is_equal_type(&number));
    assert!(word.is_equal_type(&word));
    assert!(!word.is_equal_type(&number));
    assert_eq!(word.get_string(), "a");
    assert_eq!(number.get_float().class, Class::Zero);
}

#[test]
fn white_space_is_recognised() {
    assert!(is_white_space(' '));
    assert!(is_white_space('\n'));
    assert!(is_white_space('\t'));
    assert!(is_white_space('\u{3000}'));
    assert!(!is_white_space('a'));
    assert!(!is_white_space('\0'));
    for code in 0..0x3100u32 {
        if let Some(c) = char::from_u32(code) {
            assert_eq!(is_white_space(c), c.is_whitespace());
        }
    }
}

#[test]
fn messages_are_put_together() {
    let parts = vec!["a ".to_string(), " b ".to_string(), " c".to_string()];
    let texts = vec!["1".to_string(), "2".to_string()];
    assert_eq!(interleave(&parts, &texts), "a 1 b 2 c");
    assert_eq!(interleave(&parts, &vec!["1".to_string()]), "a 1 b  c");
    assert_eq!(interleave(&vec!["only".to_string()], &texts), "only");
    assert_eq!(interleave(&Vec::new(), &texts), "");
}

#[test]
fn names_are_taken_apart() {
    let plain = parse_affixes(&chars("pi"));
    assert_eq!((plain.scale.as_str(), plain.name.as_str(), plain.power.as_str()), ("0", "pi", "1"));
    let scaled = parse_affixes(&chars("-3m2"));
    assert_eq!(
        (scaled.scale.as_str(), scaled.name.as_str(), scaled.power.as_str()),
        ("-3", "m", "2")
    );
    let digits = parse_affixes(&chars("12"));
    assert_eq!(
        (digits.scale.as_str(), digits.name.as_str(), digits.power.as_str()),
        ("12", "", "1")
    );
    let nothing = parse_affixes(&chars(""));
    assert_eq!(
        (nothing.scale.as_str(), nothing.name.as_str(), nothing.power.as_str()),
        ("0", "", "1")
    );
    assert!(is_well_scaled(&chars("-3")));
    assert!(is_well_scaled(&chars("12")));
    assert!(!is_well_scaled(&chars("-")));
    assert!(!is_well_scaled(&chars("")));
    assert!(!is_well_scaled(&chars("1-2")));
    assert!(!is_well_scaled(&chars("--2")));
}

#[test]
fn what_is_written_in_decimal_is_read_back() {
    for n in [0u64, 1, 9, 10, 99, 100, 12345, 65536, u64::MAX] {
        assert_eq!(parse_decimal(&write_decimal(n)), Some(n));
        assert_eq!(canonical_digits(&write_decimal(n)), write_decimal(n));
    }
    for digits in ["0", "00", "007", "42", "000123"] {
        let value = parse_decimal(&chars(digits)).unwrap();
        assert_eq!(canonical_digits(&chars(digits)), write_decimal(value));
    }
}
