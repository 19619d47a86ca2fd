use dcim::commands::object_input::{
    any_base_digits, any_base_number_input, discard, letter_of, normalize, read_exponent,
    read_groups, standard_number_input, string_input,
};
use dcim::handler::{Handler, StackObject};
use dcim::number::{Class, Number};
use dcim::commands::accumulation::{take_group, Accumulating};
use dcim::service::{Operation, Pending, WholeOperation};

fn chars(s: &str) -> Vec<char> {
    s.chars().collect()
}

fn frame(s: &str) -> Vec<char> {
    s.chars().rev().collect()
}

fn pending_text(f: &Vec<char>) -> String {
    f.iter().rev().collect()
}

fn number(v: i64) -> Number {
    if v == 0 {
        return Number::zero(256);
    }
    let m = v.unsigned_abs();
    let bits = 64 - m.leading_zeros();
    let mut mantissa = (m << (64 - bits)).to_be_bytes().to_vec();
    while mantissa.last() == Some(&0) {
        mantissa.pop();
    }
    Number { class: Class::Finite, negative: v < 0, mantissa, exponent: bits as i32, precision: 256 }
}

fn parse_request(command: char, rest: &str, base: i64) -> (String, i32, String) {
    let mut handler = Handler::new(256);
    handler.parameter_stack[0].input_base = number(base);
    let mut frames = vec![frame(rest)];
    let r = standard_number_input(&mut handler, &mut frames, command);
    assert!(r.output.is_empty());
    let ask = r.ask.expect("the numeral goes to the service");
    assert_eq!(ask.request.precision, 256);
    let shown = match ask.pending {
        Pending::Parsed { text } => text,
        _ => panic!("the numeral is kept for the failure"),
    };
    match ask.request.operation {
        Operation::Parse { text, radix } => {
            assert_eq!(text, shown);
            (text, radix, pending_text(&frames[0]))
        }
        _ => panic!("the numeral is to be parsed"),
    }
}

#[test]
fn a_text_literal_ends_at_its_bracket() {
    let mut handler = Handler::new(256);
    let mut frames = vec![frame("later"), frame("hello] rest")];
    let r = string_input(&mut handler, &mut frames, '[');
    assert!(r.output.is_empty() && r.ask.is_none());
    assert_eq!(frames.len(), 2);
    assert_eq!(pending_text(&frames[1]), " rest");
    assert_eq!(pending_text(&frames[0]), "later");
    match &handler.main_stack[..] {
        [StackObject::String(s)] => assert_eq!(s, "hello"),
        _ => panic!("one text on the stack"),
    }
}

#[test]
fn a_text_literal_nests() {
    let mut handler = Handler::new(256);
    let mut frames = vec![frame("a[b[]]c]x")];
    let r = string_input(&mut handler, &mut frames, '[');
    assert!(r.output.is_empty());
    assert_eq!(pending_text(&frames[0]), "x");
    match &handler.main_stack[..] {
        [StackObject::String(s)] => assert_eq!(s, "a[b[]]c"),
        _ => panic!("one text on the stack"),
    }
    let mut empty = vec![frame("]")];
    string_input(&mut handler, &mut empty, '[');
    match &handler.main_stack[1] {
        StackObject::String(s) => assert_eq!(s, ""),
        _ => panic!("a text on the stack"),
    }
}

#[test]
fn a_text_literal_without_its_bracket_fails() {
    let mut handler = Handler::new(256);
    let mut frames = vec![frame("abc[d]")];
    let r = string_input(&mut handler, &mut frames, '[');
    assert_eq!(
        r.output,
        vec![Err("! Unable to parse string \"[abc[d]\": missing closing bracket".to_string())]
    );
    assert!(handler.main_stack.is_empty());
    assert_eq!(frames.len(), 1);
    assert!(frames[0].is_empty());
    let mut nothing = vec![frame("")];
    let r = string_input(&mut handler, &mut nothing, '[');
    assert_eq!(
        r.output,
        vec![Err("! Unable to parse string \"[\": missing closing bracket".to_string())]
    );
}

#[test]
fn a_numeral_is_taken_off_the_frame() {
    assert_eq!(parse_request('4', "2 +", 10), ("42".to_string(), 10, " +".to_string()));
    assert_eq!(parse_request('7', "", 10), ("7".to_string(), 10, "".to_string()));
    assert_eq!(parse_request('1', "2.5p", 10), ("12.5".to_string(), 10, "p".to_string()));
    assert_eq!(parse_request('1', "01", 2), ("101".to_string(), 2, "".to_string()));
}

#[test]
fn a_second_separator_or_sign_or_marker_ends_the_numeral() {
    assert_eq!(parse_request('1', ".2.3", 10), ("1.2".to_string(), 10, ".3".to_string()));
    assert_eq!(parse_request('_', "1_2", 10), ("-1".to_string(), 10, "_2".to_string()));
    assert_eq!(parse_request('1', "@2@3", 10), ("1@2".to_string(), 10, "@3".to_string()));
    assert_eq!(parse_request('1', "@_2", 10), ("1@-2".to_string(), 10, "".to_string()));
    assert_eq!(parse_request('_', "1@_2_", 10), ("-1@-2".to_string(), 10, "_".to_string()));
}

#[test]
fn what_a_numeral_leaves_unsaid_is_written_out() {
    assert_eq!(parse_request('.', "5", 10).0, "0.5");
    assert_eq!(parse_request('_', ".5", 10).0, "-0.5");
    assert_eq!(parse_request('@', "3", 10).0, "1@3");
    assert_eq!(parse_request('5', ".", 10).0, "5.0");
    assert_eq!(parse_request('_', " ", 10).0, "-0");
    assert_eq!(parse_request('.', "", 10).0, "0.0");
    assert_eq!(parse_request('\'', " ", 10).0, "0");
    assert_eq!(normalize(&chars("")), chars("0"));
    assert_eq!(normalize(&chars("12")), chars("12"));
    assert_eq!(normalize(&chars("-.5")), chars("-0.5"));
    assert_eq!(normalize(&chars("@")), chars("1@"));
}

#[test]
fn letters_are_digits_behind_the_quote() {
    assert_eq!(parse_request('\'', "ff p", 16), ("ff".to_string(), 16, " p".to_string()));
    assert_eq!(parse_request('\'', "FFg", 16), ("FF".to_string(), 16, "g".to_string()));
    assert_eq!(parse_request('\'', "zZ9 ", 36), ("zZ9".to_string(), 36, " ".to_string()));
    assert_eq!(parse_request('\'', "a", 10), ("0".to_string(), 10, "a".to_string()));
    assert_eq!(parse_request('1', "f", 16), ("1".to_string(), 16, "f".to_string()));
    assert_eq!(letter_of('a'), 10);
    assert_eq!(letter_of('Z'), 35);
    assert_eq!(letter_of('5'), 36);
}

#[test]
fn a_numeral_needs_a_base_of_at_most_36() {
    let mut handler = Handler::new(256);
    handler.parameter_stack[0].input_base = number(37);
    let mut frames = vec![frame("23")];
    let r = standard_number_input(&mut handler, &mut frames, '1');
    assert_eq!(
        r.output,
        vec![Err("! Any-base input must be used for input bases over 36".to_string())]
    );
    assert!(r.ask.is_none());
    assert_eq!(pending_text(&frames[0]), "23");
}

#[test]
fn the_rest_of_a_malformed_number_goes() {
    let mut f = frame("12 x) 5");
    discard(&mut f);
    assert_eq!(pending_text(&f), " 5");
    let mut open = frame("12 x");
    discard(&mut open);
    assert!(open.is_empty());
}

#[test]
fn groups_of_digits_are_read() {
    let mut f = frame("1 2 3)p");
    let g = read_groups(&mut f, &chars("10")).unwrap();
    assert_eq!(pending_text(&f), "p");
    assert!(!g.negative);
    assert_eq!(g.digits, chars("1 2 3 "));
    assert_eq!(g.fraction, 0);
    assert!(g.exponent.is_empty());

    let mut f = frame("_1 59.30 007@_3) rest");
    let g = read_groups(&mut f, &chars("60")).unwrap();
    assert_eq!(pending_text(&f), " rest");
    assert!(g.negative);
    assert_eq!(g.digits, chars("1 59 30 7 "));
    assert_eq!(g.fraction, 2);
    assert_eq!(g.exponent, chars("-3"));

    let mut f = frame("1.)");
    let g = read_groups(&mut f, &chars("10")).unwrap();
    assert_eq!(g.digits, chars("1 0 "));
    assert_eq!(g.fraction, 1);

    let mut f = frame(")");
    let g = read_groups(&mut f, &chars("10")).unwrap();
    assert_eq!(g.digits, chars("0 "));
    assert_eq!(g.fraction, 0);
}

#[test]
fn the_end_of_the_frame_closes_a_number() {
    let mut f = frame("4 5");
    let g = read_groups(&mut f, &chars("10")).unwrap();
    assert!(f.is_empty());
    assert_eq!(g.digits, chars("4 5 "));
    let mut f = frame("4@12");
    let g = read_groups(&mut f, &chars("10")).unwrap();
    assert!(f.is_empty());
    assert_eq!(g.digits, chars("4 "));
    assert_eq!(g.exponent, chars("12"));
    let mut f = frame("4@");
    let g = read_groups(&mut f, &chars("10")).unwrap();
    assert!(g.exponent.is_empty());
}

#[test]
fn malformed_numbers_fail() {
    let mut f = frame("1 10 2) 7");
    assert_eq!(
        read_groups(&mut f, &chars("10")).unwrap_err(),
        "! Unable to parse any-base number: digit '10' is too high for base 10"
    );
    assert_eq!(pending_text(&f), " 7");

    let mut f = frame("1 010) 7");
    assert_eq!(
        read_groups(&mut f, &chars("10")).unwrap_err(),
        "! Unable to parse any-base number: digit '10' is too high for base 10"
    );
    assert_eq!(pending_text(&f), " 7");

    let mut f = frame("-1_2) 7");
    assert_eq!(
        read_groups(&mut f, &chars("10")).unwrap_err(),
        "! Unable to parse any-base number: more than one negative sign"
    );
    assert_eq!(pending_text(&f), " 7");

    let mut f = frame("1.2.3) 7");
    assert_eq!(
        read_groups(&mut f, &chars("10")).unwrap_err(),
        "! Unable to parse any-base number: more than one fractional separator"
    );
    assert_eq!(pending_text(&f), " 7");

    let mut f = frame("1x2");
    assert_eq!(
        read_groups(&mut f, &chars("10")).unwrap_err(),
        "! Invalid character in any-base number: 'x'"
    );
    assert!(f.is_empty());

    let mut f = frame("1@-_2) 7");
    assert_eq!(
        read_groups(&mut f, &chars("10")).unwrap_err(),
        "! Unable to parse any-base number: more than one negative sign in exponent"
    );
    assert_eq!(pending_text(&f), " 7");

    let mut f = frame("1@2.5) 7");
    assert_eq!(
        read_groups(&mut f, &chars("10")).unwrap_err(),
        "! Unable to parse any-base number: invalid character '.' in exponent"
    );
    assert_eq!(pending_text(&f), " 7");
}

#[test]
fn digits_are_held_against_a_base_of_any_size() {
    let base = "340282366920938463463374607431768211456";
    let mut f = frame("340282366920938463463374607431768211455 1)");
    let g = read_groups(&mut f, &chars(base)).unwrap();
    assert_eq!(g.digits, chars("340282366920938463463374607431768211455 1 "));
    let mut f = frame("340282366920938463463374607431768211456)");
    assert!(read_groups(&mut f, &chars(base)).is_err());
}

#[test]
fn an_exponent_is_read() {
    let mut f = frame("12) 7");
    assert_eq!(read_exponent(&mut f).unwrap(), chars("12"));
    assert_eq!(pending_text(&f), " 7");
    let mut f = frame("_12");
    assert_eq!(read_exponent(&mut f).unwrap(), chars("-12"));
    let mut f = frame("-)");
    assert_eq!(read_exponent(&mut f).unwrap(), chars(""));
}

#[test]
fn a_number_in_any_base_asks_for_the_base_first() {
    let mut handler = Handler::new(256);
    handler.parameter_stack[0].input_base = number(60);
    let mut frames = vec![frame("1 30)")];
    let r = any_base_number_input(&mut handler, &mut frames, '(');
    assert!(r.output.is_empty());
    let ask = r.ask.unwrap();
    assert!(matches!(ask.pending, Pending::AnyBase));
    match ask.request.operation {
        Operation::Describe(numbers) => {
            assert_eq!(numbers.len(), 1);
            assert_eq!(numbers[0].magnitude(), Some(60));
        }
        _ => panic!("the base is asked for"),
    }
    assert_eq!(pending_text(&frames[0]), "1 30)");

    let r = any_base_digits(&handler, &mut frames, &"60".to_string());
    assert!(r.output.is_empty());
    assert!(frames[0].is_empty());
    let ask = r.ask.unwrap();
    match ask.pending {
        Pending::Accumulate { groups, state } => {
            assert!(!groups.negative);
            assert_eq!(groups.digits, chars("1 30 "));
            assert_eq!(groups.fraction, 0);
            assert!(groups.exponent.is_empty());
            assert!(matches!(state, Accumulating::Times { from: 0 }));
        }
        _ => panic!("the value is worked out from the groups"),
    }
    match ask.request.operation {
        Operation::Whole(WholeOperation::Product, value, base) => {
            assert_eq!(value.magnitude(), Some(0));
            assert_eq!(base.magnitude(), Some(60));
        }
        _ => panic!("the value so far times the base is asked for"),
    }
}

#[test]
fn a_number_in_any_base_at_the_end_of_the_frame_is_zero() {
    let mut handler = Handler::new(256);
    let mut frames = vec![frame("")];
    let r = any_base_number_input(&mut handler, &mut frames, '(');
    let ask = r.ask.unwrap();
    assert!(matches!(ask.pending, Pending::Push));
    assert!(matches!(ask.request.operation, Operation::Unsigned(0)));
}

#[test]
fn groups_are_taken_from_the_digits() {
    let digits = chars("12 0 7 ");
    assert_eq!(take_group(&digits, 0), (chars("12"), 3));
    assert_eq!(take_group(&digits, 3), (chars("0"), 5));
    assert_eq!(take_group(&digits, 5), (chars("7"), 7));
    assert_eq!(take_group(&chars("12"), 0), (chars("12"), 2));
    assert_eq!(take_group(&chars(" 1"), 0), (chars(""), 1));
}
