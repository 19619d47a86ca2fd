use dcim::commands::engine::{begin, execute, resume, step, Execution, Progress};
use dcim::handler::{Command, Handler, Output, StackObject};
use dcim::number::{Class, Number};
use dcim::service::{
    BinaryOperation, Operation, Pending, Reply, Request, UnaryOperation, WholeOperation,
};

fn from_double(x: f64) -> Number {
    let plain = |class: Class, negative: bool| Number {
        class,
        negative,
        mantissa: Vec::new(),
        exponent: 0,
        precision: 256,
    };
    if x.is_nan() {
        return plain(Class::NotANumber, false);
    }
    if x.is_infinite() {
        return plain(Class::Infinite, x < 0.0);
    }
    if x == 0.0 {
        return plain(Class::Zero, false);
    }
    let bits = x.to_bits();
    let stored = ((bits >> 52) & 0x7FF) as i32;
    let fraction = bits & ((1u64 << 52) - 1);
    let (mantissa, exponent) =
        if stored == 0 { (fraction, -1074) } else { (fraction | (1u64 << 52), stored - 1075) };
    let shift = mantissa.leading_zeros();
    let mut bytes = (mantissa << shift).to_be_bytes().to_vec();
    while bytes.last() == Some(&0) {
        bytes.pop();
    }
    Number {
        class: Class::Finite,
        negative: x < 0.0,
        mantissa: bytes,
        exponent: exponent + 64 - shift as i32,
        precision: 256,
    }
}

fn to_double(n: &Number) -> f64 {
    let sign = if n.negative { -1.0 } else { 1.0 };
    match n.class {
        Class::Zero => 0.0,
        Class::Infinite => sign * f64::INFINITY,
        Class::NotANumber => f64::NAN,
        Class::Finite => {
            let mut bytes = [0u8; 8];
            for (i, b) in n.mantissa.iter().take(8).enumerate() {
                bytes[i] = *b;
            }
            sign * (u64::from_be_bytes(bytes) as f64) * 2f64.powi(n.exponent - 64)
        }
    }
}

fn number(v: i64) -> Number {
    from_double(v as f64)
}

fn integer(n: &Number) -> i64 {
    let m = n.magnitude().expect("a small number") as i64;
    if n.negative {
        -m
    } else {
        m
    }
}

fn whole(n: &Number) -> f64 {
    to_double(n).trunc()
}

fn in_radix(v: i64, radix: u32) -> String {
    let mut digits = Vec::new();
    let mut rest = v.unsigned_abs();
    loop {
        digits.push(char::from_digit((rest % radix as u64) as u32, radix).unwrap());
        rest /= radix as u64;
        if rest == 0 {
            break;
        }
    }
    let body: String = digits.iter().rev().collect();
    if v < 0 {
        format!("-{}", body)
    } else {
        body
    }
}

/// Arithmetic on binary doubles, in place of the arithmetic service.
fn serve(request: Request) -> Reply {
    let answer = |x: f64| Reply::Number(from_double(x));
    match request.operation {
        Operation::Parse { text, radix } => match i64::from_str_radix(&text, radix as u32) {
            Ok(v) => answer(v as f64),
            Err(_) => match text.parse::<f64>() {
                Ok(v) if radix == 10 && !text.contains('-') || text.starts_with('-') => answer(v),
                _ => Reply::Rejected("not a numeral".to_string()),
            },
        },
        Operation::Numeral(text) => answer(text.parse::<i64>().unwrap() as f64),
        Operation::Unsigned(v) => answer(v as f64),
        Operation::Integer(n) => answer(whole(&n)),
        Operation::Nearest(n) => answer(to_double(&n).round()),
        Operation::Bytes(bytes) => answer(bytes.iter().fold(0.0, |acc, b| acc * 256.0 + *b as f64)),
        Operation::ToBytes(n) => {
            let mut bytes = integer(&n).unsigned_abs().to_be_bytes().to_vec();
            while bytes.first() == Some(&0) {
                bytes.remove(0);
            }
            Reply::Bytes(bytes)
        }
        Operation::Unary(UnaryOperation::TenTo, a) => answer(10f64.powf(to_double(&a))),
        Operation::Unary(..) => panic!("not in the stand-in"),
        Operation::Binary(op, a, b) => {
            let (x, y) = (to_double(&a), to_double(&b));
            answer(match op {
                BinaryOperation::Add => x + y,
                BinaryOperation::Subtract => x - y,
                BinaryOperation::Multiply => x * y,
                BinaryOperation::Divide => x / y,
                BinaryOperation::Remainder => x.trunc() % y.trunc(),
                BinaryOperation::Power => x.powf(y),
                BinaryOperation::Scale => x * y.trunc(),
                BinaryOperation::Shrink => x / y.trunc(),
                BinaryOperation::Raise => x.powf(y.trunc()),
                _ => panic!("not in the stand-in"),
            })
        }
        Operation::Whole(op, a, b) => {
            let (x, y) = (whole(&a), whole(&b));
            answer(match op {
                WholeOperation::Sum => x + y,
                WholeOperation::Product => x * y,
                WholeOperation::Quotient => (x / y).trunc(),
            })
        }
        Operation::Euclid(a, b) | Operation::WholeEuclid(a, b) => {
            let (x, y) = (whole(&a), whole(&b));
            Reply::Pair(from_double(x.div_euclid(y)), from_double(x.rem_euclid(y)))
        }
        Operation::PowerMod(a, b, c) => {
            let (x, y, m) = (integer(&a), integer(&b), integer(&c));
            if y < 0 {
                Reply::Missing
            } else {
                let mut r = 1i64;
                for _ in 0..y {
                    r = (r * x).rem_euclid(m);
                }
                answer(r as f64)
            }
        }
        Operation::IntegerDigits { value, radix } => {
            Reply::Text(in_radix(whole(&value) as i64, radix as u32))
        }
        Operation::Digits { value, radix, .. } => {
            let x = to_double(&value);
            if x.fract() == 0.0 {
                Reply::Text(format!("{}.000", in_radix(x as i64, radix as u32)))
            } else {
                assert_eq!(radix, 10);
                Reply::Text(format!("{}00", x))
            }
        }
        Operation::Describe(numbers) => Reply::Texts(
            numbers
                .iter()
                .map(|n| match n.magnitude() {
                    Some(_) => integer(n).to_string(),
                    None => "many".to_string(),
                })
                .collect(),
        ),
        Operation::Named(name) => match name.as_str() {
            "one" => answer(1.0),
            "six" => answer(6.0),
            _ => Reply::Missing,
        },
    }
}

fn finish(handler: &mut Handler, execution: &mut Execution, output: &mut Vec<Output>) {
    loop {
        match step(handler, execution, output) {
            Progress::Finished => break,
            Progress::Ready => {}
            Progress::Waiting(first) => {
                let mut ask = first;
                loop {
                    let reply = serve(ask.request);
                    match resume(handler, execution, ask.pending, reply, output) {
                        Progress::Waiting(next) => ask = next,
                        _ => break,
                    }
                }
            }
        }
    }
}

fn run(handler: &mut Handler, text: &str) -> Vec<Output> {
    let mut execution = begin(text);
    let mut output = Vec::new();
    finish(handler, &mut execution, &mut output);
    output
}

fn fresh(text: &str) -> (Handler, Vec<Output>) {
    let mut handler = Handler::new(256);
    let output = run(&mut handler, text);
    (handler, output)
}

fn said(text: &str) -> Output {
    Ok((Some(text.to_string()), vec![Command::NoOp]))
}

fn failed(text: &str) -> Output {
    Err(text.to_string())
}

fn stack(handler: &Handler) -> Vec<String> {
    handler
        .main_stack
        .iter()
        .map(|v| match v {
            StackObject::Float(n) => integer(n).to_string(),
            StackObject::String(s) => format!("[{}]", s),
        })
        .collect()
}

#[test]
fn a_sum_is_printed() {
    let (handler, output) = fresh("3 4 + p");
    assert_eq!(output, vec![said("7")]);
    assert_eq!(stack(&handler), vec!["7"]);
}

#[test]
fn texts_are_joined_and_printed_in_brackets() {
    let (handler, output) = fresh("[hello] [ world]+p");
    assert_eq!(output, vec![said("[hello world]")]);
    assert_eq!(stack(&handler), vec!["[hello world]"]);
}

#[test]
fn a_macro_is_called_several_times_over() {
    let mut handler = Handler::new(256);
    handler.main_stack.push(StackObject::Float(number(0)));
    let output = run(&mut handler, "[1+]2X");
    assert!(output.is_empty());
    assert_eq!(stack(&handler), vec!["2"]);
    let (handler, output) = fresh("5[1+]0X");
    assert!(output.is_empty());
    assert_eq!(stack(&handler), vec!["5"]);
    let (_, output) = fresh("[1+]_1X");
    assert_eq!(output, vec![failed("! Invalid macro repeat count: -1")]);
}

#[test]
fn division_by_zero_and_roots_of_negative_numbers_fail() {
    let (handler, output) = fresh("5 0 %");
    assert_eq!(output, vec![failed("! Arithmetic error: Attempted reduction mod 0")]);
    assert!(handler.main_stack.is_empty());
    let (handler, output) = fresh("5 0 /");
    assert_eq!(output, vec![failed("! Arithmetic error: Attempted division by zero")]);
    assert!(handler.main_stack.is_empty());
    let (handler, output) = fresh("_1 v");
    assert_eq!(
        output,
        vec![failed("! Arithmetic error: Roots of negative numbers are not allowed")]
    );
    assert!(handler.main_stack.is_empty());
    let (_, output) = fresh("5 0 ~");
    assert_eq!(output, vec![failed("! Arithmetic error: Attempted reduction mod 0")]);
    let (_, output) = fresh("2 3 0 |");
    assert_eq!(output, vec![failed("! Arithmetic error: Attempted reduction mod 0")]);
    let (_, output) = fresh("_8 3 V");
    assert_eq!(
        output,
        vec![failed("! Arithmetic error: Roots of negative numbers are not allowed")]
    );
}

#[test]
fn logarithms_and_arcs_have_their_domains() {
    let (_, output) = fresh("0 g");
    assert_eq!(
        output,
        vec![failed("! Arithmetic error: Logarithms of zero and negative numbers are not allowed")]
    );
    let (_, output) = fresh("_3 2 G");
    assert_eq!(
        output,
        vec![failed("! Arithmetic error: Logarithms of zero and negative numbers are not allowed")]
    );
    let (_, output) = fresh("3 1 G");
    assert_eq!(
        output,
        vec![failed("! Arithmetic error: Logarithm base must be positive and not equal to 1")]
    );
    let (_, output) = fresh("3 0 G");
    assert_eq!(
        output,
        vec![failed("! Arithmetic error: Logarithm base must be positive and not equal to 1")]
    );
    let (_, output) = fresh("2 U");
    assert_eq!(output, vec![failed("! Arithmetic error: Arc-sine of value outside [-1,1]")]);
    let (_, output) = fresh("_2 Y");
    assert_eq!(output, vec![failed("! Arithmetic error: Arc-cosine of value outside [-1,1]")]);
    let (_, output) = fresh("0 N");
    assert_eq!(output, vec![failed("! Upper bound for random value must be above 0")]);
    let (handler, output) = fresh("5 N");
    assert!(output.is_empty());
    assert!(handler.main_stack.is_empty());
}

#[test]
fn functions_of_a_number_go_to_the_service() {
    let mut handler = Handler::new(256);
    handler.main_stack.push(StackObject::Float(number(1)));
    let mut execution = begin("u");
    let mut output = Vec::new();
    match step(&mut handler, &mut execution, &mut output) {
        Progress::Waiting(ask) => {
            assert_eq!(ask.request.precision, 256);
            assert!(matches!(ask.pending, Pending::Push));
            match ask.request.operation {
                Operation::Unary(dcim::service::UnaryOperation::Sine, n) => {
                    assert_eq!(integer(&n), 1)
                }
                _ => panic!("the sine is asked for"),
            }
        }
        _ => panic!("the service is asked"),
    }
    assert!(handler.main_stack.is_empty());
    assert!(output.is_empty());
}

#[test]
fn too_few_operands_leave_the_stack_alone() {
    let (handler, output) = fresh("1 +");
    assert_eq!(output, vec![failed("! Insufficient arguments for command '+'")]);
    assert_eq!(stack(&handler), vec!["1"]);
    let (handler, output) = fresh("1 2 |");
    assert_eq!(output, vec![failed("! Insufficient arguments for command '|'")]);
    assert_eq!(stack(&handler), vec!["1", "2"]);
    let (_, output) = fresh("v");
    assert_eq!(output, vec![failed("! Insufficient arguments for command 'v'")]);
}

#[test]
fn operands_of_the_wrong_kind_are_lost() {
    let (handler, output) = fresh("9 [a] 1 +");
    assert_eq!(output, vec![failed("! Invalid argument type(s) for command '+'")]);
    assert_eq!(stack(&handler), vec!["9"]);
    let (handler, output) = fresh("1 [a] -");
    assert_eq!(output, vec![failed("! Invalid argument type(s) for command '-'")]);
    assert!(handler.main_stack.is_empty());
    let (handler, output) = fresh("[a] v");
    assert_eq!(output, vec![failed("! Invalid argument type(s) for command 'v'")]);
    assert!(handler.main_stack.is_empty());
}

#[test]
fn whole_number_arithmetic() {
    let (_, output) = fresh("7 3 - p 7 3 * p 6 3 / p 7 3 % p 2 5 ^ p");
    assert_eq!(output, vec![said("4"), said("21"), said("2"), said("1"), said("32")]);
    let (handler, _) = fresh("_7 3 ~");
    assert_eq!(stack(&handler), vec!["-3", "2"]);
    let (_, output) = fresh("4 3 5 | p");
    assert_eq!(output, vec![said("4")]);
    let (_, output) = fresh("4 _1 6 |");
    assert_eq!(output, vec![failed("! Arithmetic error: 4 doesn't have an inverse mod 6")]);
}

#[test]
fn texts_are_cut_repeated_and_split() {
    let (_, output) = fresh("[hello]2-p");
    assert_eq!(output, vec![said("[hel]")]);
    let (_, output) = fresh("[hello]_2-p");
    assert_eq!(output, vec![said("[llo]")]);
    let (_, output) = fresh("[hello]9-p");
    assert_eq!(output, vec![said("[]")]);
    let (_, output) = fresh("[ab]3*p");
    assert_eq!(output, vec![said("[ababab]")]);
    let (_, output) = fresh("[ab]_2*p");
    assert_eq!(output, vec![said("[baba]")]);
    let (_, output) = fresh("[hello]2/p");
    assert_eq!(output, vec![said("[he]")]);
    let (_, output) = fresh("[hello]_2/p");
    assert_eq!(output, vec![said("[lo]")]);
    let (_, output) = fresh("[hello]9/p");
    assert_eq!(output, vec![said("[hello]")]);
    let (handler, _) = fresh("[hello]2~");
    assert_eq!(stack(&handler), vec!["[he]", "[llo]"]);
    let (handler, _) = fresh("[hello]9~");
    assert_eq!(stack(&handler), vec!["[hello]", "[]"]);
    let (_, output) = fresh("[hello]_1~");
    assert_eq!(output, vec![failed("! Cannot possibly split a string at character -1")]);
    let (_, output) = fresh("[héllo]gp");
    assert_eq!(output, vec![said("5")]);
}

#[test]
fn printing() {
    let (handler, output) = fresh("1 [two] 3 f");
    assert_eq!(output, vec![said("3"), said("[two]"), said("1")]);
    assert_eq!(handler.main_stack.len(), 3);
    let (handler, output) = fresh("5 n [a] n");
    assert_eq!(
        output,
        vec![
            Ok((Some("5".to_string()), vec![Command::NoNewLine])),
            Ok((Some("[a]".to_string()), vec![Command::NoNewLine])),
        ]
    );
    assert!(handler.main_stack.is_empty());
    let (handler, output) = fresh("5 P [a] P");
    assert_eq!(output, vec![said("5"), said("a")]);
    assert!(handler.main_stack.is_empty());
    let (_, output) = fresh("p f");
    assert!(output.is_empty());
    let (_, output) = fresh("n");
    assert_eq!(output, vec![failed("! Insufficient arguments for command 'n'")]);
    let (_, output) = fresh("0 p _12 p");
    assert_eq!(output, vec![said("0"), said("_12")]);
}

#[test]
fn a_register_is_printed_with_its_arrays() {
    let (_, output) = fresh("5sa [x] 0:a 7 10:a [top]Sa Fa");
    let mut expected = vec![said("[top]"), said("5"), said("\t 0: [x]")];
    for i in 1..10 {
        expected.push(said(&format!("\t {}: 0", i)));
    }
    expected.push(said("\t10: 7"));
    assert_eq!(output, expected);
    let (_, output) = fresh("Fa");
    assert!(output.is_empty());
    let (_, output) = fresh("F");
    assert_eq!(output, vec![failed("! No register number provided")]);
}

#[test]
fn the_stack_is_rearranged() {
    let (handler, _) = fresh("1 2 3 r");
    assert_eq!(stack(&handler), vec!["1", "3", "2"]);
    let (handler, _) = fresh("1 2 3 2R");
    assert_eq!(stack(&handler), vec!["1", "3", "2"]);
    let (handler, _) = fresh("1 2 3 3R");
    assert_eq!(stack(&handler), vec!["3", "1", "2"]);
    let (handler, _) = fresh("1 2 3 _3R");
    assert_eq!(stack(&handler), vec!["2", "3", "1"]);
    let (handler, _) = fresh("1 2 3 0R");
    assert_eq!(stack(&handler), vec!["1", "2", "3"]);
    let (_, output) = fresh("1 2 3 4R");
    assert_eq!(output, vec![failed("! Not enough objects to rotate")]);
    let (_, output) = fresh("1 r");
    assert_eq!(output, vec![failed("! Not enough objects to rotate")]);
    let (handler, _) = fresh("1 d");
    assert_eq!(stack(&handler), vec!["1", "1"]);
    let (_, output) = fresh("d");
    assert_eq!(output, vec![failed("! Nothing to duplicate")]);
    let (handler, _) = fresh("1 2 2D");
    assert_eq!(stack(&handler), vec!["1", "2", "1", "2"]);
    let (_, output) = fresh("1 2 3D");
    assert_eq!(output, vec![failed("! Not enough objects to duplicate")]);
    let (_, output) = fresh("1 2 _1D");
    assert_eq!(output, vec![failed("! Cannot possibly duplicate -1 objects")]);
    let (handler, _) = fresh("1 2 3 2C");
    assert_eq!(stack(&handler), vec!["1"]);
    let (handler, _) = fresh("1 2 3 9C");
    assert!(handler.main_stack.is_empty());
    let (_, output) = fresh("1 _2C");
    assert_eq!(output, vec![failed("! Cannot possibly remove -2 objects from the main stack")]);
    let (handler, _) = fresh("1 2 3 c");
    assert!(handler.main_stack.is_empty());
}

#[test]
fn opcodes_without_operands_work_on_an_empty_stack() {
    let (handler, output) = fresh("c");
    assert!(output.is_empty());
    assert!(handler.main_stack.is_empty());
    let (handler, output) = fresh("z");
    assert!(output.is_empty());
    assert_eq!(stack(&handler), vec!["0"]);
    let (handler, output) = fresh("1 2 z");
    assert!(output.is_empty());
    assert_eq!(stack(&handler), vec!["1", "2", "2"]);
}

#[test]
fn there_is_always_a_context() {
    let (handler, output) = fresh("}}}}");
    assert!(output.is_empty());
    assert_eq!(handler.parameter_stack.len(), 1);
    let context = &handler.parameter_stack[0];
    assert_eq!(integer(&context.output_precision), -1);
    assert_eq!(integer(&context.input_base), 10);
    assert_eq!(integer(&context.output_base), 10);
    let (handler, _) = fresh("{{}");
    assert_eq!(handler.parameter_stack.len(), 2);
    let (handler, _) = fresh("16o 2i } ");
    assert_eq!(handler.parameter_stack.len(), 1);
    assert_eq!(integer(&handler.parameter_stack[0].output_base), 10);
    assert_eq!(integer(&handler.parameter_stack[0].input_base), 10);
}

#[test]
fn contexts_scope_the_parameters() {
    let (_, output) = fresh("{ 16o 255p } 255p");
    assert_eq!(output, vec![said("ff"), said("255")]);
    let (_, output) = fresh("2i 101p");
    assert_eq!(output, vec![said("5")]);
    let (_, output) = fresh("Kp Ip Op Wp");
    assert_eq!(output, vec![said("_1"), said("10"), said("10"), said("256")]);
    let (handler, output) = fresh("5k 16i 'A o 40w");
    assert!(output.is_empty());
    assert_eq!(integer(&handler.parameter_stack[0].output_precision), 5);
    assert_eq!(integer(&handler.parameter_stack[0].input_base), 16);
    assert_eq!(integer(&handler.parameter_stack[0].output_base), 10);
    assert_eq!(handler.working_precision, 64);
}

#[test]
fn parameters_have_their_ranges() {
    let (handler, output) = fresh("_2k 1i 1o 0w");
    assert_eq!(
        output,
        vec![
            failed("! Output precision must be at least -1"),
            failed("! Input base must be at least 2"),
            failed("! Output base must be at least 2"),
            failed("! Working precision must be between 1 and 4294967295 (inclusive)"),
        ]
    );
    assert_eq!(integer(&handler.parameter_stack[0].output_precision), -1);
    assert_eq!(handler.working_precision, 256);
    let (handler, output) = fresh("_1k 2o 1w 2i");
    assert!(output.is_empty());
    assert_eq!(handler.working_precision, 1);
}

#[test]
fn a_large_output_base_prints_in_brackets() {
    let (_, output) = fresh("60o 3661p 0p");
    assert_eq!(output, vec![said("(1 1 1)"), said("(0)")]);
}

#[test]
fn registers_hold_values() {
    let (_, output) = fresh("5sa la p");
    assert_eq!(output, vec![said("5")]);
    let (_, output) = fresh("lb");
    assert_eq!(output, vec![failed("! Register 98 is empty")]);
    let (handler, output) = fresh("1Sa 2Sa Za p La p La p La");
    assert_eq!(
        output,
        vec![said("2"), said("2"), said("1"), failed("! Register 97 is empty")]
    );
    assert_eq!(stack(&handler), vec!["2", "2", "1"]);
    let (handler, _) = fresh("1Sa 2Sa 3sa");
    assert_eq!(handler.registers[97].len(), 2);
    assert_eq!(handler.registers.len(), 65536);
}

#[test]
fn registers_hold_arrays() {
    let (handler, output) = fresh("1 2 3:a 3;a p 0;a p");
    assert_eq!(output, vec![said("2"), said("0")]);
    assert_eq!(stack(&handler), vec!["1", "2", "0"]);
    assert_eq!(handler.registers[97].len(), 1);
    assert_eq!(handler.registers[97][0].array.len(), 4);
    let (_, output) = fresh("1 _2:a");
    assert_eq!(output, vec![failed("! Cannot possibly save to array index -2")]);
    let (_, output) = fresh("_2;a");
    assert_eq!(output, vec![failed("! Cannot possibly load from array index -2")]);
    let (_, output) = fresh("1 [x]:a");
    assert_eq!(output, vec![failed("! Invalid argument type(s) for command ':'")]);
}

#[test]
fn the_buffer_moves_entries() {
    let (_, output) = fresh("5sa ja 9sb hb lb p Zb p");
    assert_eq!(output, vec![said("5"), said("1")]);
    let (handler, output) = fresh("5sa 1 0:a Ja Za p Hb Hb Zb p 0;b p");
    assert_eq!(output, vec![said("0"), said("2"), said("1")]);
    assert!(handler.registers[97].is_empty());
    let (_, output) = fresh("ja");
    assert_eq!(output, vec![failed("! Register 97 is empty")]);
    let (_, output) = fresh("Ja");
    assert_eq!(output, vec![failed("! Register 97 is empty")]);
}

#[test]
fn a_register_is_selected_by_number() {
    let (handler, output) = fresh("7 100,s 100,l p");
    assert_eq!(output, vec![said("7")]);
    assert_eq!(handler.registers[100].len(), 1);
    assert_eq!(handler.direct_register_selector, None);
    let (handler, _) = fresh("7 65535,");
    assert_eq!(handler.direct_register_selector, Some(65535));
}

#[test]
fn there_is_no_register_beyond_the_last() {
    let (handler, output) = fresh("l\u{10000}");
    assert_eq!(output, vec![failed("! Register 65536 is not available")]);
    assert_eq!(handler.registers.len(), 65536);
    let (_, output) = fresh("5s\u{10FFFF}");
    assert_eq!(output, vec![failed("! Register 1114111 is not available")]);
    let (handler, output) = fresh("65536,");
    assert_eq!(output, vec![failed("! Register 65536 is not available")]);
    assert_eq!(handler.direct_register_selector, None);
    let (_, output) = fresh("_1,");
    assert_eq!(output, vec![failed("! Register -1 cannot possibly exist")]);
    for opcode in ["S", "L", "j", "J", "h", "H", "Z", "F"] {
        let (_, output) = fresh(&format!("1 {}\u{10000}", opcode));
        assert_eq!(output, vec![failed("! Register 65536 is not available")]);
    }
    let (_, output) = fresh("1 2 :\u{10000}");
    assert_eq!(output, vec![failed("! Register 65536 is not available")]);
    let (_, output) = fresh("1 ;\u{10000}");
    assert_eq!(output, vec![failed("! Register 65536 is not available")]);
    let (_, output) = fresh("1 2 <\u{10000}");
    assert_eq!(output, vec![failed("! Register 65536 is not available")]);
}

#[test]
fn a_register_opcode_uses_up_its_selector() {
    let (_, output) = fresh("l");
    assert_eq!(output, vec![failed("! No register number provided")]);
    let (_, output) = fresh("5s");
    assert_eq!(output, vec![failed("! No register number provided")]);
    let (_, output) = fresh("sp");
    assert_eq!(output, vec![failed("! Insufficient arguments for command 's'")]);
    let (_, output) = fresh("1 :p");
    assert_eq!(output, vec![failed("! Insufficient arguments for command ':'")]);
    let (handler, output) = fresh("[a] 1 <p");
    assert_eq!(output, vec![failed("! Invalid argument type(s) for command '<'")]);
    assert!(handler.main_stack.is_empty());
    let mut handler = Handler::new(256);
    handler.direct_register_selector = Some(5);
    let output = run(&mut handler, "sp");
    assert_eq!(output, vec![failed("! Insufficient arguments for command 's'")]);
    assert_eq!(handler.direct_register_selector, None);
}

#[test]
fn macros_run() {
    let (_, output) = fresh("[3p]x");
    assert_eq!(output, vec![said("3")]);
    let (handler, output) = fresh("5x");
    assert!(output.is_empty());
    assert_eq!(stack(&handler), vec!["5"]);
    let (_, output) = fresh("x");
    assert_eq!(output, vec![failed("! Insufficient arguments for command 'x'")]);
    let (_, output) = fresh("[[5p 2Q 6p]x 7p]x 8p");
    assert_eq!(output, vec![said("5"), said("8")]);
    let (_, output) = fresh("[5p 9Q 6p]x 8p");
    assert_eq!(output, vec![said("5")]);
    let (_, output) = fresh("_1Q");
    assert_eq!(output, vec![failed("! Cannot possibly quit -1 levels")]);
    let (_, output) = fresh("1p #2p");
    assert_eq!(output, vec![said("1")]);
}

#[test]
fn conditionals_compare_the_top_with_the_one_below() {
    let (handler, output) = fresh("[1p]sa 2 3 >a");
    assert_eq!(output, vec![said("1")]);
    assert_eq!(stack(&handler), vec!["1"]);
    let (_, output) = fresh("[1p]sa 2 3 <a");
    assert!(output.is_empty());
    let (_, output) = fresh("[1p]sa 2 3 =a 2 2 =a");
    assert_eq!(output, vec![said("1")]);
    let (_, output) = fresh("[1p]sa 2 3 !<a");
    assert_eq!(output, vec![said("1")]);
    let (_, output) = fresh("[1p]sa 2 3 !>a");
    assert!(output.is_empty());
    let (_, output) = fresh("[1p]sa 2 3 ! >a");
    assert_eq!(output, vec![said("1")]);
    let (_, output) = fresh("2 3 >a");
    assert_eq!(output, vec![failed("! Register 97 is empty")]);
    let (_, output) = fresh("7sa 2 3 >a");
    assert!(output.is_empty());
    let (_, output) = fresh("2 3 >");
    assert_eq!(output, vec![failed("! No register name provided")]);
}

#[test]
fn the_flag_that_inverts_lasts_for_one_opcode() {
    let mut handler = Handler::new(256);
    let mut execution = begin("! ");
    let mut output = Vec::new();
    assert!(matches!(step(&mut handler, &mut execution, &mut output), Progress::Ready));
    assert!(execution.inverted);
    assert!(matches!(step(&mut handler, &mut execution, &mut output), Progress::Ready));
    assert!(!execution.inverted);
    let mut execution = begin("!!");
    step(&mut handler, &mut execution, &mut output);
    step(&mut handler, &mut execution, &mut output);
    assert!(!execution.inverted);
}

#[test]
fn a_call_at_the_end_of_a_macro_does_not_deepen_the_frames() {
    let mut handler = Handler::new(256);
    let mut execution = begin("[[[1]x]x]x");
    let mut output = Vec::new();
    let mut deepest = execution.command_stack.len();
    loop {
        match step(&mut handler, &mut execution, &mut output) {
            Progress::Finished => break,
            Progress::Ready => {}
            Progress::Waiting(ask) => {
                let reply = serve(ask.request);
                resume(&mut handler, &mut execution, ask.pending, reply, &mut output);
            }
        }
        deepest = deepest.max(execution.command_stack.len());
    }
    assert_eq!(deepest, 1);
    assert_eq!(stack(&handler), vec!["1"]);

    let mut execution = begin("[[2]x 3]x 4");
    let mut deepest = execution.command_stack.len();
    loop {
        match step(&mut handler, &mut execution, &mut output) {
            Progress::Finished => break,
            Progress::Ready => {}
            Progress::Waiting(ask) => {
                let reply = serve(ask.request);
                resume(&mut handler, &mut execution, ask.pending, reply, &mut output);
            }
        }
        deepest = deepest.max(execution.command_stack.len());
    }
    assert_eq!(deepest, 3);
    assert_eq!(stack(&handler), vec!["1", "2", "3", "4"]);
}

#[test]
fn the_step_that_calls_keeps_the_depth() {
    let mut handler = Handler::new(256);
    handler.main_stack.push(StackObject::String("1 2".to_string()));
    let mut execution =
        Execution { command_stack: vec![vec!['p'], vec!['x']], inverted: false };
    let mut output = Vec::new();
    assert!(matches!(step(&mut handler, &mut execution, &mut output), Progress::Ready));
    assert_eq!(execution.command_stack, vec![vec!['p'], vec!['2', ' ', '1']]);
    assert!(handler.main_stack.is_empty());
}

#[test]
fn quitting_is_signalled() {
    let (_, output) = fresh("q");
    assert_eq!(output, vec![Ok((Some("Exiting...".to_string()), vec![Command::Exit(0)]))]);
    let (_, output) = fresh("5,q");
    assert_eq!(output, vec![Ok((Some("Exiting...".to_string()), vec![Command::Exit(5)]))]);
}

#[test]
fn what_is_no_opcode_fails_unless_it_is_white_space() {
    let (_, output) = fresh("e");
    assert_eq!(output, vec![failed("! Invalid command: e (U+0065)")]);
    let (_, output) = fresh(" \n\t\0 ");
    assert!(output.is_empty());
    let (_, output) = fresh("\u{1F600}");
    assert_eq!(output, vec![failed("! Invalid command: \u{1F600} (U+1F600)")]);
    let (_, output) = fresh("? & $ \\");
    assert_eq!(
        output,
        vec![
            failed("! Prompts are not yet supported"),
            failed("! Execute As Script is not yet supported"),
            failed("! Get Environment Variable is not yet supported"),
            failed("! Execute OS is not yet supported"),
        ]
    );
}

#[test]
fn a_failure_does_not_stop_the_execution() {
    let (handler, output) = fresh("1 0 / e 2 3 + p");
    assert_eq!(
        output,
        vec![
            failed("! Arithmetic error: Attempted division by zero"),
            failed("! Invalid command: e (U+0065)"),
            said("5"),
        ]
    );
    assert_eq!(stack(&handler), vec!["5"]);
}

#[test]
fn characters_and_numbers_convert() {
    let (_, output) = fresh("65ap");
    assert_eq!(output, vec![said("[A]")]);
    let (_, output) = fresh("[Abc]ap");
    assert_eq!(output, vec![said("65")]);
    let (_, output) = fresh("[]a");
    assert_eq!(output, vec![failed("! Cannot convert empty string to number")]);
    let (_, output) = fresh("55296a");
    assert_eq!(
        output,
        vec![failed("! Unable to convert number 55296 to character: not a valid Unicode value")]
    );
    let (_, output) = fresh("1114112a");
    assert_eq!(
        output,
        vec![failed("! Unable to convert number 1114112 to character: not a valid Unicode value")]
    );
    let (_, output) = fresh("_1a");
    assert_eq!(
        output,
        vec![failed("! Unable to convert number -1 to character: valid range is 0 to 4294967295")]
    );
    let (_, output) = fresh("128512ap");
    assert_eq!(output, vec![said("[\u{1F600}]")]);
}

#[test]
fn texts_and_numbers_convert_by_their_bytes() {
    let (_, output) = fresh("[AB]Ap");
    assert_eq!(output, vec![said("16706")]);
    let (_, output) = fresh("16706Ap");
    assert_eq!(output, vec![said("[AB]")]);
    let (_, output) = fresh("50089Ap");
    assert_eq!(output, vec![said("[é]")]);
    let (_, output) = fresh("255A");
    assert_eq!(
        output,
        vec![failed("! Unable to convert number 255 to string: not valid UTF-8")]
    );
}

#[test]
fn constants_are_looked_up() {
    let (handler, output) = fresh("[six]\"");
    assert!(output.is_empty());
    assert_eq!(stack(&handler), vec!["6"]);
    let (_, output) = fresh("[pi]\"");
    assert_eq!(output, vec![failed("! Constant/conversion factor \"pi\" doesn't exist")]);
    let (handler, output) = fresh("[six one]\"");
    assert!(output.is_empty());
    assert_eq!(stack(&handler), vec!["6"]);
    let (_, output) = fresh("[six yard]\"");
    assert_eq!(output, vec![failed("! Constant/conversion factor \"yard\" doesn't exist")]);
    let (_, output) = fresh("[yard six]\"");
    assert_eq!(output, vec![failed("! Constant/conversion factor \"yard\" doesn't exist")]);
    let (_, output) = fresh("[a b c]\"");
    assert_eq!(
        output,
        vec![failed("! Too many spaces in constant lookup/unit conversion string \"a b c\"")]
    );
    let (_, output) = fresh("[--3six]\"");
    assert_eq!(output, vec![failed("! Invalid scale \"--3\" in constant lookup")]);
    let (handler, _) = fresh("5\" 0\"");
    assert_eq!(stack(&handler), vec!["[5]", "[0]"]);
}

#[test]
fn the_affixes_of_a_constant_go_to_the_service() {
    let mut handler = Handler::new(256);
    let mut execution = begin("[-3six2]\"");
    let mut output = Vec::new();
    step(&mut handler, &mut execution, &mut output);
    match step(&mut handler, &mut execution, &mut output) {
        Progress::Waiting(ask) => {
            match &ask.request.operation {
                Operation::Named(name) => assert_eq!(name, "six"),
                _ => panic!("the constant is asked for"),
            }
            match &ask.pending {
                Pending::Constant { wanted, .. } => {
                    assert_eq!(wanted.name, "six");
                    assert_eq!(wanted.scale, "-3");
                    assert_eq!(wanted.power, "2");
                }
                _ => panic!("the affixes are kept"),
            }
            let mut asked = Vec::new();
            let mut ask = ask;
            loop {
                asked.push(format!("{:?}", ask.request.operation).split('(').next().unwrap().split(' ').next().unwrap().to_string());
                let reply = serve(ask.request);
                match resume(&mut handler, &mut execution, ask.pending, reply, &mut output) {
                    Progress::Waiting(next) => ask = next,
                    _ => break,
                }
            }
            assert_eq!(asked, vec!["Named", "Parse", "Unary", "Binary", "Numeral", "Binary"]);
        }
        _ => panic!("the service is asked"),
    }
    assert!(output.is_empty());
    assert_eq!(handler.main_stack.len(), 1);
    match &handler.main_stack[0] {
        StackObject::Float(n) => {
            assert!((to_double(n) - 0.000036).abs() < 1e-12);
        }
        _ => panic!("a number is pushed"),
    }
}

#[test]
fn numbers_in_any_base_are_read() {
    let (_, output) = fresh("(1 2 3)p");
    assert_eq!(output, vec![said("123")]);
    let (_, output) = fresh("60i (1 1 1)p");
    assert_eq!(output, vec![said("3661")]);
    let (_, output) = fresh("(_4 2@1)p");
    assert_eq!(output, vec![said("_420")]);
    let (_, output) = fresh("(");
    assert_eq!(output, vec![]);
    let (handler, _) = fresh("(");
    assert_eq!(stack(&handler), vec!["0"]);
    let (handler, output) = fresh("(1 12) 7");
    assert_eq!(
        output,
        vec![failed("! Unable to parse any-base number: digit '12' is too high for base 10")]
    );
    assert_eq!(stack(&handler), vec!["7"]);
    let (handler, output) = fresh("(1 x 3) 7");
    assert_eq!(output, vec![failed("! Invalid character in any-base number: 'x'")]);
    assert_eq!(stack(&handler), vec!["7"]);
    let (_, output) = fresh("37i 5");
    assert_eq!(output, vec![failed("! Any-base input must be used for input bases over 36")]);
}

#[test]
fn a_numeral_that_is_none_fails() {
    let (handler, output) = fresh("1_2 7");
    assert_eq!(
        output,
        vec![failed("! Unable to parse number \"1-2\": not a numeral")]
    );
    assert_eq!(stack(&handler), vec!["7"]);
}

#[test]
fn an_answer_of_the_wrong_kind_fails() {
    let mut handler = Handler::new(256);
    let mut execution = begin("z");
    let mut output = Vec::new();
    let pending = match step(&mut handler, &mut execution, &mut output) {
        Progress::Waiting(ask) => ask.pending,
        _ => panic!("the service is asked"),
    };
    let progress = resume(&mut handler, &mut execution, pending, Reply::Missing, &mut output);
    assert!(matches!(progress, Progress::Ready));
    assert_eq!(output, vec![failed("! The arithmetic service gave no usable answer")]);
    assert!(handler.main_stack.is_empty());
}

#[test]
fn opcodes_run_up_to_a_limit() {
    let mut handler = Handler::new(256);
    let mut execution = begin("cc c3");
    let mut output = vec![said("before")];
    assert!(matches!(
        execute(&mut handler, &mut execution, &mut output, 0),
        Progress::Ready
    ));
    assert_eq!(execution.command_stack, vec![vec!['3', 'c', ' ', 'c', 'c']]);
    assert!(matches!(
        execute(&mut handler, &mut execution, &mut output, 2),
        Progress::Ready
    ));
    assert_eq!(execution.command_stack, vec![vec!['3', 'c', ' ']]);
    match execute(&mut handler, &mut execution, &mut output, 100) {
        Progress::Waiting(ask) => {
            assert!(matches!(ask.request.operation, Operation::Parse { .. }))
        }
        _ => panic!("the numeral goes to the service"),
    }
    assert_eq!(output, vec![said("before")]);
    let mut done = begin("");
    assert!(matches!(
        execute(&mut handler, &mut done, &mut output, 5),
        Progress::Finished
    ));
}

#[test]
fn a_session_starts_empty() {
    let handler = Handler::new(128);
    assert_eq!(handler.working_precision, 128);
    assert!(handler.main_stack.is_empty());
    assert_eq!(handler.registers.len(), 65536);
    assert!(handler.registers.iter().all(|r| r.is_empty()));
    assert_eq!(handler.direct_register_selector, None);
    assert_eq!(handler.parameter_stack.len(), 1);
    assert!(handler.register_buffer.array.is_empty());
    let usual = Handler::default();
    assert_eq!(usual.working_precision, 256);
}

#[test]
fn the_output_precision_counts_digits_behind_the_integer_part() {
    let mut handler = Handler::new(256);
    let mut execution = begin("3k _1234p");
    let mut output = Vec::new();
    let mut asked = Vec::new();
    loop {
        match step(&mut handler, &mut execution, &mut output) {
            Progress::Finished => break,
            Progress::Ready => {}
            Progress::Waiting(first) => {
                let mut ask = first;
                loop {
                    asked.push(format!("{:?}", ask.request.operation));
                    let reply = serve(ask.request);
                    match resume(&mut handler, &mut execution, ask.pending, reply, &mut output) {
                        Progress::Waiting(next) => ask = next,
                        _ => break,
                    }
                }
            }
        }
    }
    assert_eq!(output, vec![said("_1234")]);
    assert_eq!(asked.len(), 4);
    assert!(asked[2].starts_with("IntegerDigits"));
    assert!(asked[3].starts_with("Digits"));
    assert!(asked[3].ends_with("radix: 10, count: Some(7) }"));
    let (handler, output) = fresh("2k 255\" 16o 255\"");
    assert!(output.is_empty());
    assert_eq!(stack(&handler), vec!["[255]", "[ff]"]);
}

#[test]
fn saving_to_a_register_keeps_the_array() {
    let (handler, output) = fresh("5sa 1 0:a 9sa 0;a p la p");
    assert_eq!(output, vec![said("1"), said("9")]);
    assert_eq!(handler.registers[97].len(), 1);
    assert_eq!(handler.registers[97][0].array.len(), 1);
}

#[test]
fn an_array_index_is_a_whole_number() {
    let two_and_a_half =
        Number { class: Class::Finite, negative: false, mantissa: vec![0xA0], exponent: 2, precision: 256 };
    let mut handler = Handler::new(256);
    handler.main_stack.push(StackObject::Float(number(7)));
    handler.main_stack.push(StackObject::Float(two_and_a_half.clone()));
    let output = run(&mut handler, ":a");
    assert_eq!(output, vec![failed("! Cannot possibly save to array index 2")]);
    assert!(handler.main_stack.is_empty());
    assert!(handler.registers[97].is_empty());
    handler.main_stack.push(StackObject::Float(two_and_a_half));
    let output = run(&mut handler, ";a");
    assert_eq!(output, vec![failed("! Cannot possibly load from array index 2")]);
    assert!(handler.registers[97].is_empty());
    let mut fresh_one = Handler::new(256);
    fresh_one.main_stack.push(StackObject::Float(number(5)));
    fresh_one.main_stack.push(StackObject::Float(number(-1)));
    let mut execution = Execution { command_stack: vec![vec!['a', ':']], inverted: false };
    let mut reported = Vec::new();
    finish(&mut fresh_one, &mut execution, &mut reported);
    assert_eq!(reported, vec![failed("! Cannot possibly save to array index -1")]);
    assert!(fresh_one.registers[97].is_empty());
    assert!(fresh_one.main_stack.is_empty());
    handler.main_stack.push(StackObject::Float(number(7)));
    handler.main_stack.push(StackObject::Float(number(2)));
    let output = run(&mut handler, ":a 2;a p");
    assert_eq!(output, vec![said("7")]);
}

fn finite(negative: bool, mantissa: Vec<u8>, exponent: i32) -> StackObject {
    StackObject::Float(Number { class: Class::Finite, negative, mantissa, exponent, precision: 256 })
}

fn with_on_top(below: StackObject, top: StackObject, text: &str) -> (Handler, Vec<Output>) {
    let mut handler = Handler::new(256);
    handler.main_stack.push(below);
    handler.main_stack.push(top);
    let output = run(&mut handler, text);
    (handler, output)
}

#[test]
fn counts_beyond_counting_fail() {
    let word = || StackObject::String("hello".to_string());
    let many = || finite(false, vec![0x80], 70);
    let (handler, output) = with_on_top(word(), many(), "-");
    assert_eq!(output, vec![failed("! Cannot possibly remove many characters from a string")]);
    assert!(handler.main_stack.is_empty());
    let (_, output) = with_on_top(word(), many(), "*");
    assert_eq!(output, vec![failed("! Cannot possibly repeat a string many times")]);
    let (_, output) = with_on_top(word(), many(), "/");
    assert_eq!(output, vec![failed("! Cannot possibly shorten a string to many characters")]);
    let (_, output) = with_on_top(word(), many(), "~");
    assert_eq!(output, vec![failed("! Cannot possibly split a string at character many")]);
    let (_, output) = with_on_top(word(), finite(true, vec![0x80], 70), "R");
    assert_eq!(output, vec![failed("! Cannot possibly rotate many objects")]);
    let (_, output) = with_on_top(word(), many(), "C");
    assert_eq!(output, vec![failed("! Cannot possibly remove many objects from the main stack")]);
    let (_, output) = with_on_top(word(), many(), "D");
    assert_eq!(output, vec![failed("! Cannot possibly duplicate many objects")]);
    let (_, output) = with_on_top(word(), many(), "X");
    assert_eq!(output, vec![failed("! Invalid macro repeat count: many")]);
    let (_, output) = with_on_top(word(), many(), "Q");
    assert_eq!(output, vec![failed("! Cannot possibly quit many levels")]);
    let (_, output) = with_on_top(word(), many(), ",");
    assert_eq!(output, vec![failed("! Register many cannot possibly exist")]);
    let (_, output) = with_on_top(word(), many(), "a");
    assert_eq!(
        output,
        vec![failed("! Unable to convert number many to character: valid range is 0 to 4294967295")]
    );
    let (_, output) = with_on_top(word(), many(), ":a");
    assert_eq!(output, vec![failed("! Cannot possibly save to array index many")]);
    let (_, output) = with_on_top(word(), many(), ";a");
    assert_eq!(output, vec![failed("! Cannot possibly load from array index many")]);
}

#[test]
fn a_power_that_is_a_root_of_a_negative_number_fails() {
    let half = || finite(false, vec![0x80], 0);
    let (handler, output) = with_on_top(StackObject::Float(number(-8)), half(), "^");
    assert_eq!(
        output,
        vec![failed("! Arithmetic error: Roots of negative numbers are not allowed")]
    );
    assert!(handler.main_stack.is_empty());
    let mut handler = Handler::new(256);
    handler.main_stack.push(StackObject::Float(number(8)));
    handler.main_stack.push(half());
    let mut execution = begin("^");
    let mut output = Vec::new();
    assert!(matches!(
        step(&mut handler, &mut execution, &mut output),
        Progress::Waiting(_)
    ));
    let mut handler = Handler::new(256);
    handler.main_stack.push(StackObject::Float(number(-8)));
    handler.main_stack.push(half());
    let mut execution = begin("V");
    match step(&mut handler, &mut execution, &mut output) {
        Progress::Waiting(ask) => assert!(matches!(
            ask.request.operation,
            Operation::Binary(BinaryOperation::Root, _, _)
        )),
        _ => panic!("the root is asked for"),
    }
}

#[test]
fn a_text_without_its_bracket_fails_in_a_session() {
    let (handler, output) = fresh("1 [abc");
    assert_eq!(
        output,
        vec![failed("! Unable to parse string \"[abc\": missing closing bracket")]
    );
    assert_eq!(stack(&handler), vec!["1"]);
}

#[test]
fn the_base_of_a_number_in_any_base_is_one_text() {
    let mut handler = Handler::new(256);
    let mut execution = begin("(1 2)");
    let mut output = Vec::new();
    let pending = match step(&mut handler, &mut execution, &mut output) {
        Progress::Waiting(ask) => ask.pending,
        _ => panic!("the base is asked for"),
    };
    let reply = Reply::Texts(vec!["10".to_string(), "10".to_string()]);
    resume(&mut handler, &mut execution, pending, reply, &mut output);
    assert_eq!(output, vec![failed("! The arithmetic service gave no usable answer")]);
}

#[test]
fn a_conditional_takes_its_register_from_the_pending_selector() {
    let (handler, output) = fresh("[1p]sa 2 3 97,>5p");
    assert_eq!(output, vec![said("1"), said("5")]);
    assert_eq!(handler.direct_register_selector, None);
    assert_eq!(stack(&handler), vec!["1", "5"]);
}

#[test]
fn the_quote_alone_reads_zero() {
    let (handler, output) = fresh("'");
    assert!(output.is_empty());
    assert_eq!(stack(&handler), vec!["0"]);
}

fn operations(handler: &mut Handler, text: &str) -> (Vec<String>, Vec<Output>) {
    let mut execution = begin(text);
    let mut output = Vec::new();
    let mut asked = Vec::new();
    loop {
        match step(handler, &mut execution, &mut output) {
            Progress::Finished => break,
            Progress::Ready => {}
            Progress::Waiting(first) => {
                let mut ask = first;
                loop {
                    let shown = format!("{:?}", ask.request.operation);
                    let name: String =
                        shown.chars().take_while(|c| c.is_alphanumeric()).collect();
                    let kind = if shown.contains("Product") {
                        "Product"
                    } else if shown.contains("Quotient") {
                        "Quotient"
                    } else if shown.contains("Sum") {
                        "Sum"
                    } else if shown.contains("Scale,") {
                        "Scale"
                    } else if shown.contains("Shrink") {
                        "Shrink"
                    } else if shown.contains("Raise") {
                        "Raise"
                    } else if shown.contains("Multiply") {
                        "Multiply"
                    } else {
                        ""
                    };
                    asked.push(format!("{}{}", name, kind));
                    let reply = serve(ask.request);
                    match resume(handler, &mut execution, ask.pending, reply, &mut output) {
                        Progress::Waiting(next) => ask = next,
                        _ => break,
                    }
                }
            }
        }
    }
    (asked, output)
}

#[test]
fn the_value_of_a_number_in_any_base_is_worked_out_group_by_group() {
    let mut handler = Handler::new(256);
    let (asked, output) = operations(&mut handler, "(_1 2.5@1)");
    assert!(output.is_empty());
    assert_eq!(
        asked,
        vec![
            "Describe",
            "WholeProduct",
            "Numeral",
            "WholeSum",
            "WholeProduct",
            "Numeral",
            "WholeSum",
            "WholeProduct",
            "Numeral",
            "WholeSum",
            "Integer",
            "WholeProduct",
            "BinaryShrink",
            "Integer",
            "Numeral",
            "BinaryRaise",
            "BinaryMultiply",
        ]
    );
    match &handler.main_stack[..] {
        [StackObject::Float(n)] => assert_eq!(to_double(n), -125.0),
        _ => panic!("one number is pushed"),
    }
    let mut handler = Handler::new(256);
    run(&mut handler, "60i (1 30.15 45)");
    match &handler.main_stack[..] {
        [StackObject::Float(n)] => assert_eq!(to_double(n), 90.2625),
        _ => panic!("one number is pushed"),
    }
    let mut handler = Handler::new(256);
    run(&mut handler, "(7.)");
    assert_eq!(stack(&handler), vec!["7"]);
}

#[test]
fn the_digits_in_a_large_base_are_worked_out_place_by_place() {
    let mut handler = Handler::new(256);
    let (asked, output) = operations(&mut handler, "60o 3661p");
    assert_eq!(output, vec![said("(1 1 1)")]);
    assert_eq!(
        &asked[2..],
        &[
            "BinaryScale",
            "Nearest",
            "WholeQuotient",
            "WholeProduct",
            "WholeProduct",
            "WholeProduct",
            "WholeQuotient",
            "WholeEuclid",
            "WholeQuotient",
            "WholeEuclid",
            "WholeQuotient",
            "WholeEuclid",
        ]
    );
    let mut handler = Handler::new(256);
    run(&mut handler, "60o");
    handler.main_stack.push(StackObject::Float(from_double(-1.5)));
    handler.main_stack.push(StackObject::Float(from_double(90.2625)));
    handler.main_stack.push(StackObject::Float(from_double(0.5)));
    handler.main_stack.push(StackObject::Float(from_double(59.0)));
    let output = run(&mut handler, "f");
    assert_eq!(
        output,
        vec![said("(59)"), said("(0.30)"), said("(1 30.15 45)"), said("(-1.30)")]
    );
}

#[test]
fn the_output_precision_limits_the_digits_in_a_large_base() {
    let mut handler = Handler::new(256);
    run(&mut handler, "60o 1k");
    handler.main_stack.push(StackObject::Float(from_double(90.2625)));
    let output = run(&mut handler, "p");
    assert_eq!(output, vec![said("(1 30.15)")]);
    let mut handler = Handler::new(256);
    run(&mut handler, "60o 0k");
    handler.main_stack.push(StackObject::Float(from_double(90.2625)));
    let output = run(&mut handler, "p");
    assert_eq!(output, vec![said("(1 30)")]);
    let mut handler = Handler::new(256);
    run(&mut handler, "60o");
    handler.main_stack.push(StackObject::Float(from_double(90.2625)));
    let output = run(&mut handler, "\"p");
    assert_eq!(output, vec![said("[(1 30.15 45)]")]);
}

#[test]
fn a_product_beyond_all_numbers_ends_the_scaling() {
    let mut handler = Handler::new(256);
    run(&mut handler, "60o");
    handler.main_stack.push(StackObject::Float(from_double(1.5)));
    let mut execution = begin("p");
    let mut output = Vec::new();
    let first = match step(&mut handler, &mut execution, &mut output) {
        Progress::Waiting(ask) => ask,
        _ => panic!("the service is asked"),
    };
    assert!(matches!(
        first.request.operation,
        Operation::Binary(BinaryOperation::Scale, _, _)
    ));
    let next = match resume(
        &mut handler,
        &mut execution,
        first.pending,
        Reply::Number(from_double(f64::INFINITY)),
        &mut output,
    ) {
        Progress::Waiting(ask) => ask,
        _ => panic!("the service is asked again"),
    };
    match &next.request.operation {
        Operation::Binary(BinaryOperation::Shrink, value, base) => {
            assert_eq!(to_double(value), 1.5);
            assert_eq!(to_double(base), 60.0);
        }
        _ => panic!("the value over the base is asked for"),
    }
    let mut ask = next;
    loop {
        let reply = serve(ask.request);
        match resume(&mut handler, &mut execution, ask.pending, reply, &mut output) {
            Progress::Waiting(following) => ask = following,
            _ => break,
        }
    }
    assert_eq!(output, vec![said("(0)")]);
}
