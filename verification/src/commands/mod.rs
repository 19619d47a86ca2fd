use crate::handler::{fails, Handler, Output, StackObject};
use crate::number::Number;
use crate::commands::environment::Parameter;
use crate::service::{Operation, Outcome, Pending, UnaryOperation};
use crate::text::{chars_of, compose, reversed, string_of};
use vstd::prelude::*;

pub mod accumulation;
pub mod arithmetic;
pub mod constants;
pub mod engine;
pub mod environment;
pub mod expansion;
pub mod macros;
pub mod notation;
pub mod object_input;
pub mod printing;
pub mod reading_back;
pub mod register;
pub mod stack_manipulation;

verus! {

/// How many operands an opcode needs at least.
pub open spec fn arity(op: char) -> nat {
    if op == '|' {
        3
    } else if op == '+' || op == '-' || op == '*' || op == '/' || op == '^' || op == 'V' || op
        == 'G' || op == '%' || op == '~' || op == '@' || op == ':' || op == '=' || op == '<' || op
        == '>' || op == 'X' {
        2
    } else {
        1
    }
}

/// Whether an opcode takes operands of these kinds; `a`, `b`, `c` say which
/// of its operands are texts, an operand that it does not have counting as
/// a number.
pub open spec fn types_fit(op: char, a: bool, b: bool, c: bool) -> bool {
    if op == '+' {
        a == b
    } else if op == '-' || op == '*' || op == '/' || op == '~' || op == ':' {
        !b
    } else if op == '&' || op == '$' || op == '\\' {
        a
    } else if op == 'a' || op == 'A' || op == '"' || op == 'x' || op == 'g' {
        true
    } else if op == 'X' {
        a && !b
    } else {
        !a && !b && !c
    }
}

/// What is said where an opcode has too few operands.
pub open spec fn insufficient_message(op: char) -> Seq<char> {
    "! Insufficient arguments for command '"@ + seq![op] + "'"@
}

/// What is said where an opcode has operands of the wrong kind.
pub open spec fn invalid_types_message(op: char) -> Seq<char> {
    "! Invalid argument type(s) for command '"@ + seq![op] + "'"@
}

/// `new` is `old` with one failure more, which says `text`.
pub open spec fn one_more_failure(old: Seq<Output>, new: Seq<Output>, text: Seq<char>) -> bool {
    new.len() == old.len() + 1 && new.drop_last() == old && fails(new.last(), text)
}

/// Whether `n` operands are enough for `op`; reports a failure where they
/// are not.
pub fn check_n(op: char, n: usize, output: &mut Vec<Output>) -> (ok: bool)
    ensures
        ok == (n >= arity(op)),
        ok ==> final(output)@ == old(output)@,
        !ok ==> one_more_failure(old(output)@, final(output)@, insufficient_message(op)),
{
    let enough = if op == '|' {
        n >= 3
    } else if op == '+' || op == '-' || op == '*' || op == '/' || op == '^' || op == 'V' || op
        == 'G' || op == '%' || op == '~' || op == '@' || op == ':' || op == '=' || op == '<' || op
        == '>' || op == 'X' {
        n >= 2
    } else {
        n >= 1
    };
    if !enough {
        let mut middle: Vec<char> = Vec::new();
        middle.push(op);
        assert(middle@ =~= seq![op]);
        let ghost before = output@;
        output.push(Err(compose("! Insufficient arguments for command '", &middle, "'")));
        assert(output@.drop_last() =~= before);
    }
    enough
}

/// Whether `op` takes operands of the kinds given; reports a failure where
/// it does not.
pub fn check_t(
    op: char,
    a: &StackObject,
    b: Option<&StackObject>,
    c: Option<&StackObject>,
    output: &mut Vec<Output>,
) -> (ok: bool)
    ensures
        ok == types_fit(
            op,
            *a is String,
            b matches Some(x) && *x is String,
            c matches Some(x) && *x is String,
        ),
        ok ==> final(output)@ == old(output)@,
        !ok ==> one_more_failure(old(output)@, final(output)@, invalid_types_message(op)),
{
    let a = a.is_string();
    let b = match b {
        Some(x) => x.is_string(),
        None => false,
    };
    let c = match c {
        Some(x) => x.is_string(),
        None => false,
    };
    let fit = if op == '+' {
        a == b
    } else if op == '-' || op == '*' || op == '/' || op == '~' || op == ':' {
        !b
    } else if op == '&' || op == '$' || op == '\\' {
        a
    } else if op == 'a' || op == 'A' || op == '"' || op == 'x' || op == 'g' {
        true
    } else if op == 'X' {
        a && !b
    } else {
        !a && !b && !c
    };
    if !fit {
        let mut middle: Vec<char> = Vec::new();
        middle.push(op);
        assert(middle@ =~= seq![op]);
        let ghost before = output@;
        output.push(Err(compose("! Invalid argument type(s) for command '", &middle, "'")));
        assert(output@.drop_last() =~= before);
    }
    fit
}

/// The text back to front.
pub fn rev_str(instr: String) -> (r: String)
    ensures
        r@ == instr@.reverse(),
{
    let chars = chars_of(instr.as_str());
    let back = reversed(&chars);
    string_of(&back)
}

/// Everything but the main stack is as before.
pub open spec fn rest_unchanged(pre: Handler, post: Handler) -> bool {
    &&& post.registers == pre.registers
    &&& post.register_buffer == pre.register_buffer
    &&& post.direct_register_selector == pre.direct_register_selector
    &&& post.parameter_stack == pre.parameter_stack
    &&& post.working_precision == pre.working_precision
}

/// The main stack lost its top `count` values and nothing else changed.
pub open spec fn popped(pre: Handler, post: Handler, count: nat) -> bool {
    &&& rest_unchanged(pre, post)
    &&& pre.main_stack@.len() >= count
    &&& post.main_stack@ == pre.main_stack@.take(pre.main_stack@.len() - count)
}

/// The main stack gained `value` on top and nothing else changed.
pub open spec fn pushed(pre: Handler, post: Handler, value: StackObject) -> bool {
    &&& rest_unchanged(pre, post)
    &&& post.main_stack@ == pre.main_stack@.push(value)
}

/// The main stack gained a value on top that is `value`, and nothing else
/// changed.
pub open spec fn pushed_value(pre: Handler, post: Handler, value: crate::handler::Value) -> bool {
    &&& rest_unchanged(pre, post)
    &&& post.main_stack@.len() == pre.main_stack@.len() + 1
    &&& post.main_stack@.drop_last() == pre.main_stack@
    &&& post.main_stack@.last()@ == value
}

/// The frames are as before but for the top one, which now holds `frame`.
/// A frame holds its pending text back to front: the next character is its
/// last.
pub open spec fn top_frame_becomes(
    pre: Seq<Vec<char>>,
    post: Seq<Vec<char>>,
    frame: Seq<char>,
) -> bool {
    &&& pre.len() >= 1
    &&& post.len() == pre.len()
    &&& post.drop_last() == pre.drop_last()
    &&& post.last()@ == frame
}

/// Puts `value` on top of the main stack.
pub fn push(handler: &mut Handler, value: StackObject)
    ensures
        pushed(*old(handler), *final(handler), value),
        final(handler).main_stack@.drop_last() == old(handler).main_stack@,
        final(handler).main_stack@.last() == value,
{
    handler.main_stack.push(value);
    assert(handler.main_stack@.drop_last() =~= old(handler).main_stack@);
}

/// Whether the kinds of the top `count` values suit `command`.
pub open spec fn fits(command: char, stack: Seq<StackObject>, count: nat) -> bool
    recommends
        1 <= count <= 3,
        stack.len() >= count,
{
    let n = stack.len() as int;
    if count == 1 {
        types_fit(command, stack[n - 1] is String, false, false)
    } else if count == 2 {
        types_fit(command, stack[n - 2] is String, stack[n - 1] is String, false)
    } else {
        types_fit(command, stack[n - 3] is String, stack[n - 2] is String, stack[n - 1] is String)
    }
}

/// Whether the guards let `command` run on its top `count` values.
pub open spec fn passes(command: char, stack: Seq<StackObject>, count: nat) -> bool {
    stack.len() >= arity(command) && stack.len() >= count && fits(command, stack, count)
}

/// The guards stopped `command`: for want of operands, with nothing
/// changed, or for their kinds, with the `count` operands gone.
pub open spec fn stopped(
    pre: Handler,
    post: Handler,
    command: char,
    count: nat,
    r: Outcome,
) -> bool {
    if pre.main_stack@.len() < arity(command) {
        post == pre && r.failed(insufficient_message(command))
    } else {
        popped(pre, post, count) && r.failed(invalid_types_message(command))
    }
}

/// Takes the operand of a one-operand opcode off the main stack, if the
/// guards let the opcode run.
pub fn operands1(handler: &mut Handler, command: char) -> (r: Result<StackObject, Outcome>)
    ensures
        match r {
            Ok(a) => passes(command, old(handler).main_stack@, 1) && popped(
                *old(handler),
                *final(handler),
                1,
            ) && a == old(handler).main_stack@.last(),
            Err(o) => !passes(command, old(handler).main_stack@, 1) && stopped(
                *old(handler),
                *final(handler),
                command,
                1,
                o,
            ),
        },
{
    let mut output: Vec<Output> = Vec::new();
    if !check_n(command, handler.main_stack.len(), &mut output) {
        return Err(Outcome { output, ask: None });
    }
    let a = handler.main_stack.pop().unwrap();
    assert(old(handler).main_stack@.drop_last() =~= old(handler).main_stack@.take(
        old(handler).main_stack@.len() - 1,
    ));
    if !check_t(command, &a, None, None, &mut output) {
        return Err(Outcome { output, ask: None });
    }
    Ok(a)
}

/// Takes the operands of a two-operand opcode off the main stack, the
/// deeper one first, if the guards let the opcode run.
pub fn operands2(handler: &mut Handler, command: char) -> (r: Result<
    (StackObject, StackObject),
    Outcome,
>)
    requires
        arity(command) >= 2,
    ensures
        match r {
            Ok((a, b)) => passes(command, old(handler).main_stack@, 2) && popped(
                *old(handler),
                *final(handler),
                2,
            ) && a == old(handler).main_stack@[old(handler).main_stack@.len() - 2] && b == old(
                handler,
            ).main_stack@.last(),
            Err(o) => !passes(command, old(handler).main_stack@, 2) && stopped(
                *old(handler),
                *final(handler),
                command,
                2,
                o,
            ),
        },
{
    let mut output: Vec<Output> = Vec::new();
    if !check_n(command, handler.main_stack.len(), &mut output) {
        return Err(Outcome { output, ask: None });
    }
    let b = handler.main_stack.pop().unwrap();
    let a = handler.main_stack.pop().unwrap();
    assert(old(handler).main_stack@.drop_last().drop_last() =~= old(handler).main_stack@.take(
        old(handler).main_stack@.len() - 2,
    ));
    if !check_t(command, &a, Some(&b), None, &mut output) {
        return Err(Outcome { output, ask: None });
    }
    Ok((a, b))
}

/// Takes the operands of a three-operand opcode off the main stack, the
/// deepest one first, if the guards let the opcode run.
pub fn operands3(handler: &mut Handler, command: char) -> (r: Result<
    (StackObject, StackObject, StackObject),
    Outcome,
>)
    requires
        arity(command) >= 3,
    ensures
        match r {
            Ok((a, b, c)) => passes(command, old(handler).main_stack@, 3) && popped(
                *old(handler),
                *final(handler),
                3,
            ) && a == old(handler).main_stack@[old(handler).main_stack@.len() - 3] && b == old(
                handler,
            ).main_stack@[old(handler).main_stack@.len() - 2] && c == old(
                handler,
            ).main_stack@.last(),
            Err(o) => !passes(command, old(handler).main_stack@, 3) && stopped(
                *old(handler),
                *final(handler),
                command,
                3,
                o,
            ),
        },
{
    let mut output: Vec<Output> = Vec::new();
    if !check_n(command, handler.main_stack.len(), &mut output) {
        return Err(Outcome { output, ask: None });
    }
    let c = handler.main_stack.pop().unwrap();
    let b = handler.main_stack.pop().unwrap();
    let a = handler.main_stack.pop().unwrap();
    assert(old(handler).main_stack@.drop_last().drop_last().drop_last() =~= old(
        handler,
    ).main_stack@.take(old(handler).main_stack@.len() - 3));
    if !check_t(command, &a, Some(&b), Some(&c), &mut output) {
        return Err(Outcome { output, ask: None });
    }
    Ok((a, b, c))
}

/// The message made of the parts from index `i` on, with the text of the
/// same index behind each part but the last.
pub open spec fn interleaved_from(parts: Seq<String>, texts: Seq<String>, i: int) -> Seq<char>
    decreases parts.len() - i,
{
    if i < 0 || i >= parts.len() {
        Seq::empty()
    } else {
        parts[i]@ + (if i < texts.len() && i + 1 < parts.len() {
            texts[i]@
        } else {
            Seq::empty()
        }) + interleaved_from(parts, texts, i + 1)
    }
}

/// The message made of `parts` with `texts` in between, one behind each
/// part but the last.
pub open spec fn interleaved(parts: Seq<String>, texts: Seq<String>) -> Seq<char> {
    interleaved_from(parts, texts, 0)
}

/// Writes the message made of `parts` with `texts` in between.
pub fn interleave(parts: &Vec<String>, texts: &Vec<String>) -> (r: String)
    ensures
        r@ == interleaved(parts@, texts@),
{
    let mut text: Vec<char> = Vec::new();
    let mut i: usize = 0;
    while i < parts.len()
        invariant
            i <= parts@.len(),
            interleaved(parts@, texts@) == text@ + interleaved_from(parts@, texts@, i as int),
        decreases parts@.len() - i,
    {
        let ghost before = text@;
        crate::text::append(&mut text, parts[i].as_str());
        if i < texts.len() && i + 1 < parts.len() {
            crate::text::append(&mut text, texts[i].as_str());
        }
        assert(text@ + interleaved_from(parts@, texts@, i + 1) =~= before + interleaved_from(
            parts@,
            texts@,
            i as int,
        ));
        i = i + 1;
    }
    assert(text@ + Seq::<char>::empty() =~= text@);
    string_of(&text)
}

/// `r` asks for `number`'s integer part in decimal, to report the failure
/// `before`, that numeral, `after`.
pub open spec fn asked_to_describe(
    r: Outcome,
    precision: u32,
    number: Number,
    before: Seq<char>,
    after: Seq<char>,
) -> bool {
    &&& r.output@.len() == 0
    &&& r.ask matches Some(ask)
    &&& ask.request.precision == precision
    &&& ask.request.operation matches Operation::Describe(numbers)
    &&& numbers@ == seq![number]
    &&& ask.pending matches Pending::Fail { parts }
    &&& parts@.len() == 2
    &&& parts@[0]@ == before
    &&& parts@[1]@ == after
}

/// Asks for `number`'s integer part in decimal, to report the failure
/// `before`, that numeral, `after`.
pub fn describe(precision: u32, number: Number, before: &str, after: &str) -> (r: Outcome)
    ensures
        asked_to_describe(r, precision, number, before@, after@),
{
    let mut numbers: Vec<Number> = Vec::new();
    numbers.push(number);
    assert(numbers@ =~= seq![number]);
    let mut parts: Vec<String> = Vec::new();
    parts.push(crate::text::owned(before));
    parts.push(crate::text::owned(after));
    Outcome::request(precision, Operation::Describe(numbers), Pending::Fail { parts })
}

/// Whether a character is white space: the blank, the controls from tab to
/// carriage return, and the other separators that Unicode lists.
pub open spec fn is_blank(c: char) -> bool {
    let v = c as int;
    (9 <= v <= 13) || v == 32 || v == 0x85 || v == 0xA0 || v == 0x1680 || (0x2000 <= v <= 0x200A)
        || v == 0x2028 || v == 0x2029 || v == 0x202F || v == 0x205F || v == 0x3000
}

/// Whether a character is white space.
pub fn is_white_space(c: char) -> (r: bool)
    ensures
        r == is_blank(c),
{
    let v = crate::text::code_of(c);
    (9 <= v && v <= 13) || v == 32 || v == 0x85 || v == 0xA0 || v == 0x1680 || (0x2000 <= v && v
        <= 0x200A) || v == 0x2028 || v == 0x2029 || v == 0x202F || v == 0x205F || v == 0x3000
}

/// What is said of a character that is no opcode: the character and its
/// number in hexadecimal.
pub open spec fn invalid_command_message(c: char) -> Seq<char> {
    "! Invalid command: "@ + seq![c] + " (U+"@ + crate::text::hexadecimal(c as nat, 4) + ")"@
}

/// What a character does that is no opcode: nothing where it is white
/// space or the null character, and else it is a failure.
pub open spec fn not_a_command_post(command: char, r: Outcome) -> bool {
    if is_blank(command) || command == '\0' {
        r.silent()
    } else {
        r.failed(invalid_command_message(command))
    }
}

fn not_a_command(command: char) -> (r: Outcome)
    ensures
        not_a_command_post(command, r),
{
    if is_white_space(command) || command == '\0' {
        Outcome::nothing()
    } else {
        let mut text = chars_of("! Invalid command: ");
        text.push(command);
        crate::text::append(&mut text, " (U+");
        let code = crate::text::code_of(command);
        crate::text::append_chars(&mut text, &crate::text::write_hexadecimal(code, 4));
        crate::text::append(&mut text, ")");
        assert(text@ =~= invalid_command_message(command));
        Outcome::failure(string_of(&text))
    }
}

/// Whether a character begins a numeral: a digit, the separator, the sign,
/// the exponent marker, or the quote that lets letters in.
pub open spec fn begins_numeral(c: char) -> bool {
    crate::text::is_digit(c) || c == '.' || c == '_' || c == '\'' || c == '@'
}

/// Frames and flag are as before.
pub open spec fn untouched(
    frames_pre: Seq<Vec<char>>,
    frames_post: Seq<Vec<char>>,
    flag_pre: bool,
    flag_post: bool,
) -> bool {
    frames_post == frames_pre && flag_post == flag_pre
}

/// What an opcode does to the session, to the frames and to the flag that
/// inverts the next conditional, and what it reports and asks.
pub open spec fn run_command_post(
    pre: Handler,
    post: Handler,
    frames_pre: Seq<Vec<char>>,
    frames_post: Seq<Vec<char>>,
    command: char,
    flag_pre: bool,
    flag_post: bool,
    r: Outcome,
) -> bool {
    if command == '!' {
        post == pre && frames_post == frames_pre && flag_post == !flag_pre && r.silent()
    } else if command == '<' || command == '=' || command == '>' {
        flag_post == false && macros::if_macro_post(
            pre,
            post,
            frames_pre,
            frames_post,
            command,
            flag_pre,
            r,
        )
    } else {
        flag_post == flag_pre && if begins_numeral(command) {
            object_input::standard_number_input_post(pre, post, frames_pre, frames_post, command, r)
        } else if command == '(' {
            object_input::any_base_number_input_post(pre, post, frames_pre, frames_post, r)
        } else if command == '[' {
            object_input::string_input_post(pre, post, frames_pre, frames_post, r)
        } else if command == 'F' {
            printing::print_register_post(pre, post, frames_pre, frames_post, r)
        } else if command == 's' {
            register::save_to_register_post(pre, post, frames_pre, frames_post, command, r)
        } else if command == 'S' {
            register::push_to_register_post(pre, post, frames_pre, frames_post, command, r)
        } else if command == 'l' {
            register::load_from_register_post(pre, post, frames_pre, frames_post, r)
        } else if command == 'L' {
            register::pop_from_register_post(pre, post, frames_pre, frames_post, r)
        } else if command == ':' {
            register::save_to_top_of_register_post(pre, post, frames_pre, frames_post, command, r)
        } else if command == ';' {
            register::load_from_top_of_register_post(
                pre,
                post,
                frames_pre,
                frames_post,
                command,
                r,
            )
        } else if command == 'j' {
            register::load_top_of_register_into_buffer_post(pre, post, frames_pre, frames_post, r)
        } else if command == 'J' {
            register::pop_top_of_register_into_buffer_post(pre, post, frames_pre, frames_post, r)
        } else if command == 'h' {
            register::save_buffer_to_top_of_register_post(pre, post, frames_pre, frames_post, r)
        } else if command == 'H' {
            register::push_buffer_to_register_post(pre, post, frames_pre, frames_post, r)
        } else if command == 'Z' {
            register::push_register_depth_post(pre, post, frames_pre, frames_post, r)
        } else if command == 'x' {
            macros::execute_macro_post(pre, post, frames_pre, frames_post, command, r)
        } else if command == 'X' {
            macros::auto_macro_post(pre, post, frames_pre, frames_post, command, r)
        } else if command == 'Q' {
            macros::quit_macro_post(pre, post, frames_pre, frames_post, command, r)
        } else if command == '#' {
            post == pre && top_frame_becomes(frames_pre, frames_post, Seq::empty()) && r.silent()
        } else {
            frames_post == frames_pre && plain_command_post(pre, post, command, r)
        }
    }
}

/// What an opcode does that leaves the frames alone.
pub open spec fn plain_command_post(pre: Handler, post: Handler, command: char, r: Outcome) -> bool {
    if command == 'p' {
        post == pre && printing::print_top_post(pre, r)
    } else if command == 'f' {
        post == pre && printing::print_full_stack_post(pre, r)
    } else if command == 'n' {
        printing::print_pop_post(pre, post, command, true, crate::handler::Command::NoNewLine, r)
    } else if command == 'P' {
        printing::print_pop_post(pre, post, command, false, crate::handler::Command::NoOp, r)
    } else if command == '+' {
        arithmetic::add_post(pre, post, command, r)
    } else if command == '-' {
        arithmetic::subtract_post(pre, post, command, r)
    } else if command == '*' {
        arithmetic::multiply_post(pre, post, command, r)
    } else if command == '/' {
        arithmetic::divide_post(pre, post, command, r)
    } else if command == '%' {
        arithmetic::modulo_post(pre, post, command, r)
    } else if command == '~' {
        arithmetic::euclidean_division_post(pre, post, command, r)
    } else if command == '^' {
        arithmetic::exponent_post(pre, post, command, r)
    } else if command == '|' {
        arithmetic::modular_exponent_post(pre, post, command, r)
    } else if command == 'v' {
        arithmetic::square_root_post(pre, post, command, r)
    } else if command == 'V' {
        arithmetic::nth_root_post(pre, post, command, r)
    } else if command == 'g' {
        arithmetic::ln_post(pre, post, command, r)
    } else if command == 'G' {
        arithmetic::log_post(pre, post, command, r)
    } else if command == 'u' {
        arithmetic::plain_unary_post(pre, post, command, r, UnaryOperation::Sine)
    } else if command == 'y' {
        arithmetic::plain_unary_post(pre, post, command, r, UnaryOperation::Cosine)
    } else if command == 't' {
        arithmetic::plain_unary_post(pre, post, command, r, UnaryOperation::Tangent)
    } else if command == 'U' {
        arithmetic::bounded_unary_post(
            pre,
            post,
            command,
            r,
            UnaryOperation::ArcSine,
            "! Arithmetic error: Arc-sine of value outside [-1,1]"@,
        )
    } else if command == 'Y' {
        arithmetic::bounded_unary_post(
            pre,
            post,
            command,
            r,
            UnaryOperation::ArcCosine,
            "! Arithmetic error: Arc-cosine of value outside [-1,1]"@,
        )
    } else if command == 'T' {
        arithmetic::plain_unary_post(pre, post, command, r, UnaryOperation::ArcTangent)
    } else if command == 'N' {
        arithmetic::random_int_post(pre, post, command, r)
    } else if command == '"' {
        constants::lookup_post(pre, post, command, r)
    } else if command == 'c' {
        rest_unchanged(pre, post) && post.main_stack@.len() == 0 && r.silent()
    } else if command == 'C' {
        stack_manipulation::remove_objects_post(pre, post, command, r)
    } else if command == 'd' {
        stack_manipulation::duplicate_object_post(pre, post, r)
    } else if command == 'D' {
        stack_manipulation::duplicate_objects_post(pre, post, command, r)
    } else if command == 'r' {
        stack_manipulation::swap_objects_post(pre, post, r)
    } else if command == 'R' {
        stack_manipulation::rotate_objects_post(pre, post, command, r)
    } else if command == 'z' {
        stack_manipulation::push_stack_depth_post(pre, post, r)
    } else if command == 'k' {
        environment::set_parameter_post(pre, post, command, Parameter::OutputPrecision, r)
    } else if command == 'i' {
        environment::set_parameter_post(pre, post, command, Parameter::InputBase, r)
    } else if command == 'o' {
        environment::set_parameter_post(pre, post, command, Parameter::OutputBase, r)
    } else if command == 'w' {
        environment::set_working_precision_post(pre, post, command, r)
    } else if command == 'K' {
        environment::push_parameter_post(pre, post, Parameter::OutputPrecision, r)
    } else if command == 'I' {
        environment::push_parameter_post(pre, post, Parameter::InputBase, r)
    } else if command == 'O' {
        environment::push_parameter_post(pre, post, Parameter::OutputBase, r)
    } else if command == 'W' {
        post == pre && r.asked(
            pre.working_precision,
            Operation::Unsigned(pre.working_precision as u64),
            Pending::Push,
        )
    } else if command == '{' {
        environment::new_context_post(pre, post, r)
    } else if command == '}' {
        environment::revert_context_post(pre, post, r)
    } else if command == ',' {
        register::register_index_post(pre, post, command, r)
    } else if command == 'a' {
        macros::convert_type_post(pre, post, command, r)
    } else if command == 'A' {
        macros::convert_utf8_post(pre, post, command, r)
    } else if command == 'q' {
        post == pre && macros::quit_post(pre, r)
    } else if command == '?' {
        post == pre && r.failed("! Prompts are not yet supported"@)
    } else if command == '&' {
        post == pre && r.failed("! Execute As Script is not yet supported"@)
    } else if command == '$' {
        post == pre && r.failed("! Get Environment Variable is not yet supported"@)
    } else if command == '\\' {
        post == pre && r.failed("! Execute OS is not yet supported"@)
    } else {
        post == pre && not_a_command_post(command, r)
    }
}

/// Runs one opcode.
pub fn run_command(
    handler: &mut Handler,
    command_stack: &mut Vec<Vec<char>>,
    command: char,
    inv: &mut bool,
) -> (r: Outcome)
    requires
        old(handler).wf(),
        old(command_stack)@.len() >= 1,
    ensures
        final(handler).wf(),
        run_command_post(
            *old(handler),
            *final(handler),
            old(command_stack)@,
            final(command_stack)@,
            command,
            *old(inv),
            *final(inv),
            r,
        ),
{
    if crate::text::is_decimal_digit(command) {
        return object_input::standard_number_input(handler, command_stack, command);
    }
    match command {
        '.' | '_' | '\'' | '@' => object_input::standard_number_input(
            handler,
            command_stack,
            command,
        ),
        '(' => object_input::any_base_number_input(handler, command_stack, command),
        '[' => object_input::string_input(handler, command_stack, command),
        'p' => printing::print_top(handler),
        'f' => printing::print_full_stack(handler),
        'n' => printing::print_pop_wo_newline(handler, command),
        'P' => printing::print_pop(handler, command),
        'F' => printing::print_register(handler, command_stack),
        '+' => arithmetic::add(handler, command),
        '-' => arithmetic::subtract(handler, command),
        '*' => arithmetic::multiply(handler, command),
        '/' => arithmetic::divide(handler, command),
        '%' => arithmetic::modulo(handler, command),
        '~' => arithmetic::euclidean_division(handler, command),
        '^' => arithmetic::exponent(handler, command),
        '|' => arithmetic::modular_exponent(handler, command),
        'v' => arithmetic::square_root(handler, command),
        'V' => arithmetic::nth_root(handler, command),
        'g' => arithmetic::ln(handler, command),
        'G' => arithmetic::log(handler, command),
        'u' => arithmetic::sin(handler, command),
        'y' => arithmetic::cos(handler, command),
        't' => arithmetic::tan(handler, command),
        'U' => arithmetic::asin(handler, command),
        'Y' => arithmetic::acos(handler, command),
        'T' => arithmetic::atan(handler, command),
        'N' => arithmetic::random_int(handler, command),
        '"' => constants::lookup(handler, command),
        'c' => stack_manipulation::clear_stack(handler),
        'C' => stack_manipulation::remove_objects(handler, command),
        'd' => stack_manipulation::duplicate_object(handler),
        'D' => stack_manipulation::duplicate_objects(handler, command),
        'r' => stack_manipulation::swap_objects(handler),
        'R' => stack_manipulation::rotate_objects(handler, command),
        'z' => stack_manipulation::push_stack_depth(handler),
        'k' => environment::set_output_precision(handler, command),
        'i' => environment::set_input_base(handler, command),
        'o' => environment::set_output_base(handler, command),
        'w' => environment::set_working_precision(handler, command),
        'K' => environment::push_output_precision(handler),
        'I' => environment::push_input_base(handler),
        'O' => environment::push_output_base(handler),
        'W' => environment::push_working_precision(handler),
        '{' => environment::new_context(handler),
        '}' => environment::revert_context(handler),
        's' => register::save_to_register(handler, command_stack, command),
        'S' => register::push_to_register(handler, command_stack, command),
        'l' => register::load_from_register(handler, command_stack, command),
        'L' => register::pop_from_register(handler, command_stack, command),
        ':' => register::save_to_top_of_register(handler, command_stack, command),
        ';' => register::load_from_top_of_register(handler, command_stack, command),
        'j' => register::load_top_of_register_into_buffer(handler, command_stack),
        'J' => register::pop_top_of_register_into_buffer(handler, command_stack),
        'h' => register::save_buffer_to_top_of_register(handler, command_stack),
        'H' => register::push_buffer_to_register(handler, command_stack),
        'Z' => register::push_register_depth(handler, command_stack),
        ',' => register::register_index(handler, command_stack, command),
        'a' => macros::convert_type(handler, command),
        'A' => macros::convert_utf8(handler, command),
        'x' => macros::execute_macro(handler, command_stack, command),
        '!' => macros::invert(inv),
        '<' | '=' | '>' => macros::if_macro(handler, command_stack, command, inv),
        'X' => macros::auto_macro(handler, command_stack, command),
        'q' => macros::quit(handler),
        'Q' => macros::quit_macro(handler, command_stack, command),
        '?' => macros::prompt(handler, command_stack, command),
        '&' => macros::execute_as_script(handler, command_stack, command),
        '$' => macros::get_env(handler, command_stack, command),
        '\\' => macros::execute_os(handler, command_stack, command),
        '#' => macros::stop_on_comment(command_stack),
        _ => not_a_command(command),
    }
}

} // verus!
