use crate::commands::{
    asked_to_describe, describe, operands1, operands2, operands3, passes, popped, push,
    rest_unchanged, stopped,
};
use crate::handler::{Handler, StackObject, Value};
use crate::number::{Class, Relation};
use crate::service::{BinaryOperation, Operation, Outcome, Pending, UnaryOperation};
use crate::text::{chars_of, owned, repeat_chars, repeated, reversed, slice_chars, string_of};
use vstd::prelude::*;

verus! {

/// The top of the main stack.
pub open spec fn top(h: Handler) -> StackObject {
    h.main_stack@.last()
}

/// The value below the top of the main stack.
pub open spec fn second(h: Handler) -> StackObject {
    h.main_stack@[h.main_stack@.len() - 2]
}

/// The value two below the top of the main stack.
pub open spec fn third(h: Handler) -> StackObject {
    h.main_stack@[h.main_stack@.len() - 3]
}

/// The top `count` values gave way to one value, which is `value`.
pub open spec fn replaced(pre: Handler, post: Handler, count: nat, value: Value) -> bool {
    &&& rest_unchanged(pre, post)
    &&& pre.main_stack@.len() >= count
    &&& post.main_stack@.len() == pre.main_stack@.len() - count + 1
    &&& post.main_stack@.drop_last() == pre.main_stack@.take(pre.main_stack@.len() - count)
    &&& post.main_stack@.last()@ == value
}

/// The top `count` values gave way to two values, `lower` below `upper`.
pub open spec fn replaced_by_two(
    pre: Handler,
    post: Handler,
    count: nat,
    lower: Value,
    upper: Value,
) -> bool {
    &&& rest_unchanged(pre, post)
    &&& pre.main_stack@.len() >= count
    &&& post.main_stack@.len() == pre.main_stack@.len() - count + 2
    &&& post.main_stack@.take(post.main_stack@.len() - 2) == pre.main_stack@.take(
        pre.main_stack@.len() - count,
    )
    &&& post.main_stack@[post.main_stack@.len() - 2]@ == lower
    &&& post.main_stack@.last()@ == upper
}

/// The operand went to the service for `operation`, the answer to be put
/// on the main stack.
pub open spec fn unary_asked(
    pre: Handler,
    post: Handler,
    r: Outcome,
    operation: UnaryOperation,
) -> bool {
    &&& popped(pre, post, 1)
    &&& top(pre) matches StackObject::Float(a)
    &&& r.asked(pre.working_precision, Operation::Unary(operation, a), Pending::Push)
}

/// The two operands went to the service for `operation`, the answer to be
/// put on the main stack.
pub open spec fn binary_asked(
    pre: Handler,
    post: Handler,
    r: Outcome,
    operation: BinaryOperation,
) -> bool {
    &&& popped(pre, post, 2)
    &&& second(pre) matches StackObject::Float(a)
    &&& top(pre) matches StackObject::Float(b)
    &&& r.asked(pre.working_precision, Operation::Binary(operation, a, b), Pending::Push)
}

/// What `+` does: two numbers are added by the service, two texts are
/// joined.
pub open spec fn add_post(pre: Handler, post: Handler, command: char, r: Outcome) -> bool {
    if !passes(command, pre.main_stack@, 2) {
        stopped(pre, post, command, 2, r)
    } else {
        match (second(pre), top(pre)) {
            (StackObject::Float(_), StackObject::Float(_)) => binary_asked(
                pre,
                post,
                r,
                BinaryOperation::Add,
            ),
            (StackObject::String(a), StackObject::String(b)) => replaced(
                pre,
                post,
                2,
                Value::String(a@ + b@),
            ) && r.silent(),
            _ => false,
        }
    }
}

/// Adds two numbers or joins two texts.
pub fn add(handler: &mut Handler, command: char) -> (r: Outcome)
    requires
        command == '+',
    ensures
        add_post(*old(handler), *final(handler), command, r),
{
    match operands2(handler, command) {
        Err(stop) => stop,
        Ok((a, b)) => match (a, b) {
            (StackObject::Float(x), StackObject::Float(y)) => Outcome::request(
                handler.working_precision,
                Operation::Binary(BinaryOperation::Add, x, y),
                Pending::Push,
            ),
            (StackObject::String(x), StackObject::String(y)) => {
                let joined = x.concat(y.as_str());
                push(handler, StackObject::String(joined));
                Outcome::nothing()
            },
            _ => {
                assert(false);
                Outcome::nothing()
            },
        },
    }
}

/// What is left of `text` when `count` characters go: from its end, or
/// from its start where `count` is negative.
pub open spec fn without(text: Seq<char>, count: int) -> Seq<char> {
    let n = if vstd::math::abs(count) > text.len() {
        text.len() as int
    } else {
        vstd::math::abs(count) as int
    };
    if count < 0 {
        text.skip(n)
    } else {
        text.take(text.len() - n)
    }
}

/// What `-` does: two numbers are subtracted by the service; a text loses
/// as many characters as the number says.
pub open spec fn subtract_post(pre: Handler, post: Handler, command: char, r: Outcome) -> bool {
    if !passes(command, pre.main_stack@, 2) {
        stopped(pre, post, command, 2, r)
    } else {
        match (second(pre), top(pre)) {
            (StackObject::Float(_), StackObject::Float(_)) => binary_asked(
                pre,
                post,
                r,
                BinaryOperation::Subtract,
            ),
            (StackObject::String(a), StackObject::Float(b)) => if vstd::math::abs(b@.integer())
                > usize::MAX {
                popped(pre, post, 2) && asked_to_describe(
                    r,
                    pre.working_precision,
                    b,
                    "! Cannot possibly remove "@,
                    " characters from a string"@,
                )
            } else {
                replaced(pre, post, 2, Value::String(without(a@, b@.integer()))) && r.silent()
            },
            _ => false,
        }
    }
}

/// Subtracts two numbers or removes characters from a text.
pub fn subtract(handler: &mut Handler, command: char) -> (r: Outcome)
    requires
        command == '-',
    ensures
        subtract_post(*old(handler), *final(handler), command, r),
{
    match operands2(handler, command) {
        Err(stop) => stop,
        Ok((a, b)) => match (a, b) {
            (StackObject::Float(x), StackObject::Float(y)) => Outcome::request(
                handler.working_precision,
                Operation::Binary(BinaryOperation::Subtract, x, y),
                Pending::Push,
            ),
            (StackObject::String(x), StackObject::Float(y)) => {
                match y.magnitude_usize() {
                    Some(count) => {
                        let chars = chars_of(x.as_str());
                        let n = if count > chars.len() {
                            chars.len()
                        } else {
                            count
                        };
                        let kept = if y.integer_is_negative() {
                            slice_chars(&chars, n, chars.len())
                        } else {
                            slice_chars(&chars, 0, chars.len() - n)
                        };
                        push(handler, StackObject::String(string_of(&kept)));
                        Outcome::nothing()
                    },
                    None => describe(
                        handler.working_precision,
                        y,
                        "! Cannot possibly remove ",
                        " characters from a string",
                    ),
                }
            },
            _ => {
                assert(false);
                Outcome::nothing()
            },
        },
    }
}

/// `text` written `count` times in a row, as often as a length can count, and
/// back to front where `count` is negative.
pub open spec fn multiplied(text: Seq<char>, count: int) -> Seq<char> {
    let wanted = vstd::math::abs(count) as int;
    let times = if text.len() > 0 && wanted > (usize::MAX as int) / (text.len() as int) {
        (usize::MAX as int) / (text.len() as int)
    } else {
        wanted
    };
    if count < 0 {
        repeated(text, times as nat).reverse()
    } else {
        repeated(text, times as nat)
    }
}

/// What `*` does: two numbers are multiplied by the service; a text is
/// repeated as often as the number says.
pub open spec fn multiply_post(pre: Handler, post: Handler, command: char, r: Outcome) -> bool {
    if !passes(command, pre.main_stack@, 2) {
        stopped(pre, post, command, 2, r)
    } else {
        match (second(pre), top(pre)) {
            (StackObject::Float(_), StackObject::Float(_)) => binary_asked(
                pre,
                post,
                r,
                BinaryOperation::Multiply,
            ),
            (StackObject::String(a), StackObject::Float(b)) => if vstd::math::abs(b@.integer())
                > usize::MAX {
                popped(pre, post, 2) && asked_to_describe(
                    r,
                    pre.working_precision,
                    b,
                    "! Cannot possibly repeat a string "@,
                    " times"@,
                )
            } else {
                replaced(pre, post, 2, Value::String(multiplied(a@, b@.integer()))) && r.silent()
            },
            _ => false,
        }
    }
}

/// Multiplies two numbers or repeats a text.
pub fn multiply(handler: &mut Handler, command: char) -> (r: Outcome)
    requires
        command == '*',
    ensures
        multiply_post(*old(handler), *final(handler), command, r),
{
    match operands2(handler, command) {
        Err(stop) => stop,
        Ok((a, b)) => match (a, b) {
            (StackObject::Float(x), StackObject::Float(y)) => Outcome::request(
                handler.working_precision,
                Operation::Binary(BinaryOperation::Multiply, x, y),
                Pending::Push,
            ),
            (StackObject::String(x), StackObject::Float(y)) => {
                match y.magnitude_usize() {
                    Some(count) => {
                        let chars = chars_of(x.as_str());
                        let times = if chars.len() > 0 && count > usize::MAX / chars.len() {
                            usize::MAX / chars.len()
                        } else {
                            count
                        };
                        let mut text = repeat_chars(&chars, times);
                        if y.integer_is_negative() {
                            text = reversed(&text);
                        }
                        push(handler, StackObject::String(string_of(&text)));
                        Outcome::nothing()
                    },
                    None => describe(
                        handler.working_precision,
                        y,
                        "! Cannot possibly repeat a string ",
                        " times",
                    ),
                }
            },
            _ => {
                assert(false);
                Outcome::nothing()
            },
        },
    }
}

/// `text` cut down to `count` characters: its first, or its last where
/// `count` is negative.
pub open spec fn shortened(text: Seq<char>, count: int) -> Seq<char> {
    let n = if vstd::math::abs(count) > text.len() {
        text.len() as int
    } else {
        vstd::math::abs(count) as int
    };
    if count < 0 {
        text.skip(text.len() - n)
    } else {
        text.take(n)
    }
}

/// What `/` does: two numbers are divided by the service unless the divisor
/// is zero; a text is cut down to the length that the number says.
pub open spec fn divide_post(pre: Handler, post: Handler, command: char, r: Outcome) -> bool {
    if !passes(command, pre.main_stack@, 2) {
        stopped(pre, post, command, 2, r)
    } else {
        match (second(pre), top(pre)) {
            (StackObject::Float(_), StackObject::Float(b)) => if b@.class == Class::Zero {
                popped(pre, post, 2) && r.failed("! Arithmetic error: Attempted division by zero"@)
            } else {
                binary_asked(pre, post, r, BinaryOperation::Divide)
            },
            (StackObject::String(a), StackObject::Float(b)) => if vstd::math::abs(b@.integer())
                > usize::MAX {
                popped(pre, post, 2) && asked_to_describe(
                    r,
                    pre.working_precision,
                    b,
                    "! Cannot possibly shorten a string to "@,
                    " characters"@,
                )
            } else {
                replaced(pre, post, 2, Value::String(shortened(a@, b@.integer()))) && r.silent()
            },
            _ => false,
        }
    }
}

/// Divides two numbers or shortens a text.
pub fn divide(handler: &mut Handler, command: char) -> (r: Outcome)
    requires
        command == '/',
    ensures
        divide_post(*old(handler), *final(handler), command, r),
{
    match operands2(handler, command) {
        Err(stop) => stop,
        Ok((a, b)) => match (a, b) {
            (StackObject::Float(x), StackObject::Float(y)) => {
                if y.is_zero() {
                    Outcome::failure(owned("! Arithmetic error: Attempted division by zero"))
                } else {
                    Outcome::request(
                        handler.working_precision,
                        Operation::Binary(BinaryOperation::Divide, x, y),
                        Pending::Push,
                    )
                }
            },
            (StackObject::String(x), StackObject::Float(y)) => {
                match y.magnitude_usize() {
                    Some(count) => {
                        let chars = chars_of(x.as_str());
                        let n = if count > chars.len() {
                            chars.len()
                        } else {
                            count
                        };
                        let kept = if y.integer_is_negative() {
                            slice_chars(&chars, chars.len() - n, chars.len())
                        } else {
                            slice_chars(&chars, 0, n)
                        };
                        push(handler, StackObject::String(string_of(&kept)));
                        Outcome::nothing()
                    },
                    None => describe(
                        handler.working_precision,
                        y,
                        "! Cannot possibly shorten a string to ",
                        " characters",
                    ),
                }
            },
            _ => {
                assert(false);
                Outcome::nothing()
            },
        },
    }
}

/// What `%` does: the service takes the remainder of the integer parts,
/// unless that of the divisor is zero.
pub open spec fn modulo_post(pre: Handler, post: Handler, command: char, r: Outcome) -> bool {
    if !passes(command, pre.main_stack@, 2) {
        stopped(pre, post, command, 2, r)
    } else {
        match top(pre) {
            StackObject::Float(b) => if b@.integer() == 0 {
                popped(pre, post, 2) && r.failed("! Arithmetic error: Attempted reduction mod 0"@)
            } else {
                binary_asked(pre, post, r, BinaryOperation::Remainder)
            },
            _ => false,
        }
    }
}

/// The remainder of two integers.
pub fn modulo(handler: &mut Handler, command: char) -> (r: Outcome)
    requires
        command == '%',
    ensures
        modulo_post(*old(handler), *final(handler), command, r),
{
    match operands2(handler, command) {
        Err(stop) => stop,
        Ok((a, b)) => match (a, b) {
            (StackObject::Float(x), StackObject::Float(y)) => {
                if y.integer_is_zero() {
                    Outcome::failure(owned("! Arithmetic error: Attempted reduction mod 0"))
                } else {
                    Outcome::request(
                        handler.working_precision,
                        Operation::Binary(BinaryOperation::Remainder, x, y),
                        Pending::Push,
                    )
                }
            },
            _ => {
                assert(false);
                Outcome::nothing()
            },
        },
    }
}

/// What `~` does: the service divides the integer parts with remainder,
/// unless that of the divisor is zero; a text is split at the index that
/// the number says.
pub open spec fn euclidean_division_post(
    pre: Handler,
    post: Handler,
    command: char,
    r: Outcome,
) -> bool {
    if !passes(command, pre.main_stack@, 2) {
        stopped(pre, post, command, 2, r)
    } else {
        match (second(pre), top(pre)) {
            (StackObject::Float(a), StackObject::Float(b)) => if b@.integer() == 0 {
                popped(pre, post, 2) && r.failed("! Arithmetic error: Attempted reduction mod 0"@)
            } else {
                popped(pre, post, 2) && r.asked(
                    pre.working_precision,
                    Operation::Euclid(a, b),
                    Pending::PushPair,
                )
            },
            (StackObject::String(a), StackObject::Float(b)) => if b@.integer() < 0 || b@.integer()
                > usize::MAX {
                popped(pre, post, 2) && asked_to_describe(
                    r,
                    pre.working_precision,
                    b,
                    "! Cannot possibly split a string at character "@,
                    ""@,
                )
            } else {
                let at = if b@.integer() > a@.len() {
                    a@.len() as int
                } else {
                    b@.integer()
                };
                replaced_by_two(
                    pre,
                    post,
                    2,
                    Value::String(a@.take(at)),
                    Value::String(a@.skip(at)),
                ) && r.silent()
            },
            _ => false,
        }
    }
}

/// Division with remainder, or the two halves of a text.
pub fn euclidean_division(handler: &mut Handler, command: char) -> (r: Outcome)
    requires
        command == '~',
    ensures
        euclidean_division_post(*old(handler), *final(handler), command, r),
{
    match operands2(handler, command) {
        Err(stop) => stop,
        Ok((a, b)) => match (a, b) {
            (StackObject::Float(x), StackObject::Float(y)) => {
                if y.integer_is_zero() {
                    Outcome::failure(owned("! Arithmetic error: Attempted reduction mod 0"))
                } else {
                    Outcome::request(
                        handler.working_precision,
                        Operation::Euclid(x, y),
                        Pending::PushPair,
                    )
                }
            },
            (StackObject::String(x), StackObject::Float(y)) => {
                match y.to_usize() {
                    Some(index) => {
                        let chars = chars_of(x.as_str());
                        let at = if index > chars.len() {
                            chars.len()
                        } else {
                            index
                        };
                        let head = slice_chars(&chars, 0, at);
                        let tail = slice_chars(&chars, at, chars.len());
                        let ghost before = handler.main_stack@;
                        handler.main_stack.push(StackObject::String(string_of(&head)));
                        handler.main_stack.push(StackObject::String(string_of(&tail)));
                        assert(handler.main_stack@.take(handler.main_stack@.len() - 2) =~= before);
                        Outcome::nothing()
                    },
                    None => describe(
                        handler.working_precision,
                        y,
                        "! Cannot possibly split a string at character ",
                        "",
                    ),
                }
            },
            _ => {
                assert(false);
                Outcome::nothing()
            },
        },
    }
}

/// What `^` does: the service raises to the power, unless that asks for a
/// root of a negative number.
pub open spec fn exponent_post(pre: Handler, post: Handler, command: char, r: Outcome) -> bool {
    if !passes(command, pre.main_stack@, 2) {
        stopped(pre, post, command, 2, r)
    } else {
        match (second(pre), top(pre)) {
            (StackObject::Float(a), StackObject::Float(b)) => if a@.below_zero()
                && b@.magnitude_to_one() == Relation::Less {
                popped(pre, post, 2) && r.failed(
                    "! Arithmetic error: Roots of negative numbers are not allowed"@,
                )
            } else {
                binary_asked(pre, post, r, BinaryOperation::Power)
            },
            _ => false,
        }
    }
}

/// Raises a number to a power.
pub fn exponent(handler: &mut Handler, command: char) -> (r: Outcome)
    requires
        command == '^',
    ensures
        exponent_post(*old(handler), *final(handler), command, r),
{
    match operands2(handler, command) {
        Err(stop) => stop,
        Ok((a, b)) => match (a, b) {
            (StackObject::Float(x), StackObject::Float(y)) => {
                if x.is_below_zero() && y.compare_magnitude_with_one() == Relation::Less {
                    Outcome::failure(
                        owned("! Arithmetic error: Roots of negative numbers are not allowed"),
                    )
                } else {
                    Outcome::request(
                        handler.working_precision,
                        Operation::Binary(BinaryOperation::Power, x, y),
                        Pending::Push,
                    )
                }
            },
            _ => {
                assert(false);
                Outcome::nothing()
            },
        },
    }
}

/// What `|` does: the service raises to the power modulo the third
/// operand, unless that one's integer part is zero; where there is no such
/// power, the failure names base and modulus.
pub open spec fn modular_exponent_post(
    pre: Handler,
    post: Handler,
    command: char,
    r: Outcome,
) -> bool {
    if !passes(command, pre.main_stack@, 3) {
        stopped(pre, post, command, 3, r)
    } else {
        match (third(pre), second(pre), top(pre)) {
            (StackObject::Float(a), StackObject::Float(b), StackObject::Float(c)) => if c@.integer()
                == 0 {
                popped(pre, post, 3) && r.failed("! Arithmetic error: Attempted reduction mod 0"@)
            } else {
                &&& popped(pre, post, 3)
                &&& r.output@.len() == 0
                &&& r.ask matches Some(ask)
                &&& ask.request.precision == pre.working_precision
                &&& ask.request.operation == Operation::PowerMod(a, b, c)
                &&& ask.pending matches Pending::Inverse { base, modulus }
                &&& base@ == a@
                &&& modulus@ == c@
            },
            _ => false,
        }
    }
}

/// Raises an integer to a power modulo another.
pub fn modular_exponent(handler: &mut Handler, command: char) -> (r: Outcome)
    requires
        command == '|',
    ensures
        modular_exponent_post(*old(handler), *final(handler), command, r),
{
    match operands3(handler, command) {
        Err(stop) => stop,
        Ok((a, b, c)) => match (a, b, c) {
            (StackObject::Float(x), StackObject::Float(y), StackObject::Float(z)) => {
                if z.integer_is_zero() {
                    Outcome::failure(owned("! Arithmetic error: Attempted reduction mod 0"))
                } else {
                    let pending = Pending::Inverse { base: x.clone(), modulus: z.clone() };
                    Outcome::request(
                        handler.working_precision,
                        Operation::PowerMod(x, y, z),
                        pending,
                    )
                }
            },
            _ => {
                assert(false);
                Outcome::nothing()
            },
        },
    }
}

/// What `v` does: the service takes the square root, unless the number is
/// negative.
pub open spec fn square_root_post(pre: Handler, post: Handler, command: char, r: Outcome) -> bool {
    if !passes(command, pre.main_stack@, 1) {
        stopped(pre, post, command, 1, r)
    } else {
        match top(pre) {
            StackObject::Float(a) => if a@.below_zero() {
                popped(pre, post, 1) && r.failed(
                    "! Arithmetic error: Roots of negative numbers are not allowed"@,
                )
            } else {
                unary_asked(pre, post, r, UnaryOperation::SquareRoot)
            },
            _ => false,
        }
    }
}

/// The square root of a number.
pub fn square_root(handler: &mut Handler, command: char) -> (r: Outcome)
    requires
        command == 'v',
    ensures
        square_root_post(*old(handler), *final(handler), command, r),
{
    match operands1(handler, command) {
        Err(stop) => stop,
        Ok(a) => match a {
            StackObject::Float(x) => {
                if x.is_below_zero() {
                    Outcome::failure(
                        owned("! Arithmetic error: Roots of negative numbers are not allowed"),
                    )
                } else {
                    Outcome::request(
                        handler.working_precision,
                        Operation::Unary(UnaryOperation::SquareRoot, x),
                        Pending::Push,
                    )
                }
            },
            _ => {
                assert(false);
                Outcome::nothing()
            },
        },
    }
}

/// What `V` does: the service takes the root, unless the number is
/// negative and the degree above one.
pub open spec fn nth_root_post(pre: Handler, post: Handler, command: char, r: Outcome) -> bool {
    if !passes(command, pre.main_stack@, 2) {
        stopped(pre, post, command, 2, r)
    } else {
        match (second(pre), top(pre)) {
            (StackObject::Float(a), StackObject::Float(b)) => if a@.below_zero()
                && b@.magnitude_to_one() == Relation::Greater {
                popped(pre, post, 2) && r.failed(
                    "! Arithmetic error: Roots of negative numbers are not allowed"@,
                )
            } else {
                binary_asked(pre, post, r, BinaryOperation::Root)
            },
            _ => false,
        }
    }
}

/// The root of a number to a degree.
pub fn nth_root(handler: &mut Handler, command: char) -> (r: Outcome)
    requires
        command == 'V',
    ensures
        nth_root_post(*old(handler), *final(handler), command, r),
{
    match operands2(handler, command) {
        Err(stop) => stop,
        Ok((a, b)) => match (a, b) {
            (StackObject::Float(x), StackObject::Float(y)) => {
                if x.is_below_zero() && y.compare_magnitude_with_one() == Relation::Greater {
                    Outcome::failure(
                        owned("! Arithmetic error: Roots of negative numbers are not allowed"),
                    )
                } else {
                    Outcome::request(
                        handler.working_precision,
                        Operation::Binary(BinaryOperation::Root, x, y),
                        Pending::Push,
                    )
                }
            },
            _ => {
                assert(false);
                Outcome::nothing()
            },
        },
    }
}

/// What `g` does: the service takes the natural logarithm of a number
/// above zero; of a text, its length in characters is made a number.
pub open spec fn ln_post(pre: Handler, post: Handler, command: char, r: Outcome) -> bool {
    if !passes(command, pre.main_stack@, 1) {
        stopped(pre, post, command, 1, r)
    } else {
        match top(pre) {
            StackObject::Float(a) => if a@.at_most_zero() {
                popped(pre, post, 1) && r.failed(
                    "! Arithmetic error: Logarithms of zero and negative numbers are not allowed"@,
                )
            } else {
                unary_asked(pre, post, r, UnaryOperation::NaturalLogarithm)
            },
            StackObject::String(s) => popped(pre, post, 1) && r.asked(
                pre.working_precision,
                Operation::Unsigned(s@.len() as u64),
                Pending::Push,
            ),
        }
    }
}

/// The natural logarithm of a number, or the length of a text.
pub fn ln(handler: &mut Handler, command: char) -> (r: Outcome)
    requires
        command == 'g',
    ensures
        ln_post(*old(handler), *final(handler), command, r),
{
    match operands1(handler, command) {
        Err(stop) => stop,
        Ok(a) => match a {
            StackObject::Float(x) => {
                if x.is_at_most_zero() {
                    Outcome::failure(
                        owned(
                            "! Arithmetic error: Logarithms of zero and negative numbers are not allowed",
                        ),
                    )
                } else {
                    Outcome::request(
                        handler.working_precision,
                        Operation::Unary(UnaryOperation::NaturalLogarithm, x),
                        Pending::Push,
                    )
                }
            },
            StackObject::String(s) => {
                let chars = chars_of(s.as_str());
                Outcome::request(
                    handler.working_precision,
                    Operation::Unsigned(chars.len() as u64),
                    Pending::Push,
                )
            },
        },
    }
}

/// What `G` does: the service takes the logarithm to the base, where the
/// number is above zero and the base is above zero and not one.
pub open spec fn log_post(pre: Handler, post: Handler, command: char, r: Outcome) -> bool {
    if !passes(command, pre.main_stack@, 2) {
        stopped(pre, post, command, 2, r)
    } else {
        match (second(pre), top(pre)) {
            (StackObject::Float(a), StackObject::Float(b)) => if a@.at_most_zero() {
                popped(pre, post, 2) && r.failed(
                    "! Arithmetic error: Logarithms of zero and negative numbers are not allowed"@,
                )
            } else if b@.is_one() || b@.at_most_zero() {
                popped(pre, post, 2) && r.failed(
                    "! Arithmetic error: Logarithm base must be positive and not equal to 1"@,
                )
            } else {
                binary_asked(pre, post, r, BinaryOperation::Logarithm)
            },
            _ => false,
        }
    }
}

/// The logarithm of a number to a base.
pub fn log(handler: &mut Handler, command: char) -> (r: Outcome)
    requires
        command == 'G',
    ensures
        log_post(*old(handler), *final(handler), command, r),
{
    match operands2(handler, command) {
        Err(stop) => stop,
        Ok((a, b)) => match (a, b) {
            (StackObject::Float(x), StackObject::Float(y)) => {
                if x.is_at_most_zero() {
                    Outcome::failure(
                        owned(
                            "! Arithmetic error: Logarithms of zero and negative numbers are not allowed",
                        ),
                    )
                } else if y.is_one() || y.is_at_most_zero() {
                    Outcome::failure(
                        owned(
                            "! Arithmetic error: Logarithm base must be positive and not equal to 1",
                        ),
                    )
                } else {
                    Outcome::request(
                        handler.working_precision,
                        Operation::Binary(BinaryOperation::Logarithm, x, y),
                        Pending::Push,
                    )
                }
            },
            _ => {
                assert(false);
                Outcome::nothing()
            },
        },
    }
}

/// What an opcode does that hands one number to the service whatever its
/// value.
pub open spec fn plain_unary_post(
    pre: Handler,
    post: Handler,
    command: char,
    r: Outcome,
    operation: UnaryOperation,
) -> bool {
    if !passes(command, pre.main_stack@, 1) {
        stopped(pre, post, command, 1, r)
    } else {
        unary_asked(pre, post, r, operation)
    }
}

/// What an opcode does that hands one number to the service unless its
/// absolute value is above one, which is the failure `refusal`.
pub open spec fn bounded_unary_post(
    pre: Handler,
    post: Handler,
    command: char,
    r: Outcome,
    operation: UnaryOperation,
    refusal: Seq<char>,
) -> bool {
    if !passes(command, pre.main_stack@, 1) {
        stopped(pre, post, command, 1, r)
    } else {
        match top(pre) {
            StackObject::Float(a) => if a@.magnitude_to_one() == Relation::Greater {
                popped(pre, post, 1) && r.failed(refusal)
            } else {
                unary_asked(pre, post, r, operation)
            },
            _ => false,
        }
    }
}

fn plain_unary(handler: &mut Handler, command: char, operation: UnaryOperation) -> (r: Outcome)
    requires
        command == 'u' || command == 'y' || command == 't' || command == 'T',
    ensures
        plain_unary_post(*old(handler), *final(handler), command, r, operation),
{
    match operands1(handler, command) {
        Err(stop) => stop,
        Ok(a) => match a {
            StackObject::Float(x) => Outcome::request(
                handler.working_precision,
                Operation::Unary(operation, x),
                Pending::Push,
            ),
            _ => {
                assert(false);
                Outcome::nothing()
            },
        },
    }
}

fn bounded_unary(
    handler: &mut Handler,
    command: char,
    operation: UnaryOperation,
    refusal: &str,
) -> (r: Outcome)
    requires
        command == 'U' || command == 'Y',
    ensures
        bounded_unary_post(*old(handler), *final(handler), command, r, operation, refusal@),
{
    match operands1(handler, command) {
        Err(stop) => stop,
        Ok(a) => match a {
            StackObject::Float(x) => {
                if x.compare_magnitude_with_one() == Relation::Greater {
                    Outcome::failure(owned(refusal))
                } else {
                    Outcome::request(
                        handler.working_precision,
                        Operation::Unary(operation, x),
                        Pending::Push,
                    )
                }
            },
            _ => {
                assert(false);
                Outcome::nothing()
            },
        },
    }
}

/// The sine of a number.
pub fn sin(handler: &mut Handler, command: char) -> (r: Outcome)
    requires
        command == 'u',
    ensures
        plain_unary_post(*old(handler), *final(handler), command, r, UnaryOperation::Sine),
{
    plain_unary(handler, command, UnaryOperation::Sine)
}

/// The cosine of a number.
pub fn cos(handler: &mut Handler, command: char) -> (r: Outcome)
    requires
        command == 'y',
    ensures
        plain_unary_post(*old(handler), *final(handler), command, r, UnaryOperation::Cosine),
{
    plain_unary(handler, command, UnaryOperation::Cosine)
}

/// The tangent of a number.
pub fn tan(handler: &mut Handler, command: char) -> (r: Outcome)
    requires
        command == 't',
    ensures
        plain_unary_post(*old(handler), *final(handler), command, r, UnaryOperation::Tangent),
{
    plain_unary(handler, command, UnaryOperation::Tangent)
}

/// The arc sine of a number from -1 to 1.
pub fn asin(handler: &mut Handler, command: char) -> (r: Outcome)
    requires
        command == 'U',
    ensures
        bounded_unary_post(
            *old(handler),
            *final(handler),
            command,
            r,
            UnaryOperation::ArcSine,
            "! Arithmetic error: Arc-sine of value outside [-1,1]"@,
        ),
{
    bounded_unary(
        handler,
        command,
        UnaryOperation::ArcSine,
        "! Arithmetic error: Arc-sine of value outside [-1,1]",
    )
}

/// The arc cosine of a number from -1 to 1.
pub fn acos(handler: &mut Handler, command: char) -> (r: Outcome)
    requires
        command == 'Y',
    ensures
        bounded_unary_post(
            *old(handler),
            *final(handler),
            command,
            r,
            UnaryOperation::ArcCosine,
            "! Arithmetic error: Arc-cosine of value outside [-1,1]"@,
        ),
{
    bounded_unary(
        handler,
        command,
        UnaryOperation::ArcCosine,
        "! Arithmetic error: Arc-cosine of value outside [-1,1]",
    )
}

/// The arc tangent of a number.
pub fn atan(handler: &mut Handler, command: char) -> (r: Outcome)
    requires
        command == 'T',
    ensures
        plain_unary_post(*old(handler), *final(handler), command, r, UnaryOperation::ArcTangent),
{
    plain_unary(handler, command, UnaryOperation::ArcTangent)
}

/// What `N` does: the bound is taken off the stack and must be above zero;
/// no number is drawn.
pub open spec fn random_int_post(pre: Handler, post: Handler, command: char, r: Outcome) -> bool {
    if !passes(command, pre.main_stack@, 1) {
        stopped(pre, post, command, 1, r)
    } else {
        match top(pre) {
            StackObject::Float(a) => popped(pre, post, 1) && if a@.integer() <= 0 {
                r.failed("! Upper bound for random value must be above 0"@)
            } else {
                r.silent()
            },
            _ => false,
        }
    }
}

/// Checks the bound for a random integer.
pub fn random_int(handler: &mut Handler, command: char) -> (r: Outcome)
    requires
        command == 'N',
    ensures
        random_int_post(*old(handler), *final(handler), command, r),
{
    match operands1(handler, command) {
        Err(stop) => stop,
        Ok(a) => match a {
            StackObject::Float(x) => {
                if !x.integer_at_least(1) {
                    Outcome::failure(owned("! Upper bound for random value must be above 0"))
                } else {
                    Outcome::nothing()
                }
            },
            _ => {
                assert(false);
                Outcome::nothing()
            },
        },
    }
}

} // verus!
