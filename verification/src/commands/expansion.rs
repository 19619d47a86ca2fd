use crate::number::{Class, Number, NumberView, Relation};
use crate::service::{BinaryOperation, Operation, Reply, WholeOperation};
use crate::text::{append, append_chars, decimal, write_decimal};
use vstd::prelude::*;

verus! {

/// How far the digits of a number in a base above 36 are worked out, and
/// what answer is awaited.
#[derive(Debug)]
pub enum Expanding {
    /// The value is scaled up, `scale` times so far; its product with the
    /// base is awaited.
    Scaling { value: Number, scale: usize },
    /// The product was beyond all numbers; the value over the base is
    /// awaited.
    Retreating { scale: usize },
    /// The product that gives one digit more is awaited.
    Extending { scale: usize },
    /// The whole number nearest to that product is awaited.
    Rounding { scale: usize },
    /// That whole number over the base is awaited: the integer to write.
    Reducing { scale: usize },
    /// The place value is raised; its product with the base is awaited.
    Placing { integer: Number, scale: usize },
    /// The place value over the base is awaited: the place of the next
    /// digit.
    Lowering { rest: Number, digits: Vec<char>, scale: usize },
    /// The digit at `place` and what is left behind it are awaited.
    Peeling { place: Number, digits: Vec<char>, scale: usize },
    /// The digit in decimal is awaited.
    Naming { rest: Number, place: Number, digits: Vec<char>, scale: usize },
}

/// What a step of the expansion gives: a question, or the digits, each
/// followed by a blank, with how many of them stand behind the separator,
/// or nothing where the answer does not fit.
#[derive(Debug)]
pub enum Expanded {
    Ask(Expanding, Operation),
    Done(Vec<char>, usize),
    Unusable,
}

/// `op` is the function `kind` of `a` and `b`.
pub open spec fn is_binary(
    op: Operation,
    kind: BinaryOperation,
    a: NumberView,
    b: NumberView,
) -> bool {
    op matches Operation::Binary(k, x, y) && k == kind && x@ == a && y@ == b
}

/// `op` is the exact function `kind` of the integer parts of `a` and `b`.
pub open spec fn is_whole(op: Operation, kind: WholeOperation, a: NumberView, b: NumberView) -> bool {
    op matches Operation::Whole(k, x, y) && k == kind && x@ == a && y@ == b
}

/// The view of the number one, spelled with one bit.
pub open spec fn one() -> NumberView {
    crate::number::one_view(1)
}

/// The number one.
pub fn make_one() -> (r: Number)
    ensures
        r@ == one(),
{
    let mut mantissa: Vec<u8> = Vec::new();
    mantissa.push(128u8);
    assert(mantissa@ =~= seq![128u8]);
    Number { class: Class::Finite, negative: false, mantissa, exponent: 1, precision: 1 }
}

/// Scaling goes on while the value has a fraction and fewer digits stand
/// behind the separator than the limit allows; a negative limit allows any
/// number.
pub open spec fn goes_on(value: NumberView, limit: NumberView, scale: int) -> bool {
    value.has_fraction() && (limit.integer() < 0 || scale < limit.integer())
}

/// What is asked of a value that is scaled `scale` times: its product with
/// the base, to scale it once more where scaling goes on, and else to have
/// one digit more to round at.
pub open spec fn scaled(
    base: NumberView,
    limit: NumberView,
    value: NumberView,
    scale: usize,
    next: Expanding,
    op: Operation,
) -> bool {
    &&& is_binary(op, BinaryOperation::Scale, value, base)
    &&& if goes_on(value, limit, scale as int) {
        next matches Expanding::Scaling { value: kept, scale: s } && kept@ == value && s == scale
    } else {
        next matches Expanding::Extending { scale: s } && s == scale
    }
}

fn scale_on(base: &Number, limit: &Number, value: Number, scale: usize) -> (r: (Expanding, Operation))
    ensures
        scaled(base@, limit@, value@, scale, r.0, r.1),
{
    let within = match limit.to_usize() {
        Some(l) => scale < l,
        None => true,
    };
    if value.has_fraction() && within {
        let kept = value.clone();
        (
            Expanding::Scaling { value: kept, scale },
            Operation::Binary(BinaryOperation::Scale, value, base.clone()),
        )
    } else {
        (
            Expanding::Extending { scale },
            Operation::Binary(BinaryOperation::Scale, value, base.clone()),
        )
    }
}

/// What the expansion of a value begins with: its absolute value, not yet
/// scaled.
pub open spec fn begun(
    value: NumberView,
    base: NumberView,
    limit: NumberView,
    next: Expanding,
    op: Operation,
) -> bool {
    scaled(base, limit, value.abs(), 0, next, op)
}

/// Begins to work out the digits of a number in a base above 36.
pub fn begin_expansion(value: &Number, base: &Number, limit: &Number) -> (r: (Expanding, Operation))
    ensures
        begun(value@, base@, limit@, r.0, r.1),
{
    let copy = value.clone();
    let positive = Number {
        class: copy.class,
        negative: false,
        mantissa: copy.mantissa,
        exponent: copy.exponent,
        precision: copy.precision,
    };
    scale_on(base, limit, positive, 0)
}

/// What follows a digit: the digits are done where its place is one, and
/// else the place of the next digit is asked for, the place over the base.
pub open spec fn digit_written(
    base: NumberView,
    rest: Number,
    place: NumberView,
    digits: Seq<char>,
    scale: usize,
    r: Expanded,
) -> bool {
    if place.is_one() {
        r matches Expanded::Done(d, s) && d@ == digits && s == scale
    } else {
        &&& r matches Expanded::Ask(next, op)
        &&& is_whole(op, WholeOperation::Quotient, place, base)
        &&& next matches Expanding::Lowering { rest: left, digits: d, scale: s }
        &&& left == rest
        &&& d@ == digits
        &&& s == scale
    }
}

fn after_digit(base: &Number, rest: Number, place: Number, digits: Vec<char>, scale: usize) -> (r:
    Expanded)
    ensures
        digit_written(base@, rest, place@, digits@, scale, r),
{
    if place.is_one() {
        Expanded::Done(digits, scale)
    } else {
        Expanded::Ask(
            Expanding::Lowering { rest, digits, scale },
            Operation::Whole(WholeOperation::Quotient, place, base.clone()),
        )
    }
}

/// What an answer does to the expansion.
///
/// Scaling: a product beyond all numbers ends the scaling, and the value
/// over the base is asked for; any other product is the value scaled once
/// more. After the scaling one more product gives a digit to round at: the
/// nearest whole number is asked for, and that over the base is the integer
/// to write. Its highest place is found by raising one by the base while it
/// is not above the integer, and lowering it once. Then the digit at each
/// place down to one is the quotient of what is left by the place; it is
/// written in decimal with a blank behind it.
pub open spec fn expand_post(
    base: NumberView,
    limit: NumberView,
    state: Expanding,
    reply: Reply,
    r: Expanded,
) -> bool {
    match (state, reply) {
        (Expanding::Scaling { value, scale }, Reply::Number(product)) => if product@.class
            == Class::Infinite {
            &&& r matches Expanded::Ask(next, op)
            &&& is_binary(op, BinaryOperation::Shrink, value@, base)
            &&& next matches Expanding::Retreating { scale: s }
            &&& s == scale
        } else if scale == usize::MAX {
            r is Unusable
        } else {
            r matches Expanded::Ask(next, op) && scaled(
                base,
                limit,
                product@,
                (scale + 1) as usize,
                next,
                op,
            )
        },
        (Expanding::Retreating { scale }, Reply::Number(value)) => {
            &&& r matches Expanded::Ask(next, op)
            &&& is_binary(op, BinaryOperation::Scale, value@, base)
            &&& next matches Expanding::Extending { scale: s }
            &&& s == scale
        },
        (Expanding::Extending { scale }, Reply::Number(product)) => {
            &&& r matches Expanded::Ask(next, op)
            &&& op == Operation::Nearest(product)
            &&& next matches Expanding::Rounding { scale: s }
            &&& s == scale
        },
        (Expanding::Rounding { scale }, Reply::Number(nearest)) => {
            &&& r matches Expanded::Ask(next, op)
            &&& is_whole(op, WholeOperation::Quotient, nearest@, base)
            &&& next matches Expanding::Reducing { scale: s }
            &&& s == scale
        },
        (Expanding::Reducing { scale }, Reply::Number(integer)) => {
            &&& r matches Expanded::Ask(next, op)
            &&& if one().order(integer@) == Relation::Less || one().order(integer@)
                == Relation::Equal {
                &&& is_whole(op, WholeOperation::Product, one(), base)
                &&& next matches Expanding::Placing { integer: kept, scale: s }
                &&& kept == integer
                &&& s == scale
            } else {
                &&& op matches Operation::WholeEuclid(a, b)
                &&& a == integer
                &&& b@ == one()
                &&& next matches Expanding::Peeling { place, digits, scale: s }
                &&& place@ == one()
                &&& digits@.len() == 0
                &&& s == scale
            }
        },
        (Expanding::Placing { integer, scale }, Reply::Number(place)) => {
            &&& r matches Expanded::Ask(next, op)
            &&& if place@.order(integer@) == Relation::Less || place@.order(integer@)
                == Relation::Equal {
                &&& is_whole(op, WholeOperation::Product, place@, base)
                &&& next matches Expanding::Placing { integer: kept, scale: s }
                &&& kept == integer
                &&& s == scale
            } else {
                &&& is_whole(op, WholeOperation::Quotient, place@, base)
                &&& next matches Expanding::Lowering { rest, digits, scale: s }
                &&& rest == integer
                &&& digits@.len() == 0
                &&& s == scale
            }
        },
        (Expanding::Lowering { rest, digits, scale }, Reply::Number(place)) => {
            &&& r matches Expanded::Ask(next, op)
            &&& op matches Operation::WholeEuclid(a, b)
            &&& a == rest
            &&& b@ == place@
            &&& next matches Expanding::Peeling { place: kept, digits: d, scale: s }
            &&& kept == place
            &&& d == digits
            &&& s == scale
        },
        (Expanding::Peeling { place, digits, scale }, Reply::Pair(digit, rest)) => if vstd::math::abs(
            digit@.integer(),
        ) <= u64::MAX {
            digit_written(
                base,
                rest,
                place@,
                digits@ + decimal(vstd::math::abs(digit@.integer()) as nat) + seq![' '],
                scale,
                r,
            )
        } else {
            &&& r matches Expanded::Ask(next, op)
            &&& op matches Operation::Describe(numbers)
            &&& numbers@ == seq![digit]
            &&& next == (Expanding::Naming { rest, place, digits, scale })
        },
        (Expanding::Naming { rest, place, digits, scale }, Reply::Texts(texts)) => if texts@.len()
            == 1 {
            digit_written(base, rest, place@, digits@ + texts@[0]@ + seq![' '], scale, r)
        } else {
            r is Unusable
        },
        _ => r is Unusable,
    }
}

/// Takes an answer to the expansion, and says what is to be asked next or
/// what the digits are.
pub fn expand(base: &Number, limit: &Number, state: Expanding, reply: Reply) -> (r: Expanded)
    ensures
        expand_post(base@, limit@, state, reply, r),
{
    match (state, reply) {
        (Expanding::Scaling { value, scale }, Reply::Number(product)) => {
            let beyond = match product.class {
                Class::Infinite => true,
                _ => false,
            };
            if beyond {
                Expanded::Ask(
                    Expanding::Retreating { scale },
                    Operation::Binary(BinaryOperation::Shrink, value, base.clone()),
                )
            } else if scale == usize::MAX {
                Expanded::Unusable
            } else {
                let (next, op) = scale_on(base, limit, product, scale + 1);
                Expanded::Ask(next, op)
            }
        },
        (Expanding::Retreating { scale }, Reply::Number(value)) => Expanded::Ask(
            Expanding::Extending { scale },
            Operation::Binary(BinaryOperation::Scale, value, base.clone()),
        ),
        (Expanding::Extending { scale }, Reply::Number(product)) => Expanded::Ask(
            Expanding::Rounding { scale },
            Operation::Nearest(product),
        ),
        (Expanding::Rounding { scale }, Reply::Number(nearest)) => Expanded::Ask(
            Expanding::Reducing { scale },
            Operation::Whole(WholeOperation::Quotient, nearest, base.clone()),
        ),
        (Expanding::Reducing { scale }, Reply::Number(integer)) => {
            let unit = make_one();
            match unit.compare(&integer) {
                Relation::Less | Relation::Equal => Expanded::Ask(
                    Expanding::Placing { integer, scale },
                    Operation::Whole(WholeOperation::Product, unit, base.clone()),
                ),
                _ => Expanded::Ask(
                    Expanding::Peeling { place: make_one(), digits: Vec::new(), scale },
                    Operation::WholeEuclid(integer, unit),
                ),
            }
        },
        (Expanding::Placing { integer, scale }, Reply::Number(place)) => {
            match place.compare(&integer) {
                Relation::Less | Relation::Equal => Expanded::Ask(
                    Expanding::Placing { integer, scale },
                    Operation::Whole(WholeOperation::Product, place, base.clone()),
                ),
                _ => Expanded::Ask(
                    Expanding::Lowering { rest: integer, digits: Vec::new(), scale },
                    Operation::Whole(WholeOperation::Quotient, place, base.clone()),
                ),
            }
        },
        (Expanding::Lowering { rest, digits, scale }, Reply::Number(place)) => {
            let divisor = place.clone();
            Expanded::Ask(
                Expanding::Peeling { place, digits, scale },
                Operation::WholeEuclid(rest, divisor),
            )
        },
        (Expanding::Peeling { place, digits, scale }, Reply::Pair(digit, rest)) => {
            match digit.magnitude() {
                Some(v) => {
                    let ghost before = digits@;
                    let mut digits = digits;
                    append_chars(&mut digits, &write_decimal(v));
                    digits.push(' ');
                    assert(digits@ =~= before + decimal(v as nat) + seq![' ']);
                    after_digit(base, rest, place, digits, scale)
                },
                None => {
                    let mut numbers: Vec<Number> = Vec::new();
                    numbers.push(digit);
                    assert(numbers@ =~= seq![digit]);
                    Expanded::Ask(
                        Expanding::Naming { rest, place, digits, scale },
                        Operation::Describe(numbers),
                    )
                },
            }
        },
        (Expanding::Naming { rest, place, digits, scale }, Reply::Texts(texts)) => {
            if texts.len() == 1 {
                let ghost before = digits@;
                let mut digits = digits;
                append(&mut digits, texts[0].as_str());
                digits.push(' ');
                assert(digits@ =~= before + texts@[0]@ + seq![' ']);
                after_digit(base, rest, place, digits, scale)
            } else {
                Expanded::Unusable
            }
        },
        _ => Expanded::Unusable,
    }
}

} // verus!
