use crate::commands::expansion::{is_binary, is_whole, make_one, one};
use crate::commands::object_input::Groups;
use crate::commands::printing::unusable_message;
use crate::handler::Handler;
use crate::number::{zero_view, Number, NumberView};
use crate::service::{Ask, BinaryOperation, Operation, Outcome, Pending, Reply, Request, WholeOperation};
use crate::text::{owned, slice_chars, string_of};
use vstd::prelude::*;

verus! {

/// How far the value of a number in any base is worked out, and what
/// answer is awaited.
#[derive(Debug)]
pub enum Accumulating {
    /// The value so far times the base is awaited, for the group that
    /// begins at index `from` of the digits.
    Times { from: usize },
    /// That group as a number is awaited.
    Digit { from: usize, product: Number },
    /// The product plus the group is awaited; the next group begins at
    /// index `from`.
    Plus { from: usize },
    /// The value of all groups, with its sign and rounded to the working
    /// precision, is awaited.
    Rounded,
    /// The divisor is raised: its product with the base is awaited, and is
    /// to be raised `left` times more.
    Scaling { value: Number, left: usize },
    /// The value over the divisor is awaited.
    Scaled,
    /// The base at the working precision is awaited.
    Based { value: Number },
    /// The exponent as a whole number is awaited.
    Exponent { value: Number, base: Number },
    /// The base to the power of the exponent is awaited.
    Raised { value: Number },
}

/// Where the group ends that begins at index `from`: at the next blank, or
/// at the end of the digits.
pub open spec fn group_end(d: Seq<char>, from: int) -> int
    decreases d.len() - from,
{
    if from < 0 || from >= d.len() {
        d.len() as int
    } else if d[from] == ' ' {
        from
    } else {
        group_end(d, from + 1)
    }
}

/// The group that begins at index `from`.
pub open spec fn group_from(d: Seq<char>, from: int) -> Seq<char> {
    d.subrange(from, group_end(d, from))
}

/// Where the group begins that follows the one at index `from`.
pub open spec fn next_group(d: Seq<char>, from: int) -> int {
    if group_end(d, from) < d.len() {
        group_end(d, from) + 1
    } else {
        d.len() as int
    }
}

/// The whole number that the groups from index `from` on make of the value
/// so far: each group in its order turns the value into the value times
/// the base plus the group.
pub open spec fn positional(d: Seq<char>, from: int, so_far: int, base: int) -> int
    decreases d.len() - from,
{
    if from < 0 || from >= d.len() {
        so_far
    } else if group_end(d, from) < from {
        so_far
    } else {
        positional(
            d,
            next_group(d, from),
            so_far * base + crate::text::decimal_value(group_from(d, from)),
            base,
        )
    }
}

/// The group that begins at index `from`, and where the next one begins.
pub fn take_group(digits: &Vec<char>, from: usize) -> (r: (Vec<char>, usize))
    requires
        from < digits@.len(),
    ensures
        r.0@ == group_from(digits@, from as int),
        r.1 == next_group(digits@, from as int),
        from < r.1 <= digits@.len() || (r.1 == from + 1),
        r.1 > from,
{
    let mut end: usize = from;
    while end < digits.len() && digits[end] != ' '
        invariant
            from <= end <= digits@.len(),
            group_end(digits@, from as int) == group_end(digits@, end as int),
        decreases digits@.len() - end,
    {
        end = end + 1;
    }
    let text = slice_chars(digits, from, end);
    let next = if end < digits.len() {
        end + 1
    } else {
        end
    };
    (text, next)
}

/// `r` asks `op`-wise at the working precision and goes on accumulating
/// `groups`.
pub open spec fn accumulating(r: Outcome, handler: Handler, groups: Groups) -> bool {
    &&& r.output@.len() == 0
    &&& r.ask matches Some(ask)
    &&& ask.request.precision == handler.working_precision
    &&& ask.pending matches Pending::Accumulate { groups: kept, state }
    &&& kept == groups
}

/// The operation that `r` asks for.
pub open spec fn asked(r: Outcome) -> Operation {
    r.ask->0.request.operation
}

/// The state that `r` goes on in.
pub open spec fn state_of(r: Outcome) -> Accumulating {
    match r.ask->0.pending {
        Pending::Accumulate { groups, state } => state,
        _ => Accumulating::Scaled,
    }
}

/// The value with the sign of the number.
pub open spec fn signed(value: NumberView, negative: bool) -> NumberView {
    NumberView { negative, ..value }
}

/// The exponent to raise the base to: zero where none is written.
pub open spec fn exponent_of(groups: Groups) -> Seq<char> {
    if groups.exponent@.len() == 0 {
        "0"@
    } else {
        groups.exponent@
    }
}

/// What is asked once the value so far is known and the next group begins
/// at index `from`: its product with the base, for the next group; after
/// the last group, the value with its sign, rounded to the working
/// precision.
pub open spec fn group_added(
    handler: Handler,
    groups: Groups,
    value: NumberView,
    from: usize,
    r: Outcome,
) -> bool {
    &&& accumulating(r, handler, groups)
    &&& if from < groups.digits@.len() {
        &&& is_whole(asked(r), WholeOperation::Product, value, handler.context().input_base@)
        &&& state_of(r) matches Accumulating::Times { from: f }
        &&& f == from
    } else {
        &&& asked(r) matches Operation::Integer(x)
        &&& x@ == signed(value, groups.negative)
        &&& state_of(r) is Rounded
    }
}

fn ask(handler: &Handler, groups: Groups, operation: Operation, state: Accumulating) -> (r: Outcome)
    ensures
        accumulating(r, *handler, groups),
        asked(r) == operation,
        state_of(r) == state,
{
    Outcome {
        output: Vec::new(),
        ask: Some(
            Ask {
                request: Request { precision: handler.working_precision, operation },
                pending: Pending::Accumulate { groups, state },
            },
        ),
    }
}

fn base_of(handler: &Handler) -> (r: Number)
    requires
        handler.wf(),
    ensures
        r@ == handler.context().input_base@,
{
    let n = handler.parameter_stack.len();
    handler.parameter_stack[n - 1].input_base.clone()
}

fn add_group(handler: &Handler, groups: Groups, value: Number, from: usize) -> (r: Outcome)
    requires
        handler.wf(),
    ensures
        group_added(*handler, groups, value@, from, r),
{
    if from < groups.digits.len() {
        let operation = Operation::Whole(WholeOperation::Product, value, base_of(handler));
        ask(handler, groups, operation, Accumulating::Times { from })
    } else {
        let signed = Number {
            class: value.class,
            negative: groups.negative,
            mantissa: value.mantissa,
            exponent: value.exponent,
            precision: value.precision,
        };
        ask(handler, groups, Operation::Integer(signed), Accumulating::Rounded)
    }
}

/// What working out the value of a number in any base begins with: the
/// value so far is zero.
pub open spec fn accumulation_begun(handler: Handler, groups: Groups, r: Outcome) -> bool {
    group_added(handler, groups, zero_view(handler.working_precision as nat), 0, r)
}

/// Begins to work out the value of a number in any base.
pub fn begin_accumulation(handler: &Handler, groups: Groups) -> (r: Outcome)
    requires
        handler.wf(),
    ensures
        accumulation_begun(*handler, groups, r),
{
    add_group(handler, groups, Number::zero(handler.working_precision), 0)
}

/// What is asked once the divisor so far is known and is to be raised
/// `left` times more: its product with the base, or, where it is raised
/// enough, the value over it.
pub open spec fn divisor_raised(
    handler: Handler,
    groups: Groups,
    value: Number,
    divisor: NumberView,
    left: usize,
    r: Outcome,
) -> bool {
    &&& accumulating(r, handler, groups)
    &&& if left > 0 {
        &&& is_whole(asked(r), WholeOperation::Product, divisor, handler.context().input_base@)
        &&& state_of(r) matches Accumulating::Scaling { value: kept, left: l }
        &&& kept == value
        &&& l == left - 1
    } else {
        &&& is_binary(asked(r), BinaryOperation::Shrink, value@, divisor)
        &&& state_of(r) is Scaled
    }
}

fn raise_divisor(handler: &Handler, groups: Groups, value: Number, divisor: Number, left: usize) -> (r:
    Outcome)
    requires
        handler.wf(),
    ensures
        divisor_raised(*handler, groups, value, divisor@, left, r),
{
    if left > 0 {
        let operation = Operation::Whole(WholeOperation::Product, divisor, base_of(handler));
        ask(handler, groups, operation, Accumulating::Scaling { value, left: left - 1 })
    } else {
        let operation = Operation::Binary(BinaryOperation::Shrink, value, divisor);
        ask(handler, groups, operation, Accumulating::Scaled)
    }
}

/// What an answer does to the value of a number in any base.
///
/// For each group in its order the value so far is multiplied by the base
/// and the group is added, all exactly. The sum takes the sign of the
/// number and is rounded to the working precision. It is divided by the
/// base raised to as many as there are groups behind the separator, and
/// multiplied by the base to the power of the exponent; that product goes on
/// the main stack.
pub open spec fn accumulate_post(
    handler: Handler,
    groups: Groups,
    state: Accumulating,
    reply: Reply,
    r: Outcome,
) -> bool {
    match (state, reply) {
        (Accumulating::Times { from }, Reply::Number(product)) => if from < groups.digits@.len() {
            &&& accumulating(r, handler, groups)
            &&& asked(r) matches Operation::Numeral(text)
            &&& text@ == group_from(groups.digits@, from as int)
            &&& state_of(r) == (Accumulating::Digit { from, product })
        } else {
            r.failed(unusable_message())
        },
        (Accumulating::Digit { from, product }, Reply::Number(group)) => if from
            < groups.digits@.len() {
            &&& accumulating(r, handler, groups)
            &&& asked(r) == Operation::Whole(WholeOperation::Sum, product, group)
            &&& state_of(r) matches Accumulating::Plus { from: next }
            &&& next == next_group(groups.digits@, from as int)
        } else {
            r.failed(unusable_message())
        },
        (Accumulating::Plus { from }, Reply::Number(value)) => group_added(
            handler,
            groups,
            value@,
            from,
            r,
        ),
        (Accumulating::Rounded, Reply::Number(value)) => exists|unit: Number| #[trigger]
            divisor_raised(handler, groups, value, unit@, groups.fraction, r) && unit@ == one(),
        (Accumulating::Scaling { value, left }, Reply::Number(divisor)) => divisor_raised(
            handler,
            groups,
            value,
            divisor@,
            left,
            r,
        ),
        (Accumulating::Scaled, Reply::Number(value)) => {
            &&& accumulating(r, handler, groups)
            &&& asked(r) matches Operation::Integer(base)
            &&& base@ == handler.context().input_base@
            &&& state_of(r) == (Accumulating::Based { value })
        },
        (Accumulating::Based { value }, Reply::Number(base)) => {
            &&& accumulating(r, handler, groups)
            &&& asked(r) matches Operation::Numeral(text)
            &&& text@ == exponent_of(groups)
            &&& state_of(r) == (Accumulating::Exponent { value, base })
        },
        (Accumulating::Exponent { value, base }, Reply::Number(exponent)) => {
            &&& accumulating(r, handler, groups)
            &&& asked(r) == Operation::Binary(BinaryOperation::Raise, base, exponent)
            &&& state_of(r) == (Accumulating::Raised { value })
        },
        (Accumulating::Raised { value }, Reply::Number(power)) => r.asked(
            handler.working_precision,
            Operation::Binary(BinaryOperation::Multiply, value, power),
            Pending::Push,
        ),
        _ => r.failed(unusable_message()),
    }
}

fn unusable() -> (r: Outcome)
    ensures
        r.failed(unusable_message()),
{
    Outcome::failure(owned("! The arithmetic service gave no usable answer"))
}

/// Takes an answer to the value of a number in any base, and asks the next
/// question.
pub fn accumulate(handler: &Handler, groups: Groups, state: Accumulating, reply: Reply) -> (r:
    Outcome)
    requires
        handler.wf(),
    ensures
        accumulate_post(*handler, groups, state, reply, r),
{
    match (state, reply) {
        (Accumulating::Times { from }, Reply::Number(product)) => {
            if from < groups.digits.len() {
                let (text, _) = take_group(&groups.digits, from);
                let operation = Operation::Numeral(string_of(&text));
                ask(handler, groups, operation, Accumulating::Digit { from, product })
            } else {
                unusable()
            }
        },
        (Accumulating::Digit { from, product }, Reply::Number(group)) => {
            if from < groups.digits.len() {
                let (_, next) = take_group(&groups.digits, from);
                let operation = Operation::Whole(WholeOperation::Sum, product, group);
                ask(handler, groups, operation, Accumulating::Plus { from: next })
            } else {
                unusable()
            }
        },
        (Accumulating::Plus { from }, Reply::Number(value)) => add_group(
            handler,
            groups,
            value,
            from,
        ),
        (Accumulating::Rounded, Reply::Number(value)) => {
            let left = groups.fraction;
            let unit = make_one();
            let r = raise_divisor(handler, groups, value, unit, left);
            assert(divisor_raised(*handler, groups, value, unit@, groups.fraction, r));
            r
        },
        (Accumulating::Scaling { value, left }, Reply::Number(divisor)) => raise_divisor(
            handler,
            groups,
            value,
            divisor,
            left,
        ),
        (Accumulating::Scaled, Reply::Number(value)) => {
            let operation = Operation::Integer(base_of(handler));
            ask(handler, groups, operation, Accumulating::Based { value })
        },
        (Accumulating::Based { value }, Reply::Number(base)) => {
            let text = if groups.exponent.len() == 0 {
                owned("0")
            } else {
                string_of(&groups.exponent)
            };
            ask(handler, groups, Operation::Numeral(text), Accumulating::Exponent { value, base })
        },
        (Accumulating::Exponent { value, base }, Reply::Number(exponent)) => {
            let operation = Operation::Binary(BinaryOperation::Raise, base, exponent);
            ask(handler, groups, operation, Accumulating::Raised { value })
        },
        (Accumulating::Raised { value }, Reply::Number(power)) => Outcome::request(
            handler.working_precision,
            Operation::Binary(BinaryOperation::Multiply, value, power),
            Pending::Push,
        ),
        _ => unusable(),
    }
}

} // verus!
