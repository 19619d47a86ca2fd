use crate::commands::arithmetic::replaced;
use crate::commands::notation::{
    asks_digits, float_to_string, own_precision, precision_of, ready_text, Rendering,
};
use crate::commands::{operands1, passes, popped, push, stopped};
use crate::handler::{Handler, StackObject, Value};
use crate::number::Number;
use crate::service::{
    Affixed, AffixedView, BinaryOperation, Operation, Outcome, Pending, Reply, UnaryOperation,
};
use crate::text::{chars_of, compose, is_decimal_digit, is_digit, owned, slice_chars, string_of};
use vstd::prelude::*;

verus! {

/// How often `c` occurs in `s`.
pub open spec fn count(s: Seq<char>, c: char) -> nat
    decreases s.len(),
{
    if s.len() == 0 {
        0
    } else if s.last() == c {
        count(s.drop_last(), c) + 1
    } else {
        count(s.drop_last(), c)
    }
}

/// The index of the first `c` in `s`; the length of `s` where there is
/// none.
pub open spec fn first_index(s: Seq<char>, c: char) -> nat
    decreases s.len(),
{
    if s.len() == 0 || s[0] == c {
        0
    } else {
        first_index(s.drop_first(), c) + 1
    }
}

/// Whether `c` can stand in a scale: a digit or a minus sign.
pub open spec fn is_scale_char(c: char) -> bool {
    is_digit(c) || c == '-'
}

/// How many characters at the start of `s` can stand in a scale.
pub open spec fn lead(s: Seq<char>) -> nat
    decreases s.len(),
{
    if s.len() > 0 && is_scale_char(s[0]) {
        lead(s.drop_first()) + 1
    } else {
        0
    }
}

/// How many characters at the end of `s` are digits.
pub open spec fn trail(s: Seq<char>) -> nat
    decreases s.len(),
{
    if s.len() > 0 && is_digit(s.last()) {
        trail(s.drop_last()) + 1
    } else {
        0
    }
}

/// A name with the scale before it and the power behind it: the scale is
/// what digits and minus signs the text begins with, or zero; the power is
/// what digits the rest ends with, or one.
pub open spec fn affixes(s: Seq<char>) -> AffixedView {
    let rest = s.skip(lead(s) as int);
    let p = trail(rest);
    AffixedView {
        name: rest.take(rest.len() - p),
        scale: if lead(s) == 0 {
            "0"@
        } else {
            s.take(lead(s) as int)
        },
        power: if p == 0 {
            "1"@
        } else {
            rest.skip(rest.len() - p)
        },
    }
}

/// Whether all of `s` are digits.
pub open spec fn all_digits(s: Seq<char>) -> bool {
    forall|i: int| 0 <= i < s.len() ==> is_digit(#[trigger] s[i])
}

/// Whether a scale is a whole number: digits, with or without a minus sign
/// before them.
pub open spec fn well_scaled(scale: Seq<char>) -> bool {
    if scale.len() > 0 && scale[0] == '-' {
        scale.len() > 1 && all_digits(scale.skip(1))
    } else {
        scale.len() > 0 && all_digits(scale.skip(0))
    }
}

/// Whether the characters from index `from` on are digits.
pub fn are_digits(s: &Vec<char>, from: usize) -> (r: bool)
    requires
        from <= s@.len(),
    ensures
        r == all_digits(s@.skip(from as int)),
{
    let mut i: usize = from;
    while i < s.len()
        invariant
            from <= i <= s@.len(),
            forall|k: int| 0 <= k < i - from ==> is_digit(#[trigger] s@.skip(from as int)[k]),
        decreases s@.len() - i,
    {
        if !is_decimal_digit(s[i]) {
            assert(!is_digit(s@.skip(from as int)[i - from]));
            return false;
        }
        i = i + 1;
    }
    true
}

/// Whether a scale is a whole number.
pub fn is_well_scaled(scale: &Vec<char>) -> (r: bool)
    ensures
        r == well_scaled(scale@),
{
    if scale.len() > 0 && scale[0] == '-' {
        scale.len() > 1 && are_digits(scale, 1)
    } else {
        scale.len() > 0 && are_digits(scale, 0)
    }
}

/// How many characters at the start can stand in a scale.
pub fn count_lead(text: &Vec<char>) -> (r: usize)
    ensures
        r == lead(text@),
        r <= text@.len(),
{
    let mut from: usize = 0;
    assert(text@.skip(0) =~= text@);
    while from < text.len() && (is_decimal_digit(text[from]) || text[from] == '-')
        invariant
            from <= text@.len(),
            lead(text@) == from + lead(text@.skip(from as int)),
        decreases text@.len() - from,
    {
        assert(text@.skip(from as int).drop_first() =~= text@.skip(from + 1));
        from = from + 1;
    }
    from
}

/// How many characters at the end are digits.
pub fn count_trail(text: &Vec<char>) -> (r: usize)
    ensures
        r == trail(text@),
        r <= text@.len(),
{
    let mut to: usize = text.len();
    assert(text@.take(to as int) =~= text@);
    while to > 0 && is_decimal_digit(text[to - 1])
        invariant
            to <= text@.len(),
            trail(text@) == text@.len() - to + trail(text@.take(to as int)),
        decreases to,
    {
        assert(text@.take(to as int).drop_last() =~= text@.take(to - 1));
        to = to - 1;
    }
    text.len() - to
}

/// Takes a text apart into name, scale and power.
pub fn parse_affixes(text: &Vec<char>) -> (r: Affixed)
    ensures
        r@ == affixes(text@),
{
    let from = count_lead(text);
    let rest = slice_chars(text, from, text.len());
    assert(rest@ =~= text@.skip(from as int));
    let behind = count_trail(&rest);
    let to = rest.len() - behind;
    let name = slice_chars(&rest, 0, to);
    assert(name@ =~= rest@.take(to as int));
    let scale = if from == 0 {
        owned("0")
    } else {
        let s = slice_chars(text, 0, from);
        assert(s@ =~= text@.take(from as int));
        string_of(&s)
    };
    let power = if behind == 0 {
        owned("1")
    } else {
        let p = slice_chars(&rest, to, rest.len());
        assert(p@ =~= rest@.skip(to as int));
        string_of(&p)
    };
    Affixed { name: string_of(&name), scale, power }
}

/// What is said of a scale that is no whole number.
pub open spec fn bad_scale_message(scale: Seq<char>) -> Seq<char> {
    "! Invalid scale \""@ + scale + "\" in constant lookup"@
}

/// What is said of a name that names no constant.
pub open spec fn unknown_message(name: Seq<char>) -> Seq<char> {
    "! Constant/conversion factor \""@ + name + "\" doesn't exist"@
}

/// What is said of a text with more than one blank.
pub open spec fn too_many_message(text: Seq<char>) -> Seq<char> {
    "! Too many spaces in constant lookup/unit conversion string \""@ + text + "\""@
}

/// What looking up the text `s` begins with: without a blank, the constant
/// that it names is asked for; with one blank, the constant before it, to be
/// divided by the one behind it. A scale that is no whole number and more
/// than one blank are failures.
pub open spec fn looked_up(s: Seq<char>, precision: u32, r: Outcome) -> bool {
    if count(s, ' ') >= 2 {
        r.failed(too_many_message(s))
    } else if count(s, ' ') == 0 {
        if !well_scaled(affixes(s).scale) {
            r.failed(bad_scale_message(affixes(s).scale))
        } else {
            &&& r.output@.len() == 0
            &&& r.ask matches Some(ask)
            &&& ask.request.precision == precision
            &&& ask.request.operation matches Operation::Named(name)
            &&& name@ == affixes(s).name
            &&& ask.pending matches Pending::Constant { wanted, state, then }
            &&& wanted@ == affixes(s)
            &&& state is Named
            &&& then is Push
        }
    } else {
        let from = affixes(s.take(first_index(s, ' ') as int));
        let to = affixes(s.skip(first_index(s, ' ') as int + 1));
        if !well_scaled(from.scale) {
            r.failed(bad_scale_message(from.scale))
        } else if !well_scaled(to.scale) {
            r.failed(bad_scale_message(to.scale))
        } else {
            &&& r.output@.len() == 0
            &&& r.ask matches Some(ask)
            &&& ask.request.precision == precision
            &&& ask.request.operation matches Operation::Named(name)
            &&& name@ == from.name
            &&& ask.pending matches Pending::Constant { wanted, state, then }
            &&& wanted@ == from
            &&& state is Named
            &&& then matches Then::Convert { to: next }
            &&& next@ == to
        }
    }
}

fn bad_scale(scale: &String) -> (r: Outcome)
    ensures
        r.failed(bad_scale_message(scale@)),
{
    Outcome::failure(compose("! Invalid scale \"", &chars_of(scale.as_str()), "\" in constant lookup"))
}

fn look_up(text: &Vec<char>, precision: u32) -> (r: Outcome)
    ensures
        looked_up(text@, precision, r),
{
    let mut blanks: usize = 0;
    let mut first: usize = text.len();
    let mut i: usize = 0;
    assert(text@.take(0) =~= Seq::<char>::empty());
    assert(text@.skip(0) =~= text@);
    while i < text.len()
        invariant
            i <= text@.len(),
            blanks <= i,
            blanks == count(text@.take(i as int), ' '),
            blanks == 0 ==> first == text@.len() && first_index(text@, ' ') == i + first_index(
                text@.skip(i as int),
                ' ',
            ),
            blanks > 0 ==> first == first_index(text@, ' ') && first < i,
        decreases text@.len() - i,
    {
        assert(text@.take(i + 1).drop_last() =~= text@.take(i as int));
        assert(text@.skip(i as int).drop_first() =~= text@.skip(i + 1));
        if text[i] == ' ' {
            if blanks == 0 {
                first = i;
            }
            blanks = blanks + 1;
        }
        i = i + 1;
    }
    assert(text@.take(i as int) =~= text@);
    if blanks >= 2 {
        return Outcome::failure(
            compose("! Too many spaces in constant lookup/unit conversion string \"", text, "\""),
        );
    }
    if blanks == 0 {
        let wanted = parse_affixes(text);
        if !is_well_scaled(&chars_of(wanted.scale.as_str())) {
            return bad_scale(&wanted.scale);
        }
        let name = wanted.name.clone();
        return Outcome::request(
            precision,
            Operation::Named(name),
            Pending::Constant { wanted, state: Affixing::Named, then: Then::Push },
        );
    }
    let before = slice_chars(text, 0, first);
    let behind = slice_chars(text, first + 1, text.len());
    assert(before@ =~= text@.take(first as int));
    assert(behind@ =~= text@.skip(first + 1));
    let from = parse_affixes(&before);
    let to = parse_affixes(&behind);
    if !is_well_scaled(&chars_of(from.scale.as_str())) {
        return bad_scale(&from.scale);
    }
    if !is_well_scaled(&chars_of(to.scale.as_str())) {
        return bad_scale(&to.scale);
    }
    let name = from.name.clone();
    Outcome::request(
        precision,
        Operation::Named(name),
        Pending::Constant { wanted: from, state: Affixing::Named, then: Then::Convert { to } },
    )
}

/// What `"` does: a text is looked up as a constant or as a conversion
/// from one unit to another; a number gives way to its notation as a text,
/// for which the service is asked where digits have to be worked out.
pub open spec fn lookup_post(pre: Handler, post: Handler, command: char, r: Outcome) -> bool {
    if !passes(command, pre.main_stack@, 1) {
        stopped(pre, post, command, 1, r)
    } else {
        match pre.main_stack@.last() {
            StackObject::String(s) => popped(pre, post, 1) && looked_up(
                s@,
                pre.working_precision,
                r,
            ),
            StackObject::Float(a) => match ready_text(
                a@.class,
                pre.context().output_base@.integer(),
            ) {
                Some(text) => replaced(pre, post, 1, Value::String(text)) && r.silent(),
                None => {
                    &&& popped(pre, post, 1)
                    &&& r.output@.len() == 0
                    &&& r.ask matches Some(ask)
                    &&& ask.request.precision == own_precision(a@)
                    &&& ask.pending matches Pending::Spell { number, stage }
                    &&& asks_digits(
                        ask.request.operation,
                        stage,
                        a@,
                        pre.context().output_base@,
                        pre.context().output_precision@,
                    )
                    &&& number@ == a@
                },
            },
        }
    }
}

/// Looks up a constant or spells a number.
pub fn lookup(handler: &mut Handler, command: char) -> (r: Outcome)
    requires
        old(handler).wf(),
        command == '"',
    ensures
        final(handler).wf(),
        lookup_post(*old(handler), *final(handler), command, r),
{
    match operands1(handler, command) {
        Err(stop) => stop,
        Ok(a) => match a {
            StackObject::String(s) => look_up(&chars_of(s.as_str()), handler.working_precision),
            StackObject::Float(x) => {
                let n = handler.parameter_stack.len();
                let rendering = float_to_string(
                    &x,
                    &handler.parameter_stack[n - 1].output_base,
                    &handler.parameter_stack[n - 1].output_precision,
                );
                match rendering {
                    Rendering::Text(t) => {
                        push(handler, StackObject::String(t));
                        Outcome::nothing()
                    },
                    Rendering::Ask(operation, stage) => {
                        let precision = precision_of(&x);
                        Outcome::request(precision, operation, Pending::Spell { number: x, stage })
                    },
                }
            },
        },
    }
}

/// The failure that names a constant which there is not.
pub fn unknown(name: &String) -> (r: Outcome)
    ensures
        r.failed(unknown_message(name@)),
{
    Outcome::failure(
        compose("! Constant/conversion factor \"", &chars_of(name.as_str()), "\" doesn't exist"),
    )
}

/// How far the value of a constant with its affixes is worked out, and
/// what answer is awaited.
#[derive(Debug)]
pub enum Affixing {
    /// The constant is awaited.
    Named,
    /// The scale as a number is awaited.
    Scale { constant: Number },
    /// Ten to the power of the scale is awaited.
    Tens { constant: Number },
    /// The constant times that power of ten is awaited.
    Scaled,
    /// The power as a whole number is awaited.
    Power { value: Number },
    /// The scaled constant to that power is awaited.
    Raised,
}

/// What is to be done with the value of a constant.
#[derive(Debug)]
pub enum Then {
    /// Put it on the main stack.
    Push,
    /// Look up `to`, to divide it by.
    Convert { to: Affixed },
    /// Divide `from` by it.
    Divide { from: Number },
}

/// `r` asks for `operation` at the working precision and goes on with the
/// constant `wanted` in `state`.
pub open spec fn affixing(
    pre: Handler,
    post: Handler,
    r: Outcome,
    operation: Operation,
    wanted: Affixed,
    state: Affixing,
    then: Then,
) -> bool {
    post == pre && r.asked(
        pre.working_precision,
        operation,
        Pending::Constant { wanted, state, then },
    )
}

/// What is done with the value of a constant once it is worked out.
pub open spec fn constant_found(pre: Handler, post: Handler, then: Then, value: Number, r: Outcome) -> bool {
    match then {
        Then::Push => crate::commands::pushed(pre, post, StackObject::Float(value)) && r.silent(),
        Then::Convert { to } => {
            &&& post == pre
            &&& r.output@.len() == 0
            &&& r.ask matches Some(ask)
            &&& ask.request.precision == pre.working_precision
            &&& ask.request.operation matches Operation::Named(name)
            &&& name@ == to.name@
            &&& ask.pending == (Pending::Constant {
                wanted: to,
                state: Affixing::Named,
                then: Then::Divide { from: value },
            })
        },
        Then::Divide { from } => post == pre && r.asked(
            pre.working_precision,
            Operation::Binary(BinaryOperation::Divide, from, value),
            Pending::Push,
        ),
    }
}

/// What an answer does to the value of a constant with its affixes: the
/// constant is multiplied by ten to the power of the scale, and the product
/// is raised to the power; both are whole numbers. A name that names no
/// constant is a failure.
pub open spec fn affix_post(
    pre: Handler,
    post: Handler,
    wanted: Affixed,
    state: Affixing,
    then: Then,
    reply: Reply,
    r: Outcome,
) -> bool {
    match (state, reply) {
        (Affixing::Named, Reply::Number(constant)) => {
            &&& post == pre
            &&& r.output@.len() == 0
            &&& r.ask matches Some(ask)
            &&& ask.request.precision == pre.working_precision
            &&& ask.request.operation matches Operation::Parse { text, radix }
            &&& text@ == wanted.scale@
            &&& radix == 10
            &&& ask.pending == (Pending::Constant {
                wanted,
                state: Affixing::Scale { constant },
                then,
            })
        },
        (Affixing::Named, Reply::Missing) => post == pre && r.failed(
            unknown_message(wanted.name@),
        ),
        (Affixing::Scale { constant }, Reply::Number(scale)) => affixing(
            pre,
            post,
            r,
            Operation::Unary(UnaryOperation::TenTo, scale),
            wanted,
            Affixing::Tens { constant },
            then,
        ),
        (Affixing::Scale { constant }, Reply::Rejected(reason)) => post == pre && r.failed(
            bad_scale_message(wanted.scale@),
        ),
        (Affixing::Tens { constant }, Reply::Number(tens)) => affixing(
            pre,
            post,
            r,
            Operation::Binary(BinaryOperation::Multiply, constant, tens),
            wanted,
            Affixing::Scaled,
            then,
        ),
        (Affixing::Scaled, Reply::Number(value)) => {
            &&& post == pre
            &&& r.output@.len() == 0
            &&& r.ask matches Some(ask)
            &&& ask.request.precision == pre.working_precision
            &&& ask.request.operation matches Operation::Numeral(text)
            &&& text@ == wanted.power@
            &&& ask.pending == (Pending::Constant {
                wanted,
                state: Affixing::Power { value },
                then,
            })
        },
        (Affixing::Power { value }, Reply::Number(power)) => affixing(
            pre,
            post,
            r,
            Operation::Binary(BinaryOperation::Raise, value, power),
            wanted,
            Affixing::Raised,
            then,
        ),
        (Affixing::Raised, Reply::Number(value)) => constant_found(pre, post, then, value, r),
        _ => post == pre && r.failed(crate::commands::printing::unusable_message()),
    }
}

/// Takes an answer to the value of a constant with its affixes.
pub fn affix(
    handler: &mut Handler,
    wanted: Affixed,
    state: Affixing,
    then: Then,
    reply: Reply,
) -> (r: Outcome)
    ensures
        affix_post(*old(handler), *final(handler), wanted, state, then, reply, r),
{
    let precision = handler.working_precision;
    match (state, reply) {
        (Affixing::Named, Reply::Number(constant)) => {
            let text = wanted.scale.clone();
            Outcome::request(
                precision,
                Operation::Parse { text, radix: 10 },
                Pending::Constant { wanted, state: Affixing::Scale { constant }, then },
            )
        },
        (Affixing::Named, Reply::Missing) => unknown(&wanted.name),
        (Affixing::Scale { constant }, Reply::Number(scale)) => Outcome::request(
            precision,
            Operation::Unary(UnaryOperation::TenTo, scale),
            Pending::Constant { wanted, state: Affixing::Tens { constant }, then },
        ),
        (Affixing::Scale { constant }, Reply::Rejected(reason)) => bad_scale(&wanted.scale),
        (Affixing::Tens { constant }, Reply::Number(tens)) => Outcome::request(
            precision,
            Operation::Binary(BinaryOperation::Multiply, constant, tens),
            Pending::Constant { wanted, state: Affixing::Scaled, then },
        ),
        (Affixing::Scaled, Reply::Number(value)) => {
            let text = wanted.power.clone();
            Outcome::request(
                precision,
                Operation::Numeral(text),
                Pending::Constant { wanted, state: Affixing::Power { value }, then },
            )
        },
        (Affixing::Power { value }, Reply::Number(power)) => Outcome::request(
            precision,
            Operation::Binary(BinaryOperation::Raise, value, power),
            Pending::Constant { wanted, state: Affixing::Raised, then },
        ),
        (Affixing::Raised, Reply::Number(value)) => match then {
            Then::Push => {
                handler.main_stack.push(StackObject::Float(value));
                Outcome::nothing()
            },
            Then::Convert { to } => {
                let name = to.name.clone();
                Outcome::request(
                    precision,
                    Operation::Named(name),
                    Pending::Constant {
                        wanted: to,
                        state: Affixing::Named,
                        then: Then::Divide { from: value },
                    },
                )
            },
            Then::Divide { from } => Outcome::request(
                precision,
                Operation::Binary(BinaryOperation::Divide, from, value),
                Pending::Push,
            ),
        },
        _ => Outcome::failure(owned("! The arithmetic service gave no usable answer")),
    }
}

} // verus!
