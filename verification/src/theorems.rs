use crate::commands::accumulation::{
    accumulate_post, asked, group_added, group_end, group_from, next_group, positional, signed,
    state_of,
};
use crate::commands::engine::{settled, step_post, Execution, Progress};
use crate::commands::expansion::is_whole;
use crate::commands::object_input::Groups;
use crate::commands::macros::{after_call, frame_views};
use crate::commands::register::{no_selector, not_available_message, selected};
use crate::commands::environment::{parameter_of, Parameter};
use crate::commands::{passes, run_command_post};
use crate::handler::{Handler, Output, StackObject, REGISTER_COUNT};
use crate::number::{Number, NumberView};
use crate::service::{Operation, Outcome, Pending, Reply, WholeOperation};
use crate::text::decimal_value;
use vstd::prelude::*;

verus! {

/// The opcodes that take no operand and do not need one to be there.
pub open spec fn takes_nothing(command: char) -> bool {
    command == 'c' || command == 'z' || command == 'p' || command == 'f' || command == 'K'
        || command == 'I' || command == 'O' || command == 'W' || command == '{' || command == '}'
        || command == 'q' || command == '!'
}

/// An opcode that takes no operand does not fail on an empty main stack
/// and leaves it empty; the one that counts the values on it asks the
/// service to make zero a number, to go on the stack.
pub proof fn nothing_taken_from_empty_stack(
    pre: Handler,
    post: Handler,
    frames_pre: Seq<Vec<char>>,
    frames_post: Seq<Vec<char>>,
    command: char,
    flag_pre: bool,
    flag_post: bool,
    r: Outcome,
)
    requires
        pre.wf(),
        pre.main_stack@.len() == 0,
        takes_nothing(command),
        run_command_post(pre, post, frames_pre, frames_post, command, flag_pre, flag_post, r),
    ensures
        forall|i: int| 0 <= i < r.output@.len() ==> #[trigger] r.output@[i] is Ok,
        post.main_stack@.len() == 0,
        frames_post == frames_pre,
        command == 'z' ==> r.asked(pre.working_precision, Operation::Unsigned(0), Pending::Push),
        command == 'c' ==> r.silent(),
{
    if command == 'f' {
        assert(crate::commands::printing::stack_lines(pre.main_stack@).len() == 0);
    }
}

/// After `{` or `}` there is a context in force, and after a `}` that
/// leaves none of the old ones it has the parameters that a session starts
/// with.
pub proof fn a_context_stays_in_force(
    pre: Handler,
    post: Handler,
    frames_pre: Seq<Vec<char>>,
    frames_post: Seq<Vec<char>>,
    command: char,
    flag_pre: bool,
    flag_post: bool,
    r: Outcome,
)
    requires
        pre.wf(),
        command == '{' || command == '}',
        run_command_post(pre, post, frames_pre, frames_post, command, flag_pre, flag_post, r),
    ensures
        post.parameter_stack@.len() >= 1,
        command == '{' ==> post.parameter_stack@.len() == pre.parameter_stack@.len() + 1,
        command == '}' && pre.parameter_stack@.len() >= 2 ==> post.parameter_stack@.len()
            == pre.parameter_stack@.len() - 1,
        command == '}' && pre.parameter_stack@.len() == 1 ==> post.parameter_stack@.len() == 1
            && post.context().is_default(),
        r.silent(),
{
}

/// The opcodes that address a register by a selector.
pub open spec fn addresses_register(command: char) -> bool {
    command == 's' || command == 'S' || command == 'l' || command == 'L' || command == ':'
        || command == ';' || command == 'j' || command == 'J' || command == 'h' || command == 'H'
        || command == 'Z' || command == 'F' || command == '<' || command == '=' || command == '>'
}

/// How many operands an opcode that addresses a register takes off the
/// main stack before it does.
pub open spec fn operands_before_selector(command: char) -> nat {
    if command == ':' || command == '<' || command == '=' || command == '>' {
        2
    } else if command == 's' || command == 'S' || command == ';' {
        1
    } else {
        0
    }
}

/// Whether the guards let an opcode that addresses a register get as far
/// as its selector.
pub open spec fn reaches_selector(command: char, stack: Seq<StackObject>) -> bool {
    if command == 's' || command == 'S' {
        stack.len() >= 1
    } else if operands_before_selector(command) > 0 {
        passes(command, stack, operands_before_selector(command))
    } else {
        true
    }
}

/// Addressing a register that there is not, one numbered 65536 or above,
/// is a failure that names it and leaves every register as it was.
pub proof fn no_register_beyond_the_last(
    pre: Handler,
    post: Handler,
    frames_pre: Seq<Vec<char>>,
    frames_post: Seq<Vec<char>>,
    command: char,
    flag_pre: bool,
    flag_post: bool,
    r: Outcome,
)
    requires
        pre.wf(),
        addresses_register(command),
        reaches_selector(command, pre.main_stack@),
        !no_selector(pre, frames_pre),
        selected(pre, frames_pre) >= REGISTER_COUNT,
        run_command_post(pre, post, frames_pre, frames_post, command, flag_pre, flag_post, r),
    ensures
        r.failed(not_available_message(selected(pre, frames_pre))),
        post.registers == pre.registers,
        post.register_buffer == pre.register_buffer,
{
}

/// Selecting a register by a number of 65536 or above is a failure that
/// names it and selects nothing.
pub proof fn no_selector_beyond_the_last(
    pre: Handler,
    post: Handler,
    frames_pre: Seq<Vec<char>>,
    frames_post: Seq<Vec<char>>,
    flag_pre: bool,
    flag_post: bool,
    r: Outcome,
)
    requires
        pre.wf(),
        pre.main_stack@.len() >= 1,
        pre.main_stack@.last() matches StackObject::Float(a) && REGISTER_COUNT <= a@.integer()
            <= usize::MAX,
        run_command_post(pre, post, frames_pre, frames_post, ',', flag_pre, flag_post, r),
    ensures
        r.failed(
            not_available_message((pre.main_stack@.last()->Float_0)@.integer()),
        ),
        post.direct_register_selector == pre.direct_register_selector,
        post.registers == pre.registers,
{
}

/// A macro called by the last opcode of a frame takes that frame's place:
/// the frames are no deeper after the call than before.
pub proof fn call_at_the_end_of_a_frame(
    pre: Handler,
    post: Handler,
    frames_pre: Seq<Vec<char>>,
    frames_post: Seq<Vec<char>>,
    flag_pre: bool,
    flag_post: bool,
    r: Outcome,
)
    requires
        frames_pre.len() >= 1,
        frames_pre.last()@.len() == 0,
        pre.main_stack@.len() >= 1,
        pre.main_stack@.last() is String,
        run_command_post(pre, post, frames_pre, frames_post, 'x', flag_pre, flag_post, r),
    ensures
        frames_post.len() == frames_pre.len(),
        frame_views(frames_post).drop_last() == frame_views(frames_pre).drop_last(),
        frames_post.last()@ == (pre.main_stack@.last()->String_0)@.reverse(),
        r.silent(),
{
    let text = (pre.main_stack@.last()->String_0)@;
    let called = after_call(frame_views(frames_pre), text);
    assert(frame_views(frames_post) == called);
    assert(called.len() == frames_pre.len());
    assert(frame_views(frames_post).len() == frames_post.len());
    assert(called.drop_last() =~= frame_views(frames_pre).drop_last());
    assert(frame_views(frames_post).last() == frames_post.last()@);
}

/// A step that runs `x` as the last opcode of the top frame, with a text
/// that is not empty on top of the main stack, leaves as many frames as
/// there were: the macro does not deepen the frames.
pub proof fn step_calls_in_place(
    pre: Handler,
    post: Handler,
    before: Execution,
    after: Execution,
    output_pre: Seq<Output>,
    output_post: Seq<Output>,
    progress: Progress,
)
    requires
        before.command_stack@.len() >= 1,
        before.command_stack@.last()@ == seq!['x'],
        pre.main_stack@.len() >= 1,
        pre.main_stack@.last() matches StackObject::String(text) && text@.len() > 0,
        step_post(pre, post, before, after, output_pre, output_post, progress),
    ensures
        progress is Ready,
        after.command_stack@.len() == before.command_stack@.len(),
        after.command_stack@.last()@ == (pre.main_stack@.last()->String_0)@.reverse(),
        output_post == output_pre,
{
    let start = settled(before.command_stack@);
    assert(start == before.command_stack@);
    let text = (pre.main_stack@.last()->String_0)@;
    let (taken, ran, flag, r) = choose|
        taken: Seq<Vec<char>>,
        ran: Seq<Vec<char>>,
        flag: bool,
        r: Outcome,
    |
        {
            &&& crate::commands::top_frame_becomes(start, taken, start.last()@.drop_last())
            &&& #[trigger] run_command_post(
                pre,
                post,
                taken,
                ran,
                start.last()@.last(),
                before.inverted,
                flag,
                r,
            )
            &&& output_post == output_pre + r.output@
            &&& after.inverted == (start.last()@.last() == '!' && flag)
            &&& match r.ask {
                Some(ask) => progress == Progress::Waiting(ask) && after.command_stack@ == ran,
                None => progress is Ready && after.command_stack@ == settled(ran),
            }
        };
    assert(start.last()@.last() == 'x');
    assert(taken.last()@.len() == 0);
    call_at_the_end_of_a_frame(pre, post, taken, ran, before.inverted, flag, r);
    assert(ran.last()@.len() == text.len()) by {
        assert(text.reverse().len() == text.len());
    }
    assert(settled(ran) == ran);
    assert(output_pre + r.output@ =~= output_pre);
}

/// Whatever opcode runs, the session stays well formed: it has its 65536
/// registers, a pending selector names one of them, a context is in force
/// and every context is in range.
pub proof fn every_opcode_keeps_the_session_well_formed(
    pre: Handler,
    post: Handler,
    frames_pre: Seq<Vec<char>>,
    frames_post: Seq<Vec<char>>,
    command: char,
    flag_pre: bool,
    flag_post: bool,
    r: Outcome,
)
    requires
        pre.wf(),
        run_command_post(pre, post, frames_pre, frames_post, command, flag_pre, flag_post, r),
    ensures
        post.wf(),
        post.registers@.len() == REGISTER_COUNT,
        post.parameter_stack@.len() >= 1,
{
    if command == 'k' || command == 'i' || command == 'o' {
        if passes(command, pre.main_stack@, 1) && post.parameter_stack@ != pre.parameter_stack@ {
            assert(parameter_of(
                post.context(),
                Parameter::OutputPrecision,
            ) == post.context().output_precision);
            assert(parameter_of(
                post.context(),
                Parameter::InputBase,
            ) == post.context().input_base);
            assert(parameter_of(
                post.context(),
                Parameter::OutputBase,
            ) == post.context().output_base);
            assert forall|i: int| 0 <= i < post.parameter_stack@.len() implies (
            #[trigger] post.parameter_stack@[i]).wf() by {
                if i < post.parameter_stack@.len() - 1 {
                    assert(post.parameter_stack@[i] == post.parameter_stack@.drop_last()[i]);
                    assert(pre.parameter_stack@[i] == pre.parameter_stack@.drop_last()[i]);
                }
            }
        }
    } else if command == '{' {
        assert forall|i: int| 0 <= i < post.parameter_stack@.len() implies (
        #[trigger] post.parameter_stack@[i]).wf() by {
            if i < post.parameter_stack@.len() - 1 {
                assert(post.parameter_stack@[i] == post.parameter_stack@.drop_last()[i]);
            }
        }
    } else if command == '}' {
        assert forall|i: int| 0 <= i < post.parameter_stack@.len() implies (
        #[trigger] post.parameter_stack@[i]).wf() by {
            if pre.parameter_stack@.len() >= 2 {
                assert(post.parameter_stack@[i] == pre.parameter_stack@[i]);
            }
        }
    }
}

/// A number that the service was asked for, to go on the main stack, makes
/// the stack one value deeper, and nothing is reported.
pub proof fn the_number_asked_for_goes_on_the_stack(
    pre: Handler,
    post: Handler,
    frames_pre: Seq<Vec<char>>,
    frames_post: Seq<Vec<char>>,
    n: crate::number::Number,
    r: Outcome,
)
    requires
        crate::commands::engine::answer_post(
            pre,
            post,
            frames_pre,
            frames_post,
            Pending::Push,
            crate::service::Reply::Number(n),
            r,
        ),
    ensures
        post.main_stack@ == pre.main_stack@.push(StackObject::Float(n)),
        post.main_stack@.len() == pre.main_stack@.len() + 1,
        frames_post == frames_pre,
        r.silent(),
{
}

/// Over one digit group of a number in any base, the value so far becomes
/// that value times the base plus the group: where the value so far is
/// `value` and the group begins at index `from`, and the service answers
/// the product, the group and the sum exactly, the sum is
/// `value * base + group`, and the reading goes on from it with the next
/// group, or, after the last group, with the rounding of the signed sum.
pub proof fn a_group_is_added(
    handler: Handler,
    groups: Groups,
    from: usize,
    value: NumberView,
    asking: Outcome,
    product: Number,
    after_product: Outcome,
    digit: Number,
    after_digit: Outcome,
    sum: Number,
    after_sum: Outcome,
)
    requires
        from < groups.digits@.len(),
        group_added(handler, groups, value, from, asking),
        product@.integer() == value.integer() * handler.context().input_base@.integer(),
        accumulate_post(handler, groups, state_of(asking), Reply::Number(product), after_product),
        digit@.integer() == decimal_value(group_from(groups.digits@, from as int)),
        accumulate_post(
            handler,
            groups,
            state_of(after_product),
            Reply::Number(digit),
            after_digit,
        ),
        sum@.integer() == product@.integer() + digit@.integer(),
        accumulate_post(handler, groups, state_of(after_digit), Reply::Number(sum), after_sum),
    ensures
        is_whole(
            asked(asking),
            WholeOperation::Product,
            value,
            handler.context().input_base@,
        ),
        asked(after_product) matches Operation::Numeral(text) && text@ == group_from(
            groups.digits@,
            from as int,
        ),
        asked(after_digit) == Operation::Whole(WholeOperation::Sum, product, digit),
        sum@.integer() == value.integer() * handler.context().input_base@.integer()
            + decimal_value(group_from(groups.digits@, from as int)),
        group_added(
            handler,
            groups,
            sum@,
            next_group(groups.digits@, from as int) as usize,
            after_sum,
        ),
        positional(
            groups.digits@,
            from as int,
            value.integer(),
            handler.context().input_base@.integer(),
        ) == positional(
            groups.digits@,
            next_group(groups.digits@, from as int),
            sum@.integer(),
            handler.context().input_base@.integer(),
        ),
{
    lemma_group_end(groups.digits@, from as int);
}

/// Behind the last group, the whole number that the groups make is the
/// value so far, and that value with the sign of the number is what is
/// rounded to the working precision.
pub proof fn the_last_sum_is_rounded(
    handler: Handler,
    groups: Groups,
    from: usize,
    value: NumberView,
    asking: Outcome,
)
    requires
        from >= groups.digits@.len(),
        group_added(handler, groups, value, from, asking),
    ensures
        positional(
            groups.digits@,
            from as int,
            value.integer(),
            handler.context().input_base@.integer(),
        ) == value.integer(),
        asked(asking) matches Operation::Integer(x) && x@ == signed(value, groups.negative),
{
}

/// A group ends at its beginning or behind it, and not behind the end.
proof fn lemma_group_end(d: Seq<char>, from: int)
    requires
        0 <= from <= d.len(),
    ensures
        from <= group_end(d, from) <= d.len(),
    decreases d.len() - from,
{
    if from < d.len() && d[from] != ' ' {
        lemma_group_end(d, from + 1);
    }
}

} // verus!
