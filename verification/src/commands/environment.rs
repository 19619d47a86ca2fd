use crate::commands::{operands1, passes, popped, stopped};
use crate::handler::{Context, Handler, StackObject};
use crate::number::Number;
use crate::service::{Operation, Outcome, Pending};
use crate::text::owned;
use vstd::prelude::*;

verus! {

/// Which parameter of a context is meant.
#[derive(Clone, Copy, Debug, PartialEq, Eq, Structural)]
pub enum Parameter {
    OutputPrecision,
    InputBase,
    OutputBase,
}

/// The least value that a parameter takes.
pub open spec fn least(parameter: Parameter) -> int {
    match parameter {
        Parameter::OutputPrecision => -1,
        _ => 2,
    }
}

/// What is said of a value that is too small for a parameter.
pub open spec fn too_small_message(parameter: Parameter) -> Seq<char> {
    match parameter {
        Parameter::OutputPrecision => "! Output precision must be at least -1"@,
        Parameter::InputBase => "! Input base must be at least 2"@,
        Parameter::OutputBase => "! Output base must be at least 2"@,
    }
}

/// The parameter of a context.
pub open spec fn parameter_of(context: Context, parameter: Parameter) -> Number {
    match parameter {
        Parameter::OutputPrecision => context.output_precision,
        Parameter::InputBase => context.input_base,
        Parameter::OutputBase => context.output_base,
    }
}

/// The top value went off the main stack and became `parameter` of the
/// context in force; nothing else changed.
pub open spec fn parameter_set(
    pre: Handler,
    post: Handler,
    parameter: Parameter,
    value: Number,
) -> bool {
    &&& post.registers == pre.registers
    &&& post.register_buffer == pre.register_buffer
    &&& post.direct_register_selector == pre.direct_register_selector
    &&& post.working_precision == pre.working_precision
    &&& post.main_stack@ == pre.main_stack@.drop_last()
    &&& post.parameter_stack@.len() == pre.parameter_stack@.len()
    &&& post.parameter_stack@.drop_last() == pre.parameter_stack@.drop_last()
    &&& parameter_of(post.context(), parameter) == value
    &&& forall|other: Parameter|
        other != parameter ==> parameter_of(post.context(), other) == parameter_of(
            pre.context(),
            other,
        )
}

/// What `k`, `i` and `o` do: the integer part of the top value becomes the
/// parameter, unless it is too small.
pub open spec fn set_parameter_post(
    pre: Handler,
    post: Handler,
    command: char,
    parameter: Parameter,
    r: Outcome,
) -> bool {
    if !passes(command, pre.main_stack@, 1) {
        stopped(pre, post, command, 1, r)
    } else {
        match pre.main_stack@.last() {
            StackObject::Float(a) => if a@.integer() >= least(parameter) {
                parameter_set(pre, post, parameter, a) && r.silent()
            } else {
                popped(pre, post, 1) && r.failed(too_small_message(parameter))
            },
            _ => false,
        }
    }
}

fn set_parameter(handler: &mut Handler, command: char, parameter: Parameter) -> (r: Outcome)
    requires
        old(handler).wf(),
        command == 'k' || command == 'i' || command == 'o',
    ensures
        final(handler).wf(),
        set_parameter_post(*old(handler), *final(handler), command, parameter, r),
{
    match operands1(handler, command) {
        Err(stop) => stop,
        Ok(a) => match a {
            StackObject::Float(x) => {
                let bound: i8 = match parameter {
                    Parameter::OutputPrecision => -1,
                    _ => 2,
                };
                if x.integer_at_least(bound) {
                    let context = handler.parameter_stack.pop().unwrap();
                    let ghost below = handler.parameter_stack@;
                    let changed = match parameter {
                        Parameter::OutputPrecision => Context {
                            output_precision: x,
                            input_base: context.input_base,
                            output_base: context.output_base,
                        },
                        Parameter::InputBase => Context {
                            output_precision: context.output_precision,
                            input_base: x,
                            output_base: context.output_base,
                        },
                        Parameter::OutputBase => Context {
                            output_precision: context.output_precision,
                            input_base: context.input_base,
                            output_base: x,
                        },
                    };
                    handler.parameter_stack.push(changed);
                    assert(handler.parameter_stack@.drop_last() =~= below);
                    assert(old(handler).main_stack@.take(old(handler).main_stack@.len() - 1)
                        =~= old(handler).main_stack@.drop_last());
                    assert forall|i: int| 0 <= i < handler.parameter_stack@.len() implies (
                    #[trigger] handler.parameter_stack@[i]).wf() by {
                        if i < handler.parameter_stack@.len() - 1 {
                            assert(handler.parameter_stack@[i] == old(handler).parameter_stack@[i]);
                        }
                    }
                    Outcome::nothing()
                } else {
                    Outcome::failure(
                        match parameter {
                            Parameter::OutputPrecision => owned(
                                "! Output precision must be at least -1",
                            ),
                            Parameter::InputBase => owned("! Input base must be at least 2"),
                            Parameter::OutputBase => owned("! Output base must be at least 2"),
                        },
                    )
                }
            },
            _ => {
                assert(false);
                Outcome::nothing()
            },
        },
    }
}

/// Sets the output precision.
pub fn set_output_precision(handler: &mut Handler, command: char) -> (r: Outcome)
    requires
        old(handler).wf(),
        command == 'k',
    ensures
        final(handler).wf(),
        set_parameter_post(*old(handler), *final(handler), command, Parameter::OutputPrecision, r),
{
    set_parameter(handler, command, Parameter::OutputPrecision)
}

/// Sets the input base.
pub fn set_input_base(handler: &mut Handler, command: char) -> (r: Outcome)
    requires
        old(handler).wf(),
        command == 'i',
    ensures
        final(handler).wf(),
        set_parameter_post(*old(handler), *final(handler), command, Parameter::InputBase, r),
{
    set_parameter(handler, command, Parameter::InputBase)
}

/// Sets the output base.
pub fn set_output_base(handler: &mut Handler, command: char) -> (r: Outcome)
    requires
        old(handler).wf(),
        command == 'o',
    ensures
        final(handler).wf(),
        set_parameter_post(*old(handler), *final(handler), command, Parameter::OutputBase, r),
{
    set_parameter(handler, command, Parameter::OutputBase)
}

/// What `w` does: the integer part of the top value becomes the working
/// precision, where it is from 1 to 4294967295.
pub open spec fn set_working_precision_post(
    pre: Handler,
    post: Handler,
    command: char,
    r: Outcome,
) -> bool {
    if !passes(command, pre.main_stack@, 1) {
        stopped(pre, post, command, 1, r)
    } else {
        match pre.main_stack@.last() {
            StackObject::Float(a) => if 1 <= a@.integer() <= u32::MAX {
                &&& post.registers == pre.registers
                &&& post.register_buffer == pre.register_buffer
                &&& post.direct_register_selector == pre.direct_register_selector
                &&& post.parameter_stack == pre.parameter_stack
                &&& post.main_stack@ == pre.main_stack@.drop_last()
                &&& post.working_precision == a@.integer()
                &&& r.silent()
            } else {
                popped(pre, post, 1) && r.failed(
                    "! Working precision must be between 1 and 4294967295 (inclusive)"@,
                )
            },
            _ => false,
        }
    }
}

/// Sets the working precision.
pub fn set_working_precision(handler: &mut Handler, command: char) -> (r: Outcome)
    requires
        old(handler).wf(),
        command == 'w',
    ensures
        final(handler).wf(),
        set_working_precision_post(*old(handler), *final(handler), command, r),
{
    match operands1(handler, command) {
        Err(stop) => stop,
        Ok(a) => match a {
            StackObject::Float(x) => {
                let wanted = match x.to_u32() {
                    Some(v) => if v >= 1 {
                        Some(v)
                    } else {
                        None
                    },
                    None => None,
                };
                match wanted {
                    Some(v) => {
                        handler.working_precision = v;
                        assert(old(handler).main_stack@.take(old(handler).main_stack@.len() - 1)
                            =~= old(handler).main_stack@.drop_last());
                        Outcome::nothing()
                    },
                    None => Outcome::failure(
                        owned("! Working precision must be between 1 and 4294967295 (inclusive)"),
                    ),
                }
            },
            _ => {
                assert(false);
                Outcome::nothing()
            },
        },
    }
}

/// What `K`, `I` and `O` do: the service rounds the parameter to the
/// working precision, to go on the main stack.
pub open spec fn push_parameter_post(
    pre: Handler,
    post: Handler,
    parameter: Parameter,
    r: Outcome,
) -> bool {
    &&& post == pre
    &&& r.output@.len() == 0
    &&& r.ask matches Some(ask)
    &&& ask.request.precision == pre.working_precision
    &&& ask.request.operation matches Operation::Integer(value)
    &&& value@ == parameter_of(pre.context(), parameter)@
    &&& ask.pending == Pending::Push
}

fn push_parameter(handler: &mut Handler, parameter: Parameter) -> (r: Outcome)
    requires
        old(handler).wf(),
    ensures
        push_parameter_post(*old(handler), *final(handler), parameter, r),
{
    let n = handler.parameter_stack.len();
    let value = match parameter {
        Parameter::OutputPrecision => handler.parameter_stack[n - 1].output_precision.clone(),
        Parameter::InputBase => handler.parameter_stack[n - 1].input_base.clone(),
        Parameter::OutputBase => handler.parameter_stack[n - 1].output_base.clone(),
    };
    Outcome::request(handler.working_precision, Operation::Integer(value), Pending::Push)
}

/// Asks for the output precision as a number.
pub fn push_output_precision(handler: &mut Handler) -> (r: Outcome)
    requires
        old(handler).wf(),
    ensures
        push_parameter_post(*old(handler), *final(handler), Parameter::OutputPrecision, r),
{
    push_parameter(handler, Parameter::OutputPrecision)
}

/// Asks for the input base as a number.
pub fn push_input_base(handler: &mut Handler) -> (r: Outcome)
    requires
        old(handler).wf(),
    ensures
        push_parameter_post(*old(handler), *final(handler), Parameter::InputBase, r),
{
    push_parameter(handler, Parameter::InputBase)
}

/// Asks for the output base as a number.
pub fn push_output_base(handler: &mut Handler) -> (r: Outcome)
    requires
        old(handler).wf(),
    ensures
        push_parameter_post(*old(handler), *final(handler), Parameter::OutputBase, r),
{
    push_parameter(handler, Parameter::OutputBase)
}

/// Asks for the working precision as a number.
pub fn push_working_precision(handler: &mut Handler) -> (r: Outcome)
    ensures
        *final(handler) == *old(handler),
        r.asked(
            old(handler).working_precision,
            Operation::Unsigned(old(handler).working_precision as u64),
            Pending::Push,
        ),
{
    Outcome::request(
        handler.working_precision,
        Operation::Unsigned(handler.working_precision as u64),
        Pending::Push,
    )
}

/// Everything but the contexts is as before.
pub open spec fn contexts_changed(pre: Handler, post: Handler) -> bool {
    &&& post.main_stack == pre.main_stack
    &&& post.registers == pre.registers
    &&& post.register_buffer == pre.register_buffer
    &&& post.direct_register_selector == pre.direct_register_selector
    &&& post.working_precision == pre.working_precision
}

/// What `{` does: a context with the parameters that a session starts with
/// comes into force on top of the others.
pub open spec fn new_context_post(pre: Handler, post: Handler, r: Outcome) -> bool {
    &&& contexts_changed(pre, post)
    &&& post.parameter_stack@.len() == pre.parameter_stack@.len() + 1
    &&& post.parameter_stack@.drop_last() == pre.parameter_stack@
    &&& post.context().is_default()
    &&& r.silent()
}

/// Opens a new context.
pub fn new_context(handler: &mut Handler) -> (r: Outcome)
    requires
        old(handler).wf(),
    ensures
        final(handler).wf(),
        new_context_post(*old(handler), *final(handler), r),
{
    handler.parameter_stack.push(Context::new());
    assert(handler.parameter_stack@.drop_last() =~= old(handler).parameter_stack@);
    assert forall|i: int| 0 <= i < handler.parameter_stack@.len() implies (
    #[trigger] handler.parameter_stack@[i]).wf() by {
        if i < handler.parameter_stack@.len() - 1 {
            assert(handler.parameter_stack@[i] == old(handler).parameter_stack@[i]);
        }
    }
    Outcome::nothing()
}

/// What `}` does: the context in force goes and the one below comes back
/// into force; where there is none below, the parameters that a session
/// starts with come into force.
pub open spec fn revert_context_post(pre: Handler, post: Handler, r: Outcome) -> bool {
    &&& contexts_changed(pre, post)
    &&& if pre.parameter_stack@.len() >= 2 {
        post.parameter_stack@ == pre.parameter_stack@.drop_last()
    } else {
        post.parameter_stack@.len() == 1 && post.context().is_default()
    }
    &&& r.silent()
}

/// Goes back to the context below.
pub fn revert_context(handler: &mut Handler) -> (r: Outcome)
    requires
        old(handler).wf(),
    ensures
        final(handler).wf(),
        final(handler).parameter_stack@.len() >= 1,
        revert_context_post(*old(handler), *final(handler), r),
{
    handler.parameter_stack.pop();
    if handler.parameter_stack.len() == 0 {
        handler.parameter_stack.push(Context::new());
    }
    assert forall|i: int| 0 <= i < handler.parameter_stack@.len() implies (
    #[trigger] handler.parameter_stack@[i]).wf() by {
        if old(handler).parameter_stack@.len() >= 2 {
            assert(handler.parameter_stack@[i] == old(handler).parameter_stack@[i]);
        }
    }
    Outcome::nothing()
}

} // verus!
