use crate::commands::{
    arity, asked_to_describe, check_n, describe, insufficient_message, invalid_types_message,
    operands1, passes, popped, push, stopped, top_frame_becomes,
};
use crate::handler::{Handler, Output, RegisterObject, StackObject, Value, REGISTER_COUNT};
use crate::number::{zero_view, Number};
use crate::service::{Operation, Outcome, Pending};
use crate::text::{code_of, compose, decimal, owned, write_decimal};
use vstd::prelude::*;

verus! {

/// There is nothing to select a register with: no pending selector and no
/// character left on the frame.
pub open spec fn no_selector(handler: Handler, frames: Seq<Vec<char>>) -> bool {
    handler.direct_register_selector is None && frames.last()@.len() == 0
}

/// The register that is selected: by the pending selector, or else by the
/// next character on the frame.
pub open spec fn selected(handler: Handler, frames: Seq<Vec<char>>) -> int {
    match handler.direct_register_selector {
        Some(i) => i as int,
        None => frames.last()@.last() as int,
    }
}

/// A register is selected and there is such a register.
pub open spec fn addressable(handler: Handler, frames: Seq<Vec<char>>) -> bool {
    !no_selector(handler, frames) && selected(handler, frames) < REGISTER_COUNT
}

/// The selector is used up: the pending one is gone, or else the frame
/// lost its next character.
pub open spec fn selector_used(
    pre: Handler,
    post: Handler,
    frames_pre: Seq<Vec<char>>,
    frames_post: Seq<Vec<char>>,
) -> bool {
    &&& post.direct_register_selector is None
    &&& if pre.direct_register_selector is Some {
        frames_post == frames_pre
    } else {
        top_frame_becomes(frames_pre, frames_post, frames_pre.last()@.drop_last())
    }
}

/// Where there is a selector it is used up; either way none is pending.
pub open spec fn selector_skipped(
    pre: Handler,
    post: Handler,
    frames_pre: Seq<Vec<char>>,
    frames_post: Seq<Vec<char>>,
) -> bool {
    &&& post.direct_register_selector is None
    &&& if pre.direct_register_selector is None && frames_pre.last()@.len() > 0 {
        top_frame_becomes(frames_pre, frames_post, frames_pre.last()@.drop_last())
    } else {
        frames_post == frames_pre
    }
}

/// Nothing changed but, it may be, the pending selector.
pub open spec fn only_selector_changed(pre: Handler, post: Handler) -> bool {
    &&& post.main_stack == pre.main_stack
    &&& post.registers == pre.registers
    &&& post.register_buffer == pre.register_buffer
    &&& post.parameter_stack == pre.parameter_stack
    &&& post.working_precision == pre.working_precision
}

/// Contexts and working precision are as before.
pub open spec fn environment_kept(pre: Handler, post: Handler) -> bool {
    &&& post.parameter_stack == pre.parameter_stack
    &&& post.working_precision == pre.working_precision
}

/// The main stack lost its top `count` values.
pub open spec fn stack_popped(pre: Handler, post: Handler, count: nat) -> bool {
    &&& pre.main_stack@.len() >= count
    &&& post.main_stack@ == pre.main_stack@.take(pre.main_stack@.len() - count)
}

/// No register but the one at `index` changed.
pub open spec fn others_kept(pre: Handler, post: Handler, index: int) -> bool {
    &&& post.registers@.len() == pre.registers@.len()
    &&& forall|j: int|
        0 <= j < pre.registers@.len() && j != index ==> #[trigger] post.registers@[j]
            == pre.registers@[j]
}

/// What is said of a register that there is not.
pub open spec fn not_available_message(index: int) -> Seq<char> {
    "! Register "@ + decimal(index as nat) + " is not available"@
}

/// What is said of a register that holds nothing.
pub open spec fn empty_message(index: int) -> Seq<char> {
    "! Register "@ + decimal(index as nat) + " is empty"@
}

/// The guards stopped a register opcode: as for any opcode, and a selector
/// that was there is used up all the same.
pub open spec fn stopped_skipping(
    pre: Handler,
    post: Handler,
    frames_pre: Seq<Vec<char>>,
    frames_post: Seq<Vec<char>>,
    command: char,
    count: nat,
    r: Outcome,
) -> bool {
    &&& selector_skipped(pre, post, frames_pre, frames_post)
    &&& environment_kept(pre, post)
    &&& post.registers == pre.registers
    &&& post.register_buffer == pre.register_buffer
    &&& if pre.main_stack@.len() < arity(command) {
        post.main_stack == pre.main_stack && r.failed(insufficient_message(command))
    } else {
        stack_popped(pre, post, count) && r.failed(invalid_types_message(command))
    }
}

/// No register could be addressed, after `count` operands went off the
/// main stack: for want of a selector, or because the selected register
/// does not exist, which uses the selector up. Either is a failure that
/// leaves the registers as they were.
pub open spec fn unaddressed_saying(
    pre: Handler,
    post: Handler,
    frames_pre: Seq<Vec<char>>,
    frames_post: Seq<Vec<char>>,
    count: nat,
    complaint: Seq<char>,
    r: Outcome,
) -> bool {
    &&& environment_kept(pre, post)
    &&& post.registers == pre.registers
    &&& post.register_buffer == pre.register_buffer
    &&& stack_popped(pre, post, count)
    &&& if no_selector(pre, frames_pre) {
        &&& post.direct_register_selector == pre.direct_register_selector
        &&& frames_post == frames_pre
        &&& r.failed(complaint)
    } else {
        &&& selector_used(pre, post, frames_pre, frames_post)
        &&& r.failed(not_available_message(selected(pre, frames_pre)))
    }
}

/// No register could be addressed by an opcode that takes the selector for
/// a number.
pub open spec fn unaddressed(
    pre: Handler,
    post: Handler,
    frames_pre: Seq<Vec<char>>,
    frames_post: Seq<Vec<char>>,
    count: nat,
    r: Outcome,
) -> bool {
    unaddressed_saying(
        pre,
        post,
        frames_pre,
        frames_post,
        count,
        "! No register number provided"@,
        r,
    )
}

/// Uses up the selector, where there is one, and gives the register that
/// it selects.
pub fn take_selector(handler: &mut Handler, command_stack: &mut Vec<Vec<char>>) -> (r: Option<
    usize,
>)
    requires
        old(command_stack)@.len() >= 1,
    ensures
        only_selector_changed(*old(handler), *final(handler)),
        match r {
            Some(index) => {
                &&& !no_selector(*old(handler), old(command_stack)@)
                &&& index == selected(*old(handler), old(command_stack)@)
                &&& selector_used(
                    *old(handler),
                    *final(handler),
                    old(command_stack)@,
                    final(command_stack)@,
                )
            },
            None => {
                &&& no_selector(*old(handler), old(command_stack)@)
                &&& final(handler).direct_register_selector == old(handler).direct_register_selector
                &&& final(command_stack)@ == old(command_stack)@
            },
        },
{
    match handler.direct_register_selector {
        Some(index) => {
            handler.direct_register_selector = None;
            Some(index)
        },
        None => {
            let top = command_stack.len() - 1;
            if command_stack[top].len() == 0 {
                return None;
            }
            let mut frame = command_stack.pop().unwrap();
            let c = frame.pop().unwrap();
            command_stack.push(frame);
            assert(command_stack@.drop_last() =~= old(command_stack)@.drop_last());
            Some(code_of(c) as usize)
        },
    }
}

/// Uses up the selector, where there is one.
pub fn skip_selector(handler: &mut Handler, command_stack: &mut Vec<Vec<char>>)
    requires
        old(command_stack)@.len() >= 1,
    ensures
        only_selector_changed(*old(handler), *final(handler)),
        selector_skipped(*old(handler), *final(handler), old(command_stack)@, final(command_stack)@),
{
    let _ = take_selector(handler, command_stack);
    handler.direct_register_selector = None;
}

/// The failure that names a register which does not exist.
pub fn not_available(index: usize) -> (r: Outcome)
    ensures
        r.failed(not_available_message(index as int)),
{
    Outcome::failure(compose("! Register ", &write_decimal(index as u64), " is not available"))
}

/// The failure that names a register which holds nothing.
pub fn is_empty(index: usize) -> (r: Outcome)
    ensures
        r.failed(empty_message(index as int)),
{
    Outcome::failure(compose("! Register ", &write_decimal(index as u64), " is empty"))
}

/// The failure for want of a selector.
pub fn no_register() -> (r: Outcome)
    ensures
        r.failed("! No register number provided"@),
{
    Outcome::failure(owned("! No register number provided"))
}

/// Everything but the registers is as before.
pub open spec fn registers_changed(pre: Handler, post: Handler) -> bool {
    &&& post.main_stack == pre.main_stack
    &&& post.register_buffer == pre.register_buffer
    &&& post.direct_register_selector == pre.direct_register_selector
    &&& post.parameter_stack == pre.parameter_stack
    &&& post.working_precision == pre.working_precision
}

/// Puts an entry on top of a register.
pub fn register_push(handler: &mut Handler, index: usize, entry: RegisterObject)
    requires
        index < old(handler).registers@.len(),
    ensures
        registers_changed(*old(handler), *final(handler)),
        others_kept(*old(handler), *final(handler), index as int),
        final(handler).registers@[index as int]@ == old(handler).registers@[index as int]@.push(
            entry,
        ),
{
    handler.registers[index].push(entry);
}

/// Takes the top entry off a register, where it has one.
pub fn register_pop(handler: &mut Handler, index: usize) -> (r: Option<RegisterObject>)
    requires
        index < old(handler).registers@.len(),
    ensures
        registers_changed(*old(handler), *final(handler)),
        others_kept(*old(handler), *final(handler), index as int),
        match r {
            Some(entry) => {
                &&& old(handler).registers@[index as int]@.len() > 0
                &&& entry == old(handler).registers@[index as int]@.last()
                &&& final(handler).registers@[index as int]@ == old(
                    handler,
                ).registers@[index as int]@.drop_last()
            },
            None => {
                &&& old(handler).registers@[index as int]@.len() == 0
                &&& final(handler).registers@[index as int]@ == old(
                    handler,
                ).registers@[index as int]@
            },
        },
{
    handler.registers[index].pop()
}

/// A register was addressed: the selector is used up, and no other
/// register, no context and not the working precision changed.
pub open spec fn addressed(
    pre: Handler,
    post: Handler,
    frames_pre: Seq<Vec<char>>,
    frames_post: Seq<Vec<char>>,
) -> bool {
    &&& environment_kept(pre, post)
    &&& selector_used(pre, post, frames_pre, frames_post)
    &&& others_kept(pre, post, selected(pre, frames_pre))
}

/// The entries of the selected register.
pub open spec fn entries(handler: Handler, index: int) -> Seq<RegisterObject> {
    handler.registers@[index]@
}

/// All of a sequence is the sequence.
pub proof fn lemma_take_all<T>(s: Seq<T>)
    ensures
        s.take(s.len() as int) == s,
{
    assert(s.take(s.len() as int) =~= s);
}

/// What `s` does: the top value becomes the value of the selected
/// register's top entry, which keeps its array; a register without an
/// entry gets one.
pub open spec fn save_to_register_post(
    pre: Handler,
    post: Handler,
    frames_pre: Seq<Vec<char>>,
    frames_post: Seq<Vec<char>>,
    command: char,
    r: Outcome,
) -> bool {
    if pre.main_stack@.len() < arity(command) {
        stopped_skipping(pre, post, frames_pre, frames_post, command, 1, r)
    } else if !addressable(pre, frames_pre) {
        unaddressed(pre, post, frames_pre, frames_post, 1, r)
    } else {
        let before = entries(pre, selected(pre, frames_pre));
        let after = entries(post, selected(pre, frames_pre));
        &&& addressed(pre, post, frames_pre, frames_post)
        &&& stack_popped(pre, post, 1)
        &&& post.register_buffer == pre.register_buffer
        &&& after.len() == if before.len() == 0 {
            1
        } else {
            before.len()
        }
        &&& before.len() > 0 ==> after.drop_last() == before.drop_last()
        &&& after.last().primary == pre.main_stack@.last()
        &&& if before.len() == 0 {
            after.last().array@.len() == 0
        } else {
            after.last().array == before.last().array
        }
        &&& r.silent()
    }
}

/// Saves the top value to a register.
pub fn save_to_register(
    handler: &mut Handler,
    command_stack: &mut Vec<Vec<char>>,
    command: char,
) -> (r: Outcome)
    requires
        old(handler).wf(),
        old(command_stack)@.len() >= 1,
        command == 's',
    ensures
        final(handler).wf(),
        save_to_register_post(
            *old(handler),
            *final(handler),
            old(command_stack)@,
            final(command_stack)@,
            command,
            r,
        ),
{
    let mut output: Vec<Output> = Vec::new();
    if !check_n(command, handler.main_stack.len(), &mut output) {
        skip_selector(handler, command_stack);
        return Outcome { output, ask: None };
    }
    let a = handler.main_stack.pop().unwrap();
    assert(old(handler).main_stack@.drop_last() =~= old(handler).main_stack@.take(
        old(handler).main_stack@.len() - 1,
    ));
    let index = match take_selector(handler, command_stack) {
        Some(i) => i,
        None => {
            return no_register();
        },
    };
    if index >= REGISTER_COUNT {
        return not_available(index);
    }
    let entry = match register_pop(handler, index) {
        Some(held) => RegisterObject { primary: a, array: held.array },
        None => RegisterObject::new(a),
    };
    let ghost below = entries(*handler, index as int);
    register_push(handler, index, entry);
    assert(entries(*handler, index as int).drop_last() =~= below);
    Outcome::nothing()
}

/// What `S` does: the top value becomes a new entry on top of the selected
/// register.
pub open spec fn push_to_register_post(
    pre: Handler,
    post: Handler,
    frames_pre: Seq<Vec<char>>,
    frames_post: Seq<Vec<char>>,
    command: char,
    r: Outcome,
) -> bool {
    if pre.main_stack@.len() < arity(command) {
        stopped_skipping(pre, post, frames_pre, frames_post, command, 1, r)
    } else if !addressable(pre, frames_pre) {
        unaddressed(pre, post, frames_pre, frames_post, 1, r)
    } else {
        let before = entries(pre, selected(pre, frames_pre));
        let after = entries(post, selected(pre, frames_pre));
        &&& addressed(pre, post, frames_pre, frames_post)
        &&& stack_popped(pre, post, 1)
        &&& post.register_buffer == pre.register_buffer
        &&& after.len() == before.len() + 1
        &&& after.drop_last() == before
        &&& after.last().primary == pre.main_stack@.last()
        &&& after.last().array@.len() == 0
        &&& r.silent()
    }
}

/// Pushes the top value onto a register.
pub fn push_to_register(
    handler: &mut Handler,
    command_stack: &mut Vec<Vec<char>>,
    command: char,
) -> (r: Outcome)
    requires
        old(handler).wf(),
        old(command_stack)@.len() >= 1,
        command == 'S',
    ensures
        final(handler).wf(),
        push_to_register_post(
            *old(handler),
            *final(handler),
            old(command_stack)@,
            final(command_stack)@,
            command,
            r,
        ),
{
    let mut output: Vec<Output> = Vec::new();
    if !check_n(command, handler.main_stack.len(), &mut output) {
        skip_selector(handler, command_stack);
        return Outcome { output, ask: None };
    }
    let a = handler.main_stack.pop().unwrap();
    assert(old(handler).main_stack@.drop_last() =~= old(handler).main_stack@.take(
        old(handler).main_stack@.len() - 1,
    ));
    let index = match take_selector(handler, command_stack) {
        Some(i) => i,
        None => {
            return no_register();
        },
    };
    if index >= REGISTER_COUNT {
        return not_available(index);
    }
    let ghost before = entries(*handler, index as int);
    register_push(handler, index, RegisterObject::new(a));
    assert(entries(*handler, index as int).drop_last() =~= before);
    Outcome::nothing()
}

/// What `l` does: a copy of the value on top of the selected register goes
/// on the main stack.
pub open spec fn load_from_register_post(
    pre: Handler,
    post: Handler,
    frames_pre: Seq<Vec<char>>,
    frames_post: Seq<Vec<char>>,
    r: Outcome,
) -> bool {
    if !addressable(pre, frames_pre) {
        unaddressed(pre, post, frames_pre, frames_post, 0, r)
    } else {
        let index = selected(pre, frames_pre);
        &&& addressed(pre, post, frames_pre, frames_post)
        &&& post.registers == pre.registers
        &&& post.register_buffer == pre.register_buffer
        &&& if entries(pre, index).len() == 0 {
            post.main_stack == pre.main_stack && r.failed(empty_message(index))
        } else {
            &&& post.main_stack@.len() == pre.main_stack@.len() + 1
            &&& post.main_stack@.drop_last() == pre.main_stack@
            &&& post.main_stack@.last()@ == entries(pre, index).last().primary@
            &&& r.silent()
        }
    }
}

/// Loads the value on top of a register.
pub fn load_from_register(
    handler: &mut Handler,
    command_stack: &mut Vec<Vec<char>>,
    command: char,
) -> (r: Outcome)
    requires
        old(handler).wf(),
        old(command_stack)@.len() >= 1,
    ensures
        final(handler).wf(),
        load_from_register_post(
            *old(handler),
            *final(handler),
            old(command_stack)@,
            final(command_stack)@,
            r,
        ),
{
    proof {
        lemma_take_all(old(handler).main_stack@);
    }
    let index = match take_selector(handler, command_stack) {
        Some(i) => i,
        None => {
            return no_register();
        },
    };
    if index >= REGISTER_COUNT {
        return not_available(index);
    }
    let depth = handler.registers[index].len();
    if depth == 0 {
        return is_empty(index);
    }
    let copy = handler.registers[index][depth - 1].primary.clone();
    push(handler, copy);
    Outcome::nothing()
}

/// What `L` does: the top entry leaves the selected register and its value
/// goes on the main stack.
pub open spec fn pop_from_register_post(
    pre: Handler,
    post: Handler,
    frames_pre: Seq<Vec<char>>,
    frames_post: Seq<Vec<char>>,
    r: Outcome,
) -> bool {
    if !addressable(pre, frames_pre) {
        unaddressed(pre, post, frames_pre, frames_post, 0, r)
    } else {
        let index = selected(pre, frames_pre);
        &&& addressed(pre, post, frames_pre, frames_post)
        &&& post.register_buffer == pre.register_buffer
        &&& if entries(pre, index).len() == 0 {
            &&& post.main_stack == pre.main_stack
            &&& entries(post, index) == entries(pre, index)
            &&& r.failed(empty_message(index))
        } else {
            &&& post.main_stack@ == pre.main_stack@.push(entries(pre, index).last().primary)
            &&& entries(post, index) == entries(pre, index).drop_last()
            &&& r.silent()
        }
    }
}

/// Pops the value on top of a register.
pub fn pop_from_register(
    handler: &mut Handler,
    command_stack: &mut Vec<Vec<char>>,
    command: char,
) -> (r: Outcome)
    requires
        old(handler).wf(),
        old(command_stack)@.len() >= 1,
    ensures
        final(handler).wf(),
        pop_from_register_post(
            *old(handler),
            *final(handler),
            old(command_stack)@,
            final(command_stack)@,
            r,
        ),
{
    proof {
        lemma_take_all(old(handler).main_stack@);
    }
    let index = match take_selector(handler, command_stack) {
        Some(i) => i,
        None => {
            return no_register();
        },
    };
    if index >= REGISTER_COUNT {
        return not_available(index);
    }
    match register_pop(handler, index) {
        Some(entry) => {
            handler.main_stack.push(entry.primary);
            Outcome::nothing()
        },
        None => is_empty(index),
    }
}

/// The entry that array opcodes work on: the top entry of the register,
/// or, where it has none, a new entry that holds zero.
pub open spec fn worked_on(before: Seq<RegisterObject>, after: Seq<RegisterObject>, precision: u32) -> bool {
    if before.len() == 0 {
        &&& after.len() == 1
        &&& after.last().primary@ == Value::Float(zero_view(precision as nat))
    } else {
        &&& after.len() == before.len()
        &&& after.drop_last() == before.drop_last()
        &&& after.last().primary == before.last().primary
    }
}

/// The array of the top entry; none where there is no entry.
pub open spec fn top_array(entries: Seq<RegisterObject>) -> Seq<StackObject> {
    if entries.len() == 0 {
        Seq::empty()
    } else {
        entries.last().array@
    }
}

/// `after` is `before` made long enough to have index `at`, with zeros in
/// the new places.
pub open spec fn extended(
    before: Seq<StackObject>,
    after: Seq<StackObject>,
    at: int,
    precision: u32,
) -> bool {
    &&& after.len() == if before.len() > at {
        before.len() as int
    } else {
        at + 1
    }
    &&& forall|j: int| 0 <= j < before.len() ==> #[trigger] after[j] == before[j]
    &&& forall|j: int|
        before.len() <= j < after.len() ==> (#[trigger] after[j])@ == Value::Float(
            zero_view(precision as nat),
        )
}

/// Makes an array long enough to have index `at`.
pub fn extend(array: &mut Vec<StackObject>, at: usize, precision: u32)
    ensures
        extended(old(array)@, final(array)@, at as int, precision),
{
    while array.len() <= at
        invariant
            old(array)@.len() <= array@.len(),
            array@.len() <= at + 1 || array@.len() == old(array)@.len(),
            forall|j: int| 0 <= j < old(array)@.len() ==> #[trigger] array@[j] == old(array)@[j],
            forall|j: int|
                old(array)@.len() <= j < array@.len() ==> (#[trigger] array@[j])@ == Value::Float(
                    zero_view(precision as nat),
                ),
        decreases at + 1 - array@.len(),
    {
        array.push(StackObject::Float(Number::zero(precision)));
    }
}

/// What `:` does: the value below the top goes into the array of the
/// selected register's top entry, at the index that the top value says;
/// the array grows to hold it. A register without an entry gets one first.
/// An index that has a fraction, is negative or is beyond counting is a
/// failure that leaves every register as it was.
pub open spec fn save_to_top_of_register_post(
    pre: Handler,
    post: Handler,
    frames_pre: Seq<Vec<char>>,
    frames_post: Seq<Vec<char>>,
    command: char,
    r: Outcome,
) -> bool {
    if !passes(command, pre.main_stack@, 2) {
        stopped_skipping(pre, post, frames_pre, frames_post, command, 2, r)
    } else if !addressable(pre, frames_pre) {
        unaddressed(pre, post, frames_pre, frames_post, 2, r)
    } else {
        let before = entries(pre, selected(pre, frames_pre));
        let after = entries(post, selected(pre, frames_pre));
        let value = pre.main_stack@[pre.main_stack@.len() - 2];
        &&& addressed(pre, post, frames_pre, frames_post)
        &&& stack_popped(pre, post, 2)
        &&& post.register_buffer == pre.register_buffer
        &&& pre.main_stack@.last() matches StackObject::Float(index)
        &&& if index@.has_fraction() || index@.integer() < 0 || index@.integer() > usize::MAX {
            &&& post.registers == pre.registers
            &&& asked_to_describe(
                r,
                pre.working_precision,
                index,
                "! Cannot possibly save to array index "@,
                ""@,
            )
        } else {
            &&& worked_on(before, after, pre.working_precision)
            &&& exists|middle: Seq<StackObject>| #[trigger]
                extended(top_array(before), middle, index@.integer(), pre.working_precision)
                    && top_array(after) == middle.update(index@.integer(), value)
            &&& r.silent()
        }
    }
}

/// Stores a value in the array of a register's top entry.
pub fn save_to_top_of_register(
    handler: &mut Handler,
    command_stack: &mut Vec<Vec<char>>,
    command: char,
) -> (r: Outcome)
    requires
        old(handler).wf(),
        old(command_stack)@.len() >= 1,
        command == ':',
    ensures
        final(handler).wf(),
        save_to_top_of_register_post(
            *old(handler),
            *final(handler),
            old(command_stack)@,
            final(command_stack)@,
            command,
            r,
        ),
{
    let (a, b) = match crate::commands::operands2(handler, command) {
        Ok(pair) => pair,
        Err(stop) => {
            skip_selector(handler, command_stack);
            return stop;
        },
    };
    let index = match take_selector(handler, command_stack) {
        Some(i) => i,
        None => {
            return no_register();
        },
    };
    if index >= REGISTER_COUNT {
        return not_available(index);
    }
    let at = match b {
        StackObject::Float(x) => match x.to_index() {
            Some(at) => at,
            None => {
                return describe(
                    handler.working_precision,
                    x,
                    "! Cannot possibly save to array index ",
                    "",
                );
            },
        },
        _ => {
            assert(false);
            return Outcome::nothing();
        },
    };
    let ghost before = entries(*handler, index as int);
    let entry = match register_pop(handler, index) {
        Some(e) => e,
        None => RegisterObject::new(StackObject::Float(Number::zero(handler.working_precision))),
    };
    let primary = entry.primary;
    let mut array = entry.array;
    assert(array@ == top_array(before));
    extend(&mut array, at, handler.working_precision);
    let ghost middle = array@;
    array[at] = a;
    let ghost below = entries(*handler, index as int);
    register_push(handler, index, RegisterObject { primary, array });
    assert(entries(*handler, index as int).drop_last() =~= below);
    assert(extended(top_array(before), middle, at as int, old(handler).working_precision));
    assert(top_array(entries(*handler, index as int)) == middle.update(at as int, a));
    assert(worked_on(before, entries(*handler, index as int), old(handler).working_precision));
    assert(before == entries(*old(handler), selected(*old(handler), old(command_stack)@)));
    assert(a == old(handler).main_stack@[old(handler).main_stack@.len() - 2]);
    assert(addressed(*old(handler), *handler, old(command_stack)@, command_stack@));
    assert(stack_popped(*old(handler), *handler, 2));
    Outcome::nothing()
}

/// What `;` does: a copy of the value at the index that the top value says,
/// in the array of the selected register's top entry, goes on the main
/// stack; the array grows to have that index. A register without an entry
/// gets one first. An index that has a fraction, is negative or is beyond
/// counting is a failure that leaves every register as it was.
pub open spec fn load_from_top_of_register_post(
    pre: Handler,
    post: Handler,
    frames_pre: Seq<Vec<char>>,
    frames_post: Seq<Vec<char>>,
    command: char,
    r: Outcome,
) -> bool {
    if !passes(command, pre.main_stack@, 1) {
        stopped_skipping(pre, post, frames_pre, frames_post, command, 1, r)
    } else if !addressable(pre, frames_pre) {
        unaddressed(pre, post, frames_pre, frames_post, 1, r)
    } else {
        let before = entries(pre, selected(pre, frames_pre));
        let after = entries(post, selected(pre, frames_pre));
        &&& addressed(pre, post, frames_pre, frames_post)
        &&& post.register_buffer == pre.register_buffer
        &&& pre.main_stack@.last() matches StackObject::Float(index)
        &&& if index@.has_fraction() || index@.integer() < 0 || index@.integer() > usize::MAX {
            &&& stack_popped(pre, post, 1)
            &&& post.registers == pre.registers
            &&& asked_to_describe(
                r,
                pre.working_precision,
                index,
                "! Cannot possibly load from array index "@,
                ""@,
            )
        } else {
            &&& worked_on(before, after, pre.working_precision)
            &&& extended(top_array(before), top_array(after), index@.integer(), pre.working_precision)
            &&& post.main_stack@.len() == pre.main_stack@.len()
            &&& post.main_stack@.drop_last() == pre.main_stack@.drop_last()
            &&& post.main_stack@.last()@ == top_array(after)[index@.integer()]@
            &&& r.silent()
        }
    }
}

/// Loads a value from the array of a register's top entry.
pub fn load_from_top_of_register(
    handler: &mut Handler,
    command_stack: &mut Vec<Vec<char>>,
    command: char,
) -> (r: Outcome)
    requires
        old(handler).wf(),
        old(command_stack)@.len() >= 1,
        command == ';',
    ensures
        final(handler).wf(),
        load_from_top_of_register_post(
            *old(handler),
            *final(handler),
            old(command_stack)@,
            final(command_stack)@,
            command,
            r,
        ),
{
    let a = match operands1(handler, command) {
        Ok(a) => a,
        Err(stop) => {
            skip_selector(handler, command_stack);
            return stop;
        },
    };
    assert(old(handler).main_stack@.drop_last() =~= old(handler).main_stack@.take(
        old(handler).main_stack@.len() - 1,
    ));
    let index = match take_selector(handler, command_stack) {
        Some(i) => i,
        None => {
            return no_register();
        },
    };
    if index >= REGISTER_COUNT {
        return not_available(index);
    }
    let at = match a {
        StackObject::Float(x) => match x.to_index() {
            Some(at) => at,
            None => {
                return describe(
                    handler.working_precision,
                    x,
                    "! Cannot possibly load from array index ",
                    "",
                );
            },
        },
        _ => {
            assert(false);
            return Outcome::nothing();
        },
    };
    let ghost before = entries(*handler, index as int);
    let entry = match register_pop(handler, index) {
        Some(e) => e,
        None => RegisterObject::new(StackObject::Float(Number::zero(handler.working_precision))),
    };
    let primary = entry.primary;
    let mut array = entry.array;
    assert(array@ == top_array(before));
    extend(&mut array, at, handler.working_precision);
    let copy = array[at].clone();
    let ghost below = entries(*handler, index as int);
    register_push(handler, index, RegisterObject { primary, array });
    assert(entries(*handler, index as int).drop_last() =~= below);
    push(handler, copy);
    Outcome::nothing()
}

/// What `j` does: a copy of the selected register's top entry goes into
/// the buffer.
pub open spec fn load_top_of_register_into_buffer_post(
    pre: Handler,
    post: Handler,
    frames_pre: Seq<Vec<char>>,
    frames_post: Seq<Vec<char>>,
    r: Outcome,
) -> bool {
    if !addressable(pre, frames_pre) {
        unaddressed(pre, post, frames_pre, frames_post, 0, r)
    } else {
        let index = selected(pre, frames_pre);
        &&& addressed(pre, post, frames_pre, frames_post)
        &&& post.registers == pre.registers
        &&& post.main_stack == pre.main_stack
        &&& if entries(pre, index).len() == 0 {
            post.register_buffer == pre.register_buffer && r.failed(empty_message(index))
        } else {
            post.register_buffer@ == entries(pre, index).last()@ && r.silent()
        }
    }
}

/// Copies the top entry of a register into the buffer.
pub fn load_top_of_register_into_buffer(
    handler: &mut Handler,
    command_stack: &mut Vec<Vec<char>>,
) -> (r: Outcome)
    requires
        old(handler).wf(),
        old(command_stack)@.len() >= 1,
    ensures
        final(handler).wf(),
        load_top_of_register_into_buffer_post(
            *old(handler),
            *final(handler),
            old(command_stack)@,
            final(command_stack)@,
            r,
        ),
{
    proof {
        lemma_take_all(old(handler).main_stack@);
    }
    let index = match take_selector(handler, command_stack) {
        Some(i) => i,
        None => {
            return no_register();
        },
    };
    if index >= REGISTER_COUNT {
        return not_available(index);
    }
    let depth = handler.registers[index].len();
    if depth == 0 {
        return is_empty(index);
    }
    let copy = handler.registers[index][depth - 1].clone();
    handler.register_buffer = copy;
    Outcome::nothing()
}

/// What `J` does: the top entry leaves the selected register for the
/// buffer.
pub open spec fn pop_top_of_register_into_buffer_post(
    pre: Handler,
    post: Handler,
    frames_pre: Seq<Vec<char>>,
    frames_post: Seq<Vec<char>>,
    r: Outcome,
) -> bool {
    if !addressable(pre, frames_pre) {
        unaddressed(pre, post, frames_pre, frames_post, 0, r)
    } else {
        let index = selected(pre, frames_pre);
        &&& addressed(pre, post, frames_pre, frames_post)
        &&& post.main_stack == pre.main_stack
        &&& if entries(pre, index).len() == 0 {
            &&& post.register_buffer == pre.register_buffer
            &&& entries(post, index) == entries(pre, index)
            &&& r.failed(empty_message(index))
        } else {
            &&& post.register_buffer == entries(pre, index).last()
            &&& entries(post, index) == entries(pre, index).drop_last()
            &&& r.silent()
        }
    }
}

/// Moves the top entry of a register into the buffer.
pub fn pop_top_of_register_into_buffer(
    handler: &mut Handler,
    command_stack: &mut Vec<Vec<char>>,
) -> (r: Outcome)
    requires
        old(handler).wf(),
        old(command_stack)@.len() >= 1,
    ensures
        final(handler).wf(),
        pop_top_of_register_into_buffer_post(
            *old(handler),
            *final(handler),
            old(command_stack)@,
            final(command_stack)@,
            r,
        ),
{
    proof {
        lemma_take_all(old(handler).main_stack@);
    }
    let index = match take_selector(handler, command_stack) {
        Some(i) => i,
        None => {
            return no_register();
        },
    };
    if index >= REGISTER_COUNT {
        return not_available(index);
    }
    match register_pop(handler, index) {
        Some(entry) => {
            handler.register_buffer = entry;
            Outcome::nothing()
        },
        None => is_empty(index),
    }
}

/// What `h` does: a copy of the buffer becomes the top entry of the
/// selected register, in place of the entry that was there.
pub open spec fn save_buffer_to_top_of_register_post(
    pre: Handler,
    post: Handler,
    frames_pre: Seq<Vec<char>>,
    frames_post: Seq<Vec<char>>,
    r: Outcome,
) -> bool {
    if !addressable(pre, frames_pre) {
        unaddressed(pre, post, frames_pre, frames_post, 0, r)
    } else {
        let before = entries(pre, selected(pre, frames_pre));
        let after = entries(post, selected(pre, frames_pre));
        &&& addressed(pre, post, frames_pre, frames_post)
        &&& post.main_stack == pre.main_stack
        &&& post.register_buffer == pre.register_buffer
        &&& after.len() == if before.len() == 0 {
            1
        } else {
            before.len()
        }
        &&& before.len() > 0 ==> after.drop_last() == before.drop_last()
        &&& after.last()@ == pre.register_buffer@
        &&& r.silent()
    }
}

/// Saves the buffer to the top of a register.
pub fn save_buffer_to_top_of_register(
    handler: &mut Handler,
    command_stack: &mut Vec<Vec<char>>,
) -> (r: Outcome)
    requires
        old(handler).wf(),
        old(command_stack)@.len() >= 1,
    ensures
        final(handler).wf(),
        save_buffer_to_top_of_register_post(
            *old(handler),
            *final(handler),
            old(command_stack)@,
            final(command_stack)@,
            r,
        ),
{
    proof {
        lemma_take_all(old(handler).main_stack@);
    }
    let index = match take_selector(handler, command_stack) {
        Some(i) => i,
        None => {
            return no_register();
        },
    };
    if index >= REGISTER_COUNT {
        return not_available(index);
    }
    let _ = register_pop(handler, index);
    let ghost below = entries(*handler, index as int);
    let copy = handler.register_buffer.clone();
    register_push(handler, index, copy);
    assert(entries(*handler, index as int).drop_last() =~= below);
    Outcome::nothing()
}

/// What `H` does: a copy of the buffer becomes a new entry on top of the
/// selected register.
pub open spec fn push_buffer_to_register_post(
    pre: Handler,
    post: Handler,
    frames_pre: Seq<Vec<char>>,
    frames_post: Seq<Vec<char>>,
    r: Outcome,
) -> bool {
    if !addressable(pre, frames_pre) {
        unaddressed(pre, post, frames_pre, frames_post, 0, r)
    } else {
        let before = entries(pre, selected(pre, frames_pre));
        let after = entries(post, selected(pre, frames_pre));
        &&& addressed(pre, post, frames_pre, frames_post)
        &&& post.main_stack == pre.main_stack
        &&& post.register_buffer == pre.register_buffer
        &&& after.len() == before.len() + 1
        &&& after.drop_last() == before
        &&& after.last()@ == pre.register_buffer@
        &&& r.silent()
    }
}

/// Pushes the buffer onto a register.
pub fn push_buffer_to_register(
    handler: &mut Handler,
    command_stack: &mut Vec<Vec<char>>,
) -> (r: Outcome)
    requires
        old(handler).wf(),
        old(command_stack)@.len() >= 1,
    ensures
        final(handler).wf(),
        push_buffer_to_register_post(
            *old(handler),
            *final(handler),
            old(command_stack)@,
            final(command_stack)@,
            r,
        ),
{
    proof {
        lemma_take_all(old(handler).main_stack@);
    }
    let index = match take_selector(handler, command_stack) {
        Some(i) => i,
        None => {
            return no_register();
        },
    };
    if index >= REGISTER_COUNT {
        return not_available(index);
    }
    let ghost before = entries(*handler, index as int);
    let copy = handler.register_buffer.clone();
    register_push(handler, index, copy);
    assert(entries(*handler, index as int).drop_last() =~= before);
    Outcome::nothing()
}

/// What `Z` does: the service makes the number of entries of the selected
/// register a number, to go on the main stack.
pub open spec fn push_register_depth_post(
    pre: Handler,
    post: Handler,
    frames_pre: Seq<Vec<char>>,
    frames_post: Seq<Vec<char>>,
    r: Outcome,
) -> bool {
    if !addressable(pre, frames_pre) {
        unaddressed(pre, post, frames_pre, frames_post, 0, r)
    } else {
        &&& addressed(pre, post, frames_pre, frames_post)
        &&& only_selector_changed(pre, post)
        &&& r.asked(
            pre.working_precision,
            Operation::Unsigned(entries(pre, selected(pre, frames_pre)).len() as u64),
            Pending::Push,
        )
    }
}

/// Asks for the depth of a register as a number.
pub fn push_register_depth(handler: &mut Handler, command_stack: &mut Vec<Vec<char>>) -> (r:
    Outcome)
    requires
        old(handler).wf(),
        old(command_stack)@.len() >= 1,
    ensures
        final(handler).wf(),
        push_register_depth_post(
            *old(handler),
            *final(handler),
            old(command_stack)@,
            final(command_stack)@,
            r,
        ),
{
    proof {
        lemma_take_all(old(handler).main_stack@);
    }
    let index = match take_selector(handler, command_stack) {
        Some(i) => i,
        None => {
            return no_register();
        },
    };
    if index >= REGISTER_COUNT {
        return not_available(index);
    }
    Outcome::request(
        handler.working_precision,
        Operation::Unsigned(handler.registers[index].len() as u64),
        Pending::Push,
    )
}

/// What `,` does: the integer part of the top value becomes the pending
/// selector, where there is such a register.
pub open spec fn register_index_post(pre: Handler, post: Handler, command: char, r: Outcome) -> bool {
    if !passes(command, pre.main_stack@, 1) {
        stopped(pre, post, command, 1, r)
    } else {
        match pre.main_stack@.last() {
            StackObject::Float(a) => if a@.integer() < 0 || a@.integer() > usize::MAX {
                popped(pre, post, 1) && asked_to_describe(
                    r,
                    pre.working_precision,
                    a,
                    "! Register "@,
                    " cannot possibly exist"@,
                )
            } else if a@.integer() >= REGISTER_COUNT {
                popped(pre, post, 1) && r.failed(not_available_message(a@.integer()))
            } else {
                &&& environment_kept(pre, post)
                &&& post.registers == pre.registers
                &&& post.register_buffer == pre.register_buffer
                &&& stack_popped(pre, post, 1)
                &&& post.direct_register_selector == Some(a@.integer() as usize)
                &&& r.silent()
            },
            _ => false,
        }
    }
}

/// Selects a register by number for the next register opcode.
pub fn register_index(
    handler: &mut Handler,
    command_stack: &mut Vec<Vec<char>>,
    command: char,
) -> (r: Outcome)
    requires
        old(handler).wf(),
        command == ',',
    ensures
        final(handler).wf(),
        final(command_stack)@ == old(command_stack)@,
        register_index_post(*old(handler), *final(handler), command, r),
{
    match operands1(handler, command) {
        Err(stop) => stop,
        Ok(a) => match a {
            StackObject::Float(x) => match x.to_usize() {
                Some(index) => {
                    if index < REGISTER_COUNT {
                        handler.direct_register_selector = Some(index);
                        Outcome::nothing()
                    } else {
                        not_available(index)
                    }
                },
                None => describe(
                    handler.working_precision,
                    x,
                    "! Register ",
                    " cannot possibly exist",
                ),
            },
            _ => {
                assert(false);
                Outcome::nothing()
            },
        },
    }
}

} // verus!
