use crate::commands::{
    asked_to_describe, describe, operands1, passes, popped, push, pushed_value, rest_unchanged,
    stopped,
};
use crate::handler::{clone_values, values, Handler, StackObject};
use crate::number::Number;
use crate::service::{Operation, Outcome, Pending};
use crate::text::owned;
use vstd::prelude::*;

verus! {

/// Empties the main stack.
pub fn clear_stack(handler: &mut Handler) -> (r: Outcome)
    ensures
        rest_unchanged(*old(handler), *final(handler)),
        final(handler).main_stack@.len() == 0,
        r.silent(),
{
    handler.main_stack.clear();
    Outcome::nothing()
}

/// What `C` does: the count goes off the main stack, and with it as many
/// values as it says, or all there are.
pub open spec fn remove_objects_post(pre: Handler, post: Handler, command: char, r: Outcome) -> bool {
    if !passes(command, pre.main_stack@, 1) {
        stopped(pre, post, command, 1, r)
    } else {
        match pre.main_stack@.last() {
            StackObject::Float(a) => if a@.integer() < 0 || a@.integer() > usize::MAX {
                popped(pre, post, 1) && asked_to_describe(
                    r,
                    pre.working_precision,
                    a,
                    "! Cannot possibly remove "@,
                    " objects from the main stack"@,
                )
            } else {
                let left = pre.main_stack@.len() - 1;
                let gone = if a@.integer() > left {
                    left
                } else {
                    a@.integer()
                };
                popped(pre, post, (1 + gone) as nat) && r.silent()
            },
            _ => false,
        }
    }
}

/// Removes values from the main stack.
pub fn remove_objects(handler: &mut Handler, command: char) -> (r: Outcome)
    requires
        command == 'C',
    ensures
        remove_objects_post(*old(handler), *final(handler), command, r),
{
    match operands1(handler, command) {
        Err(stop) => stop,
        Ok(a) => match a {
            StackObject::Float(x) => match x.to_usize() {
                Some(count) => {
                    let left = handler.main_stack.len();
                    let gone = if count > left {
                        left
                    } else {
                        count
                    };
                    let ghost before = handler.main_stack@;
                    handler.main_stack.truncate(left - gone);
                    assert(before.subrange(0, left - gone) =~= old(handler).main_stack@.take(
                        old(handler).main_stack@.len() - (1 + gone),
                    ));
                    Outcome::nothing()
                },
                None => describe(
                    handler.working_precision,
                    x,
                    "! Cannot possibly remove ",
                    " objects from the main stack",
                ),
            },
            _ => {
                assert(false);
                Outcome::nothing()
            },
        },
    }
}

/// What `d` does: a copy of the top value goes on the main stack.
pub open spec fn duplicate_object_post(pre: Handler, post: Handler, r: Outcome) -> bool {
    if pre.main_stack@.len() == 0 {
        post == pre && r.failed("! Nothing to duplicate"@)
    } else {
        pushed_value(pre, post, pre.main_stack@.last()@) && r.silent()
    }
}

/// Duplicates the top of the main stack.
pub fn duplicate_object(handler: &mut Handler) -> (r: Outcome)
    ensures
        duplicate_object_post(*old(handler), *final(handler), r),
{
    let n = handler.main_stack.len();
    if n == 0 {
        Outcome::failure(owned("! Nothing to duplicate"))
    } else {
        let copy = handler.main_stack[n - 1].clone();
        push(handler, copy);
        Outcome::nothing()
    }
}

/// What `D` does: the count goes off the main stack, and copies of as many
/// values as it says go on top, in their order.
pub open spec fn duplicate_objects_post(
    pre: Handler,
    post: Handler,
    command: char,
    r: Outcome,
) -> bool {
    if !passes(command, pre.main_stack@, 1) {
        stopped(pre, post, command, 1, r)
    } else {
        match pre.main_stack@.last() {
            StackObject::Float(a) => if a@.integer() < 0 || a@.integer() > usize::MAX {
                popped(pre, post, 1) && asked_to_describe(
                    r,
                    pre.working_precision,
                    a,
                    "! Cannot possibly duplicate "@,
                    " objects"@,
                )
            } else if a@.integer() > pre.main_stack@.len() - 1 {
                popped(pre, post, 1) && r.failed("! Not enough objects to duplicate"@)
            } else {
                let left = pre.main_stack@.len() - 1;
                &&& rest_unchanged(pre, post)
                &&& post.main_stack@.len() == left + a@.integer()
                &&& post.main_stack@.take(left) == pre.main_stack@.take(left)
                &&& values(post.main_stack@.skip(left)) == values(
                    pre.main_stack@.subrange(left - a@.integer(), left),
                )
                &&& r.silent()
            },
            _ => false,
        }
    }
}

/// Duplicates the top values of the main stack.
pub fn duplicate_objects(handler: &mut Handler, command: char) -> (r: Outcome)
    requires
        command == 'D',
    ensures
        duplicate_objects_post(*old(handler), *final(handler), command, r),
{
    match operands1(handler, command) {
        Err(stop) => stop,
        Ok(a) => match a {
            StackObject::Float(x) => match x.to_usize() {
                Some(count) => {
                    let left = handler.main_stack.len();
                    if count <= left {
                        let ghost before = handler.main_stack@;
                        let mut copies = clone_values(&handler.main_stack, left - count);
                        let ghost added = copies@;
                        handler.main_stack.append(&mut copies);
                        assert(handler.main_stack@ =~= before + added);
                        assert(handler.main_stack@.take(left as int) =~= before);
                        assert(before =~= old(handler).main_stack@.take(left as int));
                        assert(handler.main_stack@.skip(left as int) =~= added);
                        assert(before.skip(left - count) =~= old(handler).main_stack@.subrange(
                            left - count,
                            left as int,
                        ));
                        Outcome::nothing()
                    } else {
                        Outcome::failure(owned("! Not enough objects to duplicate"))
                    }
                },
                None => describe(
                    handler.working_precision,
                    x,
                    "! Cannot possibly duplicate ",
                    " objects",
                ),
            },
            _ => {
                assert(false);
                Outcome::nothing()
            },
        },
    }
}

/// What `r` does: the two top values change places.
pub open spec fn swap_objects_post(pre: Handler, post: Handler, r: Outcome) -> bool {
    let n = pre.main_stack@.len() as int;
    if n < 2 {
        post == pre && r.failed("! Not enough objects to rotate"@)
    } else {
        &&& rest_unchanged(pre, post)
        &&& post.main_stack@ == pre.main_stack@.update(n - 2, pre.main_stack@[n - 1]).update(
            n - 1,
            pre.main_stack@[n - 2],
        )
        &&& r.silent()
    }
}

/// Swaps the two top values of the main stack.
pub fn swap_objects(handler: &mut Handler) -> (r: Outcome)
    ensures
        swap_objects_post(*old(handler), *final(handler), r),
{
    if handler.main_stack.len() >= 2 {
        let b = handler.main_stack.pop().unwrap();
        let a = handler.main_stack.pop().unwrap();
        handler.main_stack.push(b);
        handler.main_stack.push(a);
        let ghost n = old(handler).main_stack@.len() as int;
        assert(handler.main_stack@ =~= old(handler).main_stack@.update(
            n - 2,
            old(handler).main_stack@[n - 1],
        ).update(n - 1, old(handler).main_stack@[n - 2]));
        Outcome::nothing()
    } else {
        Outcome::failure(owned("! Not enough objects to rotate"))
    }
}

/// The values with the top one moved to the bottom, or, `down`, the bottom
/// one moved to the top.
pub open spec fn rotated(s: Seq<StackObject>, down: bool) -> Seq<StackObject> {
    if s.len() == 0 {
        s
    } else if down {
        s.skip(1) + s.take(1)
    } else {
        s.skip(s.len() - 1) + s.take(s.len() - 1)
    }
}

/// How many values a count asks to rotate: zero asks for one, which
/// changes nothing.
pub open spec fn rotation(count: int) -> int {
    if count == 0 {
        1
    } else {
        vstd::math::abs(count) as int
    }
}

/// What `R` does: the count goes off the main stack, and as many values as
/// it says are rotated: the top one to the bottom, or the bottom one to the
/// top where the count is negative.
pub open spec fn rotate_objects_post(pre: Handler, post: Handler, command: char, r: Outcome) -> bool {
    if !passes(command, pre.main_stack@, 1) {
        stopped(pre, post, command, 1, r)
    } else {
        match pre.main_stack@.last() {
            StackObject::Float(a) => {
                let left = pre.main_stack@.len() - 1;
                let count = rotation(a@.integer());
                if count > usize::MAX {
                    &&& popped(pre, post, 1)
                    &&& r.output@.len() == 0
                    &&& r.ask matches Some(ask)
                    &&& ask.request.precision == pre.working_precision
                    &&& ask.request.operation matches Operation::Describe(numbers)
                    &&& numbers@.len() == 1
                    &&& numbers@[0]@ == a@.abs()
                    &&& ask.pending matches Pending::Fail { parts }
                    &&& parts@.len() == 2
                    &&& parts@[0]@ == "! Cannot possibly rotate "@
                    &&& parts@[1]@ == " objects"@
                } else if count > left {
                    popped(pre, post, 1) && r.failed("! Not enough objects to rotate"@)
                } else {
                    &&& rest_unchanged(pre, post)
                    &&& post.main_stack@ == pre.main_stack@.take(left - count) + rotated(
                        pre.main_stack@.subrange(left - count, left),
                        a@.integer() < 0,
                    )
                    &&& r.silent()
                }
            },
            _ => false,
        }
    }
}

/// Rotates the top values of the main stack.
pub fn rotate_objects(handler: &mut Handler, command: char) -> (r: Outcome)
    requires
        command == 'R',
    ensures
        rotate_objects_post(*old(handler), *final(handler), command, r),
{
    match operands1(handler, command) {
        Err(stop) => stop,
        Ok(a) => match a {
            StackObject::Float(x) => {
                let down = x.integer_is_negative();
                let wanted = if x.integer_is_zero() {
                    Some(1usize)
                } else {
                    x.magnitude_usize()
                };
                match wanted {
                    Some(count) => {
                        let left = handler.main_stack.len();
                        if count <= left {
                            let ghost before = handler.main_stack@;
                            assert(before =~= old(handler).main_stack@.take(left as int));
                            if down {
                                let moved = handler.main_stack.remove(left - count);
                                handler.main_stack.push(moved);
                            } else {
                                let moved = handler.main_stack.pop().unwrap();
                                handler.main_stack.insert(left - count, moved);
                            }
                            assert(handler.main_stack@ =~= old(handler).main_stack@.take(
                                left - count,
                            ) + rotated(
                                old(handler).main_stack@.subrange(left - count, left as int),
                                down,
                            ));
                            Outcome::nothing()
                        } else {
                            Outcome::failure(owned("! Not enough objects to rotate"))
                        }
                    },
                    None => {
                        let positive = Number {
                            class: x.class,
                            negative: false,
                            mantissa: x.mantissa,
                            exponent: x.exponent,
                            precision: x.precision,
                        };
                        let mut numbers: Vec<Number> = Vec::new();
                        numbers.push(positive);
                        let mut parts: Vec<String> = Vec::new();
                        parts.push(owned("! Cannot possibly rotate "));
                        parts.push(owned(" objects"));
                        Outcome::request(
                            handler.working_precision,
                            Operation::Describe(numbers),
                            Pending::Fail { parts },
                        )
                    },
                }
            },
            _ => {
                assert(false);
                Outcome::nothing()
            },
        },
    }
}

/// What `z` does: the service makes the depth of the main stack a number,
/// to go on top of it.
pub open spec fn push_stack_depth_post(pre: Handler, post: Handler, r: Outcome) -> bool {
    post == pre && r.asked(
        pre.working_precision,
        Operation::Unsigned(pre.main_stack@.len() as u64),
        Pending::Push,
    )
}

/// Asks for the depth of the main stack as a number.
pub fn push_stack_depth(handler: &mut Handler) -> (r: Outcome)
    ensures
        push_stack_depth_post(*old(handler), *final(handler), r),
{
    Outcome::request(
        handler.working_precision,
        Operation::Unsigned(handler.main_stack.len() as u64),
        Pending::Push,
    )
}

} // verus!
