use crate::commands::arithmetic::replaced;
use crate::commands::register::{
    addressable, empty_message, entries, environment_kept, is_empty, not_available, selected,
    skip_selector, stack_popped, stopped_skipping, take_selector, unaddressed_saying,
};
use crate::commands::{
    arity, asked_to_describe, check_n, describe, insufficient_message, operands1, operands2,
    passes, popped, push, rest_unchanged, stopped, top_frame_becomes,
};
use crate::handler::{Command, Handler, Output, StackObject, Value, REGISTER_COUNT};
use crate::number::Relation;
use crate::service::{Operation, Outcome, Pending};
use crate::text::{
    char_from_u32, chars_of, code_of, compose, decimal, owned, reversed, string_of, write_decimal,
};
use vstd::prelude::*;
use vstd::string::StrSliceExecFns;

verus! {

/// What `a` does: the first character of a text becomes its number, which
/// the service makes; the integer part of a number becomes the character
/// with that number.
pub open spec fn convert_type_post(pre: Handler, post: Handler, command: char, r: Outcome) -> bool {
    if !passes(command, pre.main_stack@, 1) {
        stopped(pre, post, command, 1, r)
    } else {
        match pre.main_stack@.last() {
            StackObject::String(s) => popped(pre, post, 1) && if s@.len() == 0 {
                r.failed("! Cannot convert empty string to number"@)
            } else {
                r.asked(pre.working_precision, Operation::Unsigned(s@[0] as u64), Pending::Push)
            },
            StackObject::Float(a) => if a@.integer() < 0 || a@.integer() > u32::MAX {
                popped(pre, post, 1) && asked_to_describe(
                    r,
                    pre.working_precision,
                    a,
                    "! Unable to convert number "@,
                    " to character: valid range is 0 to 4294967295"@,
                )
            } else if !vstd::utf8::is_scalar(a@.integer() as u32) {
                popped(pre, post, 1) && r.failed(
                    "! Unable to convert number "@ + decimal(a@.integer() as nat)
                        + " to character: not a valid Unicode value"@,
                )
            } else {
                replaced(pre, post, 1, Value::String(seq![a@.integer() as u32 as char]))
                    && r.silent()
            },
        }
    }
}

/// Turns a number into a character or a text into the number of its first
/// character.
pub fn convert_type(handler: &mut Handler, command: char) -> (r: Outcome)
    requires
        command == 'a',
    ensures
        convert_type_post(*old(handler), *final(handler), command, r),
{
    match operands1(handler, command) {
        Err(stop) => stop,
        Ok(a) => match a {
            StackObject::String(s) => {
                let chars = chars_of(s.as_str());
                if chars.len() == 0 {
                    Outcome::failure(owned("! Cannot convert empty string to number"))
                } else {
                    Outcome::request(
                        handler.working_precision,
                        Operation::Unsigned(code_of(chars[0]) as u64),
                        Pending::Push,
                    )
                }
            },
            StackObject::Float(x) => match x.to_u32() {
                Some(v) => match char_from_u32(v) {
                    Some(c) => {
                        let mut text: Vec<char> = Vec::new();
                        text.push(c);
                        proof {
                            vstd::utf8::char_u32_cast(c, v);
                        }
                        assert(text@ =~= seq![x@.integer() as u32 as char]);
                        push(handler, StackObject::String(string_of(&text)));
                        Outcome::nothing()
                    },
                    None => Outcome::failure(
                        compose(
                            "! Unable to convert number ",
                            &write_decimal(v as u64),
                            " to character: not a valid Unicode value",
                        ),
                    ),
                },
                None => describe(
                    handler.working_precision,
                    x,
                    "! Unable to convert number ",
                    " to character: valid range is 0 to 4294967295",
                ),
            },
        },
    }
}

/// What `A` does: the service makes the bytes of a text in UTF-8 one
/// number, or gives the bytes of a number's integer part, to be read as a
/// text in UTF-8.
pub open spec fn convert_utf8_post(pre: Handler, post: Handler, command: char, r: Outcome) -> bool {
    if !passes(command, pre.main_stack@, 1) {
        stopped(pre, post, command, 1, r)
    } else {
        &&& popped(pre, post, 1)
        &&& r.output@.len() == 0
        &&& r.ask matches Some(ask)
        &&& ask.request.precision == pre.working_precision
        &&& match pre.main_stack@.last() {
            StackObject::String(s) => {
                &&& ask.request.operation matches Operation::Bytes(bytes)
                &&& bytes@ == vstd::utf8::encode_utf8(s@)
                &&& ask.pending == Pending::Push
            },
            StackObject::Float(a) => {
                &&& ask.request.operation == Operation::ToBytes(a)
                &&& ask.pending matches Pending::Utf8 { number }
                &&& number@ == a@
            },
        }
    }
}

/// Turns a text into the number that its bytes spell, or asks for the
/// bytes of a number.
pub fn convert_utf8(handler: &mut Handler, command: char) -> (r: Outcome)
    requires
        command == 'A',
    ensures
        convert_utf8_post(*old(handler), *final(handler), command, r),
{
    match operands1(handler, command) {
        Err(stop) => stop,
        Ok(a) => match a {
            StackObject::String(s) => Outcome::request(
                handler.working_precision,
                Operation::Bytes(s.as_str().as_bytes_vec()),
                Pending::Push,
            ),
            StackObject::Float(x) => {
                let pending = Pending::Utf8 { number: x.clone() };
                Outcome::request(handler.working_precision, Operation::ToBytes(x), pending)
            },
        },
    }
}

/// What answering `A` with bytes does: the text that they encode goes on
/// the main stack; where they encode none, the service is asked for the
/// number in decimal, to report the failure.
pub open spec fn utf8_answered_post(
    pre: Handler,
    post: Handler,
    number: crate::number::Number,
    bytes: Seq<u8>,
    r: Outcome,
) -> bool {
    if vstd::utf8::valid_utf8(bytes) {
        crate::commands::pushed_value(pre, post, Value::String(vstd::utf8::decode_utf8(bytes)))
            && r.silent()
    } else {
        post == pre && asked_to_describe(
            r,
            pre.working_precision,
            number,
            "! Unable to convert number "@,
            " to string: not valid UTF-8"@,
        )
    }
}

/// Reads the bytes of a number as a text.
pub fn utf8_answered(handler: &mut Handler, number: crate::number::Number, bytes: Vec<u8>) -> (r:
    Outcome)
    ensures
        utf8_answered_post(*old(handler), *final(handler), number, bytes@, r),
{
    match crate::text::string_from_utf8(bytes) {
        Some(text) => {
            push(handler, StackObject::String(text));
            Outcome::nothing()
        },
        None => describe(
            handler.working_precision,
            number,
            "! Unable to convert number ",
            " to string: not valid UTF-8",
        ),
    }
}

/// The texts of the frames, one by one. A frame holds its pending text back
/// to front: the next character is its last.
pub open spec fn frame_views(frames: Seq<Vec<char>>) -> Seq<Seq<char>> {
    frames.map_values(|f: Vec<char>| f@)
}

/// The frames once the macro `text` is called: it becomes the top frame, in
/// place of the one that was there where that one has nothing left.
pub open spec fn after_call(frames: Seq<Seq<char>>, text: Seq<char>) -> Seq<Seq<char>> {
    if frames.len() > 0 && frames.last().len() == 0 {
        frames.drop_last().push(text.reverse())
    } else {
        frames.push(text.reverse())
    }
}

/// The frames once a selector is taken off the top one.
pub open spec fn after_selector(frames: Seq<Seq<char>>) -> Seq<Seq<char>> {
    frames.drop_last().push(frames.last().drop_last())
}

/// Calls a macro: its text becomes the top frame, in place of the one that
/// was there where that one has nothing left.
pub fn call(command_stack: &mut Vec<Vec<char>>, text: &String)
    ensures
        frame_views(final(command_stack)@) == after_call(frame_views(old(command_stack)@), text@),
{
    let n = command_stack.len();
    if n > 0 && command_stack[n - 1].len() == 0 {
        command_stack.pop();
        assert(frame_views(command_stack@) =~= frame_views(old(command_stack)@).drop_last());
    }
    let ghost kept = frame_views(command_stack@);
    let frame = reversed(&chars_of(text.as_str()));
    command_stack.push(frame);
    assert(frame_views(command_stack@) =~= kept.push(text@.reverse()));
}

/// What `x` does: a text on top of the main stack is called as a macro; a
/// number stays where it is.
pub open spec fn execute_macro_post(
    pre: Handler,
    post: Handler,
    frames_pre: Seq<Vec<char>>,
    frames_post: Seq<Vec<char>>,
    command: char,
    r: Outcome,
) -> bool {
    if pre.main_stack@.len() < arity(command) {
        post == pre && frames_post == frames_pre && r.failed(insufficient_message(command))
    } else {
        match pre.main_stack@.last() {
            StackObject::String(s) => {
                &&& popped(pre, post, 1)
                &&& frame_views(frames_post) == after_call(frame_views(frames_pre), s@)
                &&& r.silent()
            },
            StackObject::Float(_) => {
                &&& rest_unchanged(pre, post)
                &&& post.main_stack@ == pre.main_stack@
                &&& frames_post == frames_pre
                &&& r.silent()
            },
        }
    }
}

/// Executes the text on top of the main stack as a macro.
pub fn execute_macro(
    handler: &mut Handler,
    command_stack: &mut Vec<Vec<char>>,
    command: char,
) -> (r: Outcome)
    ensures
        execute_macro_post(
            *old(handler),
            *final(handler),
            old(command_stack)@,
            final(command_stack)@,
            command,
            r,
        ),
{
    let mut output: Vec<Output> = Vec::new();
    if !check_n(command, handler.main_stack.len(), &mut output) {
        return Outcome { output, ask: None };
    }
    let a = handler.main_stack.pop().unwrap();
    match a {
        StackObject::String(s) => {
            assert(old(handler).main_stack@.drop_last() =~= old(handler).main_stack@.take(
                old(handler).main_stack@.len() - 1,
            ));
            call(command_stack, &s);
            Outcome::nothing()
        },
        StackObject::Float(x) => {
            handler.main_stack.push(StackObject::Float(x));
            assert(handler.main_stack@ =~= old(handler).main_stack@);
            Outcome::nothing()
        },
    }
}

/// Turns the flag that inverts the next conditional.
pub fn invert(inv: &mut bool) -> (r: Outcome)
    ensures
        *final(inv) == !*old(inv),
        r.silent(),
{
    *inv = !*inv;
    Outcome::nothing()
}

/// Whether the test that `command` names holds of `a` and `b`.
pub open spec fn holds(command: char, a: crate::number::NumberView, b: crate::number::NumberView) -> bool {
    if command == '<' {
        a.order(b) == Relation::Less
    } else if command == '=' {
        a.order(b) == Relation::Equal
    } else {
        a.order(b) == Relation::Greater
    }
}

/// The frames once the selector of a register opcode is used up.
pub open spec fn selector_gone(pre: Handler, frames: Seq<Vec<char>>) -> Seq<Seq<char>> {
    if pre.direct_register_selector is Some {
        frame_views(frames)
    } else {
        after_selector(frame_views(frames))
    }
}

/// What `<`, `=` and `>` do: the two top numbers go off the main stack and
/// are compared, the top one first; where the test holds, or fails with
/// the flag set, the text on top of the selected register is called as a
/// macro, unless it is empty. The flag is cleared whatever happens.
pub open spec fn if_macro_post(
    pre: Handler,
    post: Handler,
    frames_pre: Seq<Vec<char>>,
    frames_post: Seq<Vec<char>>,
    command: char,
    inverted: bool,
    r: Outcome,
) -> bool {
    if !passes(command, pre.main_stack@, 2) {
        stopped_skipping(pre, post, frames_pre, frames_post, command, 2, r)
    } else if !addressable(pre, frames_pre) {
        unaddressed_saying(
            pre,
            post,
            frames_pre,
            frames_post,
            2,
            "! No register name provided"@,
            r,
        )
    } else {
        let index = selected(pre, frames_pre);
        &&& environment_kept(pre, post)
        &&& post.registers == pre.registers
        &&& post.register_buffer == pre.register_buffer
        &&& post.direct_register_selector is None
        &&& stack_popped(pre, post, 2)
        &&& pre.main_stack@.last() matches StackObject::Float(a)
        &&& pre.main_stack@[pre.main_stack@.len() - 2] matches StackObject::Float(b)
        &&& if entries(pre, index).len() == 0 {
            frame_views(frames_post) == selector_gone(pre, frames_pre) && r.failed(
                empty_message(index),
            )
        } else {
            &&& r.silent()
            &&& frame_views(frames_post) == match entries(pre, index).last().primary {
                StackObject::String(text) => if text@.len() > 0 && inverted != holds(
                    command,
                    a@,
                    b@,
                ) {
                    after_call(selector_gone(pre, frames_pre), text@)
                } else {
                    selector_gone(pre, frames_pre)
                },
                StackObject::Float(_) => selector_gone(pre, frames_pre),
            }
        }
    }
}

/// Calls a macro if a comparison holds.
pub fn if_macro(
    handler: &mut Handler,
    command_stack: &mut Vec<Vec<char>>,
    command: char,
    inv: &mut bool,
) -> (r: Outcome)
    requires
        old(handler).wf(),
        old(command_stack)@.len() >= 1,
        command == '<' || command == '=' || command == '>',
    ensures
        final(handler).wf(),
        *final(inv) == false,
        if_macro_post(
            *old(handler),
            *final(handler),
            old(command_stack)@,
            final(command_stack)@,
            command,
            *old(inv),
            r,
        ),
{
    let inverted = *inv;
    *inv = false;
    let (b, a) = match operands2(handler, command) {
        Ok(pair) => pair,
        Err(stop) => {
            skip_selector(handler, command_stack);
            return stop;
        },
    };
    let index = match take_selector(handler, command_stack) {
        Some(i) => i,
        None => {
            return Outcome::failure(owned("! No register name provided"));
        },
    };
    if index >= REGISTER_COUNT {
        return not_available(index);
    }
    proof {
        let before = old(command_stack)@;
        if old(handler).direct_register_selector is None {
            assert(frame_views(command_stack@) =~= after_selector(frame_views(before))) by {
                assert(frame_views(command_stack@).drop_last() =~= frame_views(
                    command_stack@.drop_last(),
                ));
                assert(frame_views(before).drop_last() =~= frame_views(before.drop_last()));
            }
        }
    }
    let depth = handler.registers[index].len();
    if depth == 0 {
        return is_empty(index);
    }
    match (&handler.registers[index][depth - 1].primary, a, b) {
        (StackObject::String(text), StackObject::Float(x), StackObject::Float(y)) => {
            let relation = x.compare(&y);
            let test = if command == '<' {
                relation == Relation::Less
            } else if command == '=' {
                relation == Relation::Equal
            } else {
                relation == Relation::Greater
            };
            if text.as_str().unicode_len() > 0 && inverted != test {
                call(command_stack, text);
            }
            Outcome::nothing()
        },
        (StackObject::Float(_), StackObject::Float(_), StackObject::Float(_)) => Outcome::nothing(),
        _ => {
            assert(false);
            Outcome::nothing()
        },
    }
}

/// The frames once a macro is called `count` times over.
pub open spec fn after_calls(frames: Seq<Seq<char>>, text: Seq<char>, count: nat) -> Seq<Seq<char>> {
    let kept = if frames.len() > 0 && frames.last().len() == 0 {
        frames.drop_last()
    } else {
        frames
    };
    kept + Seq::new(count, |i: int| text.reverse())
}

/// What `X` does: the text below the top of the main stack is called as a
/// macro as many times over as the number on top says.
pub open spec fn auto_macro_post(
    pre: Handler,
    post: Handler,
    frames_pre: Seq<Vec<char>>,
    frames_post: Seq<Vec<char>>,
    command: char,
    r: Outcome,
) -> bool {
    if !passes(command, pre.main_stack@, 2) {
        stopped(pre, post, command, 2, r) && frames_post == frames_pre
    } else {
        match (pre.main_stack@[pre.main_stack@.len() - 2], pre.main_stack@.last()) {
            (StackObject::String(text), StackObject::Float(count)) => {
                &&& popped(pre, post, 2)
                &&& if count@.integer() < 0 || count@.integer() > usize::MAX {
                    frames_post == frames_pre && asked_to_describe(
                        r,
                        pre.working_precision,
                        count,
                        "! Invalid macro repeat count: "@,
                        ""@,
                    )
                } else {
                    frame_views(frames_post) == after_calls(
                        frame_views(frames_pre),
                        text@,
                        count@.integer() as nat,
                    ) && r.silent()
                }
            },
            _ => false,
        }
    }
}

/// Calls a macro several times over.
pub fn auto_macro(
    handler: &mut Handler,
    command_stack: &mut Vec<Vec<char>>,
    command: char,
) -> (r: Outcome)
    requires
        command == 'X',
    ensures
        auto_macro_post(
            *old(handler),
            *final(handler),
            old(command_stack)@,
            final(command_stack)@,
            command,
            r,
        ),
{
    match operands2(handler, command) {
        Err(stop) => stop,
        Ok((a, b)) => match (a, b) {
            (StackObject::String(text), StackObject::Float(count)) => match count.to_usize() {
                Some(times) => {
                    let n = command_stack.len();
                    if n > 0 && command_stack[n - 1].len() == 0 {
                        command_stack.pop();
                        assert(frame_views(command_stack@) =~= frame_views(
                            old(command_stack)@,
                        ).drop_last());
                    }
                    let ghost kept = frame_views(command_stack@);
                    let frame = reversed(&chars_of(text.as_str()));
                    let mut i: usize = 0;
                    assert(kept + Seq::new(0, |k: int| text@.reverse()) =~= kept);
                    while i < times
                        invariant
                            i <= times,
                            frame@ == text@.reverse(),
                            frame_views(command_stack@) == kept + Seq::new(
                                i as nat,
                                |k: int| text@.reverse(),
                            ),
                        decreases times - i,
                    {
                        let ghost so_far = frame_views(command_stack@);
                        command_stack.push(frame.clone());
                        assert(frame_views(command_stack@) =~= so_far.push(text@.reverse()));
                        i = i + 1;
                        assert(frame_views(command_stack@) =~= kept + Seq::new(
                            i as nat,
                            |k: int| text@.reverse(),
                        ));
                    }
                    Outcome::nothing()
                },
                None => describe(
                    handler.working_precision,
                    count,
                    "! Invalid macro repeat count: ",
                    "",
                ),
            },
            _ => {
                assert(false);
                Outcome::nothing()
            },
        },
    }
}

/// What `q` does: the session is asked to end, with the pending selector
/// for its exit code, or zero.
pub open spec fn quit_post(handler: Handler, r: Outcome) -> bool {
    r.said(
        "Exiting..."@,
        Command::Exit(
            match handler.direct_register_selector {
                Some(code) => code as i32,
                None => 0,
            },
        ),
    )
}

/// Asks for the session to end.
pub fn quit(handler: &mut Handler) -> (r: Outcome)
    requires
        old(handler).wf(),
    ensures
        *final(handler) == *old(handler),
        quit_post(*old(handler), r),
{
    let code: i32 = match handler.direct_register_selector {
        Some(code) => code as i32,
        None => 0,
    };
    Outcome::success(owned("Exiting..."), Command::Exit(code))
}

/// What `Q` does: as many frames as the number on top of the main stack
/// says are given up, or all there are; one empty frame is left where none
/// would be.
pub open spec fn quit_macro_post(
    pre: Handler,
    post: Handler,
    frames_pre: Seq<Vec<char>>,
    frames_post: Seq<Vec<char>>,
    command: char,
    r: Outcome,
) -> bool {
    if !passes(command, pre.main_stack@, 1) {
        stopped(pre, post, command, 1, r) && frames_post == frames_pre
    } else {
        match pre.main_stack@.last() {
            StackObject::Float(a) => {
                &&& popped(pre, post, 1)
                &&& if a@.integer() < 0 || a@.integer() > usize::MAX {
                    frames_post == frames_pre && asked_to_describe(
                        r,
                        pre.working_precision,
                        a,
                        "! Cannot possibly quit "@,
                        " levels"@,
                    )
                } else if a@.integer() >= frames_pre.len() {
                    frames_post.len() == 1 && frames_post[0]@.len() == 0 && r.silent()
                } else {
                    frames_post == frames_pre.take(frames_pre.len() - a@.integer()) && r.silent()
                }
            },
            _ => false,
        }
    }
}

/// Gives up frames.
pub fn quit_macro(
    handler: &mut Handler,
    command_stack: &mut Vec<Vec<char>>,
    command: char,
) -> (r: Outcome)
    requires
        command == 'Q',
    ensures
        quit_macro_post(
            *old(handler),
            *final(handler),
            old(command_stack)@,
            final(command_stack)@,
            command,
            r,
        ),
{
    match operands1(handler, command) {
        Err(stop) => stop,
        Ok(a) => match a {
            StackObject::Float(x) => match x.to_usize() {
                Some(count) => {
                    let depth = command_stack.len();
                    if count >= depth {
                        command_stack.clear();
                        command_stack.push(Vec::new());
                    } else {
                        command_stack.truncate(depth - count);
                    }
                    Outcome::nothing()
                },
                None => describe(handler.working_precision, x, "! Cannot possibly quit ", " levels"),
            },
            _ => {
                assert(false);
                Outcome::nothing()
            },
        },
    }
}

/// Prompting for input is not supported: a failure says so.
pub fn prompt(handler: &mut Handler, command_stack: &mut Vec<Vec<char>>, command: char) -> (r:
    Outcome)
    ensures
        *final(handler) == *old(handler),
        final(command_stack)@ == old(command_stack)@,
        r.failed("! Prompts are not yet supported"@),
{
    Outcome::failure(owned("! Prompts are not yet supported"))
}

/// Running a file as a script is not supported: a failure says so.
pub fn execute_as_script(
    handler: &mut Handler,
    command_stack: &mut Vec<Vec<char>>,
    command: char,
) -> (r: Outcome)
    ensures
        *final(handler) == *old(handler),
        final(command_stack)@ == old(command_stack)@,
        r.failed("! Execute As Script is not yet supported"@),
{
    Outcome::failure(owned("! Execute As Script is not yet supported"))
}

/// Reading the environment is not supported: a failure says so.
pub fn get_env(handler: &mut Handler, command_stack: &mut Vec<Vec<char>>, command: char) -> (r:
    Outcome)
    ensures
        *final(handler) == *old(handler),
        final(command_stack)@ == old(command_stack)@,
        r.failed("! Get Environment Variable is not yet supported"@),
{
    Outcome::failure(owned("! Get Environment Variable is not yet supported"))
}

/// Running commands of the operating system is not supported: a failure
/// says so.
pub fn execute_os(handler: &mut Handler, command_stack: &mut Vec<Vec<char>>, command: char) -> (r:
    Outcome)
    ensures
        *final(handler) == *old(handler),
        final(command_stack)@ == old(command_stack)@,
        r.failed("! Execute OS is not yet supported"@),
{
    Outcome::failure(owned("! Execute OS is not yet supported"))
}

/// Gives up what is left of the top frame.
pub fn stop_on_comment(command_stack: &mut Vec<Vec<char>>) -> (r: Outcome)
    requires
        old(command_stack)@.len() >= 1,
    ensures
        top_frame_becomes(old(command_stack)@, final(command_stack)@, Seq::empty()),
        r.silent(),
{
    command_stack.pop();
    command_stack.push(Vec::new());
    assert(command_stack@.drop_last() =~= old(command_stack)@.drop_last());
    Outcome::nothing()
}

} // verus!
