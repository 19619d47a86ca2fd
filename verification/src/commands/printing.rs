use crate::commands::check_n;
use crate::commands::notation::{
    asks_digits, float_to_string, own_precision, precision_of, ready_text, render, render_post,
    Rendered, Rendering, Stage,
};
use crate::commands::register::{
    addressable, entries, lemma_take_all, no_register, not_available, only_selector_changed,
    selected, selector_used, take_selector, unaddressed,
};
use crate::commands::{arity, insufficient_message};
use crate::handler::{says, success, Command, Handler, Output, StackObject, Value, REGISTER_COUNT};
use crate::service::{
    line_views, Ask, Line, LineView, Operation, Outcome, Pending, Reply, Request,
};
use crate::text::{append, append_chars, chars_of, decimal, owned, string_of, write_decimal};
use vstd::prelude::*;

verus! {

/// The text of a value that needs no digits worked out.
pub open spec fn bare_text(value: Value, base: int) -> Option<Seq<char>> {
    match value {
        Value::String(s) => Some(s),
        Value::Float(n) => ready_text(n.class, base),
    }
}

/// The first line from `at` on whose value needs digits worked out; the
/// number of lines where there is none.
pub open spec fn first_waiting(lines: Seq<LineView>, at: int, base: int) -> int
    decreases lines.len() - at,
{
    if at < 0 || at >= lines.len() {
        lines.len() as int
    } else if bare_text(lines[at].value, base) is None {
        at
    } else {
        first_waiting(lines, at + 1, base)
    }
}

/// A line with `shown` for its value.
pub open spec fn line_text(line: LineView, shown: Seq<char>) -> Seq<char> {
    line.before + shown + line.after
}

/// What printing lines from `at` on gives, after `already`: one success
/// for each line up to the first whose value needs digits worked out, for
/// which the service is asked, the rest of the lines waiting.
pub open spec fn printed(
    handler: Handler,
    lines: Seq<LineView>,
    at: int,
    already: Seq<Output>,
    r: Outcome,
) -> bool {
    let base = handler.context().output_base@.integer();
    let stop = first_waiting(lines, at, base);
    &&& r.output@.len() == already.len() + (stop - at)
    &&& r.output@.take(already.len() as int) == already
    &&& forall|i: int|
        at <= i < stop ==> says(
            #[trigger] r.output@[already.len() + (i - at)],
            line_text(lines[i], bare_text(lines[i].value, base)->0),
            lines[i].command,
        )
    &&& if stop == lines.len() {
        r.ask is None
    } else {
        &&& r.ask matches Some(ask)
        &&& lines[stop].value matches Value::Float(n)
        &&& ask.request.precision == own_precision(n)
        &&& ask.pending matches Pending::Print { lines: waiting, at: index, stage }
        &&& asks_digits(
            ask.request.operation,
            stage,
            n,
            handler.context().output_base@,
            handler.context().output_precision@,
        )
        &&& line_views(waiting@) == lines
        &&& index == stop
    }
}

fn show(line: &Line, shown: &Vec<char>) -> (r: Output)
    ensures
        says(r, line_text(line@, shown@), line.command),
{
    let mut text = chars_of(line.before.as_str());
    append_chars(&mut text, shown);
    append(&mut text, line.after.as_str());
    success(string_of(&text), line.command)
}

/// A question about the digits of a value, to be asked at a precision.
struct Question {
    operation: Operation,
    stage: Stage,
    precision: u32,
}

/// Prints lines from `at` on until one needs the service.
pub fn print_lines(handler: &Handler, lines: Vec<Line>, at: usize, already: Vec<Output>) -> (r:
    Outcome)
    requires
        handler.wf(),
        at <= lines@.len(),
    ensures
        printed(*handler, line_views(lines@), at as int, already@, r),
{
    let n = handler.parameter_stack.len();
    let context = &handler.parameter_stack[n - 1];
    let ghost base = context.output_base@.integer();
    let ghost views = line_views(lines@);
    let ghost before = already@;
    let mut output = already;
    let mut i: usize = at;
    let mut waiting: Option<Question> = None;
    while i < lines.len() && waiting.is_none()
        invariant
            n == handler.parameter_stack@.len(),
            n >= 1,
            context == handler.parameter_stack@[n - 1],
            context.wf(),
            base == context.output_base@.integer(),
            views == line_views(lines@),
            at <= i <= lines@.len(),
            first_waiting(views, at as int, base) == first_waiting(views, i as int, base),
            waiting is Some ==> ({
                &&& i < lines@.len()
                &&& bare_text(views[i as int].value, base) is None
                &&& views[i as int].value matches Value::Float(v)
                &&& waiting matches Some(question)
                &&& asks_digits(
                    question.operation,
                    question.stage,
                    v,
                    context.output_base@,
                    context.output_precision@,
                )
                &&& question.precision == own_precision(v)
            }),
            output@.len() == before.len() + (i - at),
            output@.take(before.len() as int) == before,
            forall|k: int|
                at <= k < i ==> says(
                    #[trigger] output@[before.len() + (k - at)],
                    line_text(views[k], bare_text(views[k].value, base)->0),
                    views[k].command,
                ),
        decreases
                lines@.len() - i + if waiting is None {
                    1int
                } else {
                    0int
                },
    {
        let line = &lines[i];
        assert(views[i as int] == line@);
        let ghost so_far = output@;
        match &line.value {
            StackObject::String(s) => {
                output.push(show(line, &chars_of(s.as_str())));
                assert(output@.take(before.len() as int) =~= so_far.take(before.len() as int));
                i = i + 1;
            },
            StackObject::Float(v) => {
                match float_to_string(v, &context.output_base, &context.output_precision) {
                    Rendering::Text(t) => {
                        output.push(show(line, &chars_of(t.as_str())));
                        assert(output@.take(before.len() as int) =~= so_far.take(
                            before.len() as int,
                        ));
                        i = i + 1;
                    },
                    Rendering::Ask(operation, stage) => {
                        waiting = Some(Question { operation, stage, precision: precision_of(v) });
                    },
                }
            },
        }
    }
    match waiting {
        Some(Question { operation, stage, precision }) => Outcome {
            output,
            ask: Some(
                Ask {
                    request: Request { precision, operation },
                    pending: Pending::Print { lines, at: i, stage },
                },
            ),
        },
        None => Outcome { output, ask: None },
    }
}

/// What is said of an answer that does not fit what was asked.
pub open spec fn unusable_message() -> Seq<char> {
    "! The arithmetic service gave no usable answer"@
}

/// What an answer about a line does, given what it means for the digits of
/// the line's value: a further question is asked, with the lines still
/// waiting; or the line is printed with the text that shows the value, and
/// printing goes on behind it; or the answer is a failure, and the lines
/// that wait are given up.
pub open spec fn line_rendered(
    handler: Handler,
    lines: Seq<LineView>,
    at: int,
    rendered: Rendered,
    r: Outcome,
) -> bool {
    match rendered {
        Rendered::Ask(operation, stage) => {
            &&& r.output@.len() == 0
            &&& r.ask matches Some(ask)
            &&& lines[at].value matches Value::Float(n)
            &&& ask.request.precision == own_precision(n)
            &&& ask.request.operation == operation
            &&& ask.pending matches Pending::Print { lines: waiting, at: index, stage: next }
            &&& line_views(waiting@) == lines
            &&& index == at
            &&& next == stage
        },
        Rendered::Text(text) => exists|first: Output| #[trigger]
            says(first, line_text(lines[at], text@), lines[at].command) && printed(
                handler,
                lines,
                at + 1,
                seq![first],
                r,
            ),
        Rendered::Unusable => r.failed(unusable_message()),
    }
}

/// What the answer about line `at` does: it is taken as an answer about
/// the digits of the line's value.
pub open spec fn print_answered_post(
    handler: Handler,
    lines: Seq<LineView>,
    at: int,
    stage: Stage,
    reply: Reply,
    r: Outcome,
) -> bool {
    if 0 <= at < lines.len() && lines[at].value is Float {
        exists|rendered: Rendered| #[trigger]
            render_post(
                lines[at].value->Float_0,
                handler.context().output_base@,
                handler.context().output_precision@,
                stage,
                reply,
                rendered,
            ) && line_rendered(handler, lines, at, rendered, r)
    } else {
        r.failed(unusable_message())
    }
}

/// Takes the answer about the line that waits, and goes on printing.
pub fn print_answered(handler: &Handler, lines: Vec<Line>, at: usize, stage: Stage, reply: Reply) -> (r:
    Outcome)
    requires
        handler.wf(),
    ensures
        print_answered_post(*handler, line_views(lines@), at as int, stage, reply, r),
{
    if at >= lines.len() {
        return Outcome::failure(owned("! The arithmetic service gave no usable answer"));
    }
    let n = handler.parameter_stack.len();
    let context = &handler.parameter_stack[n - 1];
    assert(line_views(lines@)[at as int] == lines@[at as int]@);
    let (rendered, precision) = match &lines[at].value {
        StackObject::Float(v) => (
            render(v, &context.output_base, &context.output_precision, stage, reply),
            precision_of(v),
        ),
        _ => {
            return Outcome::failure(owned("! The arithmetic service gave no usable answer"));
        },
    };
    let ghost taken = rendered;
    let r = match rendered {
        Rendered::Ask(operation, next) => Outcome {
            output: Vec::new(),
            ask: Some(
                Ask {
                    request: Request { precision, operation },
                    pending: Pending::Print { lines, at, stage: next },
                },
            ),
        },
        Rendered::Text(text) => {
            let first = show(&lines[at], &text);
            let mut already: Vec<Output> = Vec::new();
            already.push(first);
            assert(already@ =~= seq![first]);
            print_lines(handler, lines, at + 1, already)
        },
        Rendered::Unusable => Outcome::failure(
            owned("! The arithmetic service gave no usable answer"),
        ),
    };
    assert(line_rendered(*handler, line_views(lines@), at as int, taken, r));
    r
}

/// The line that shows a value: a text in square brackets where `bracket`
/// says so, a number as it is.
pub open spec fn line_for(value: Value, bracket: bool, command: Command) -> LineView {
    LineView {
        before: if value is String && bracket {
            "["@
        } else {
            ""@
        },
        value,
        after: if value is String && bracket {
            "]"@
        } else {
            ""@
        },
        command,
    }
}

fn make_line(value: &StackObject, bracket: bool, command: Command) -> (r: Line)
    ensures
        r@ == line_for(value@, bracket, command),
{
    let framed = bracket && value.is_string();
    Line {
        before: if framed {
            owned("[")
        } else {
            owned("")
        },
        value: value.clone(),
        after: if framed {
            owned("]")
        } else {
            owned("")
        },
        command,
    }
}

/// What `p` does: the top value is printed, a text in square brackets.
/// Nothing is printed where the main stack is empty.
pub open spec fn print_top_post(handler: Handler, r: Outcome) -> bool {
    if handler.main_stack@.len() == 0 {
        r.silent()
    } else {
        printed(
            handler,
            seq![line_for(handler.main_stack@.last()@, true, Command::NoOp)],
            0,
            Seq::empty(),
            r,
        )
    }
}

/// Prints the top of the main stack.
pub fn print_top(handler: &Handler) -> (r: Outcome)
    requires
        handler.wf(),
    ensures
        print_top_post(*handler, r),
{
    let n = handler.main_stack.len();
    if n == 0 {
        return Outcome::nothing();
    }
    let mut lines: Vec<Line> = Vec::new();
    lines.push(make_line(&handler.main_stack[n - 1], true, Command::NoOp));
    assert(line_views(lines@) =~= seq![
        line_for(handler.main_stack@.last()@, true, Command::NoOp),
    ]);
    print_lines(handler, lines, 0, Vec::new())
}

/// The lines that show the values of a stack from its top down.
pub open spec fn stack_lines(stack: Seq<StackObject>) -> Seq<LineView> {
    Seq::new(
        stack.len(),
        |i: int| line_for(stack[stack.len() - 1 - i]@, true, Command::NoOp),
    )
}

/// What `f` does: the values of the main stack are printed from the top
/// down, texts in square brackets.
pub open spec fn print_full_stack_post(handler: Handler, r: Outcome) -> bool {
    printed(handler, stack_lines(handler.main_stack@), 0, Seq::empty(), r)
}

/// Prints the main stack.
pub fn print_full_stack(handler: &Handler) -> (r: Outcome)
    requires
        handler.wf(),
    ensures
        print_full_stack_post(*handler, r),
{
    let n = handler.main_stack.len();
    let mut lines: Vec<Line> = Vec::new();
    let mut i: usize = 0;
    while i < n
        invariant
            n == handler.main_stack@.len(),
            i <= n,
            lines@.len() == i,
            forall|k: int|
                0 <= k < i ==> (#[trigger] lines@[k])@ == line_for(
                    handler.main_stack@[n - 1 - k]@,
                    true,
                    Command::NoOp,
                ),
        decreases n - i,
    {
        lines.push(make_line(&handler.main_stack[n - 1 - i], true, Command::NoOp));
        i = i + 1;
    }
    assert(line_views(lines@) =~= stack_lines(handler.main_stack@));
    print_lines(handler, lines, 0, Vec::new())
}

/// What `n` and `P` do: the top value goes off the main stack and is
/// printed, a text in square brackets where `bracket` says so, with the
/// signal `signal`.
pub open spec fn print_pop_post(
    pre: Handler,
    post: Handler,
    command: char,
    bracket: bool,
    signal: Command,
    r: Outcome,
) -> bool {
    if pre.main_stack@.len() < arity(command) {
        post == pre && r.failed(insufficient_message(command))
    } else {
        &&& crate::commands::popped(pre, post, 1)
        &&& printed(
            post,
            seq![line_for(pre.main_stack@.last()@, bracket, signal)],
            0,
            Seq::empty(),
            r,
        )
    }
}

fn print_popped(handler: &mut Handler, command: char, bracket: bool, signal: Command) -> (r:
    Outcome)
    requires
        old(handler).wf(),
    ensures
        final(handler).wf(),
        print_pop_post(*old(handler), *final(handler), command, bracket, signal, r),
{
    let mut output: Vec<Output> = Vec::new();
    if !check_n(command, handler.main_stack.len(), &mut output) {
        return Outcome { output, ask: None };
    }
    let a = handler.main_stack.pop().unwrap();
    assert(old(handler).main_stack@.drop_last() =~= old(handler).main_stack@.take(
        old(handler).main_stack@.len() - 1,
    ));
    let mut lines: Vec<Line> = Vec::new();
    lines.push(make_line(&a, bracket, signal));
    assert(line_views(lines@) =~= seq![line_for(a@, bracket, signal)]);
    print_lines(handler, lines, 0, Vec::new())
}

/// Takes the top value off the main stack and prints it, to be followed on
/// the same line.
pub fn print_pop_wo_newline(handler: &mut Handler, command: char) -> (r: Outcome)
    requires
        old(handler).wf(),
    ensures
        final(handler).wf(),
        print_pop_post(*old(handler), *final(handler), command, true, Command::NoNewLine, r),
{
    print_popped(handler, command, true, Command::NoNewLine)
}

/// Takes the top value off the main stack and prints it, a text as it is.
pub fn print_pop(handler: &mut Handler, command: char) -> (r: Outcome)
    requires
        old(handler).wf(),
    ensures
        final(handler).wf(),
        print_pop_post(*old(handler), *final(handler), command, false, Command::NoOp, r),
{
    print_popped(handler, command, false, Command::NoOp)
}

/// `count` blanks.
pub open spec fn blanks(count: int) -> Seq<char> {
    Seq::new(
        if count > 0 {
            count as nat
        } else {
            0
        },
        |i: int| ' ',
    )
}

/// What stands before an array element: a tab, its index flush right in
/// `width` places, a colon and a blank.
pub open spec fn index_label(index: nat, width: nat) -> Seq<char> {
    seq!['\t'] + blanks(width - decimal(index).len()) + decimal(index) + ": "@
}

/// The line that shows element `index` of an array of `length` elements.
pub open spec fn element_line(value: Value, index: nat, length: nat) -> LineView {
    LineView {
        before: if value is String {
            index_label(index, decimal(length).len()) + "["@
        } else {
            index_label(index, decimal(length).len())
        },
        value,
        after: if value is String {
            "]"@
        } else {
            ""@
        },
        command: Command::NoOp,
    }
}

/// The lines that show an entry: its value, then its array.
pub open spec fn entry_lines(entry: crate::handler::EntryView) -> Seq<LineView> {
    seq![line_for(entry.primary, true, Command::NoOp)] + Seq::new(
        entry.array.len(),
        |i: int| element_line(entry.array[i], i as nat, entry.array.len()),
    )
}

/// The lines that show the first `count` entries of a register from the
/// top one down.
pub open spec fn register_lines(entries: Seq<crate::handler::RegisterObject>, count: nat) -> Seq<
    LineView,
>
    decreases count,
{
    if count == 0 || count > entries.len() {
        Seq::empty()
    } else {
        register_lines(entries, (count - 1) as nat) + entry_lines(entries[entries.len() - count]@)
    }
}

fn make_element_line(value: &StackObject, index: usize, length: usize) -> (r: Line)
    ensures
        r@ == element_line(value@, index as nat, length as nat),
{
    let width = write_decimal(length as u64).len();
    let number = write_decimal(index as u64);
    let mut before: Vec<char> = Vec::new();
    before.push('\t');
    let mut pad: usize = number.len();
    let ghost head = before@;
    while pad < width
        invariant
            before@ == head + blanks(pad - number@.len()),
            number@.len() <= pad,
            pad <= width || pad == number@.len(),
        decreases width - pad,
    {
        before.push(' ');
        pad = pad + 1;
        assert(before@ =~= head + blanks(pad - number@.len()));
    }
    assert(head + blanks(0) =~= head);
    assert(blanks(pad - number@.len()) =~= blanks(width - number@.len()));
    assert(head =~= seq!['\t']);
    append_chars(&mut before, &number);
    append(&mut before, ": ");
    let text = value.is_string();
    if text {
        append(&mut before, "[");
    }
    Line {
        before: string_of(&before),
        value: value.clone(),
        after: if text {
            owned("]")
        } else {
            owned("")
        },
        command: Command::NoOp,
    }
}

/// What `F` does: the entries of the selected register are printed from
/// the top one down, each with its array.
pub open spec fn print_register_post(
    pre: Handler,
    post: Handler,
    frames_pre: Seq<Vec<char>>,
    frames_post: Seq<Vec<char>>,
    r: Outcome,
) -> bool {
    if !addressable(pre, frames_pre) {
        unaddressed(pre, post, frames_pre, frames_post, 0, r)
    } else {
        let held = entries(pre, selected(pre, frames_pre));
        &&& only_selector_changed(pre, post)
        &&& selector_used(pre, post, frames_pre, frames_post)
        &&& printed(post, register_lines(held, held.len()), 0, Seq::empty(), r)
    }
}

/// Prints a register.
pub fn print_register(handler: &mut Handler, command_stack: &mut Vec<Vec<char>>) -> (r: Outcome)
    requires
        old(handler).wf(),
        old(command_stack)@.len() >= 1,
    ensures
        final(handler).wf(),
        print_register_post(
            *old(handler),
            *final(handler),
            old(command_stack)@,
            final(command_stack)@,
            r,
        ),
{
    proof {
        lemma_take_all(old(handler).main_stack@);
    }
    let index = match take_selector(handler, command_stack) {
        Some(i) => i,
        None => {
            return no_register();
        },
    };
    if index >= REGISTER_COUNT {
        return not_available(index);
    }
    let register = &handler.registers[index];
    let depth = register.len();
    let mut lines: Vec<Line> = Vec::new();
    let mut done: usize = 0;
    while done < depth
        invariant
            register == handler.registers@[index as int],
            depth == register@.len(),
            done <= depth,
            line_views(lines@) == register_lines(register@, done as nat),
        decreases depth - done,
    {
        let entry = &register[depth - 1 - done];
        let ghost before = line_views(lines@);
        lines.push(make_line(&entry.primary, true, Command::NoOp));
        let length = entry.array.len();
        let mut i: usize = 0;
        assert(line_views(lines@) =~= before + seq![line_for(entry.primary@, true, Command::NoOp)]);
        while i < length
            invariant
                length == entry.array@.len(),
                i <= length,
                line_views(lines@) == before + seq![
                    line_for(entry.primary@, true, Command::NoOp),
                ] + Seq::new(
                    i as nat,
                    |k: int| element_line(entry@.array[k], k as nat, entry@.array.len()),
                ),
            decreases length - i,
        {
            let ghost so_far = line_views(lines@);
            lines.push(make_element_line(&entry.array[i], i, length));
            assert(line_views(lines@) =~= so_far.push(
                element_line(entry@.array[i as int], i as nat, entry@.array.len()),
            ));
            i = i + 1;
            assert(line_views(lines@) =~= before + seq![
                line_for(entry.primary@, true, Command::NoOp),
            ] + Seq::new(
                i as nat,
                |k: int| element_line(entry@.array[k], k as nat, entry@.array.len()),
            ));
        }
        done = done + 1;
        assert(line_views(lines@) =~= before + entry_lines(entry@));
    }
    print_lines(handler, lines, 0, Vec::new())
}

} // verus!
