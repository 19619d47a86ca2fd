use crate::commands::accumulation::{accumulate, accumulate_post};
use crate::commands::constants::{affix, affix_post};
use crate::commands::macros::{utf8_answered, utf8_answered_post};
use crate::commands::notation::{own_precision, precision_of, render, render_post, Rendered};
use crate::commands::object_input::{any_base_digits, any_base_digits_post};
use crate::commands::printing::{print_answered, print_answered_post, unusable_message};
use crate::commands::{
    interleave, interleaved, push, pushed, pushed_value, rest_unchanged, run_command,
    run_command_post, top_frame_becomes,
};
use crate::handler::{Handler, Output, StackObject, Value};
use crate::number::Number;
use crate::service::{line_views, Ask, Operation, Outcome, Pending, Reply};
use crate::text::{chars_of, owned, reversed, string_of};
use vstd::prelude::*;

verus! {

/// What is being executed: the frames of pending text, the one in
/// execution last, and the flag that inverts the next conditional. A frame
/// holds its pending text back to front: the next character is its last.
#[derive(Debug)]
pub struct Execution {
    pub command_stack: Vec<Vec<char>>,
    pub inverted: bool,
}

/// How far the execution has got.
#[derive(Debug)]
pub enum Progress {
    /// Nothing is left to execute.
    Finished,
    /// An opcode is done and the next one can run.
    Ready,
    /// An opcode waits for an answer of the arithmetic service.
    Waiting(Ask),
}

impl Progress {
    /// Whether the next opcode can run.
    pub fn is_ready(&self) -> (r: bool)
        ensures
            r == (*self is Ready),
    {
        match self {
            Progress::Ready => true,
            _ => false,
        }
    }
}

/// The frames without the empty ones on top.
pub open spec fn settled(frames: Seq<Vec<char>>) -> Seq<Vec<char>>
    decreases frames.len(),
{
    if frames.len() > 0 && frames.last()@.len() == 0 {
        settled(frames.drop_last())
    } else {
        frames
    }
}

/// What is left when the empty frames on top go has no empty frame on top
/// and is no deeper than before.
pub proof fn lemma_settled(frames: Seq<Vec<char>>)
    ensures
        settled(frames).len() <= frames.len(),
        settled(frames).len() > 0 ==> settled(frames).last()@.len() > 0,
        settled(settled(frames)) == settled(frames),
    decreases frames.len(),
{
    if frames.len() > 0 && frames.last()@.len() == 0 {
        lemma_settled(frames.drop_last());
    }
}

/// Takes the empty frames off the top.
pub fn settle(command_stack: &mut Vec<Vec<char>>)
    ensures
        final(command_stack)@ == settled(old(command_stack)@),
{
    while command_stack.len() > 0 && command_stack[command_stack.len() - 1].len() == 0
        invariant
            settled(old(command_stack)@) == settled(command_stack@),
        decreases command_stack@.len(),
    {
        command_stack.pop();
    }
}

/// Begins the execution of a text: it is the one frame, unless it is
/// empty, and no conditional is inverted.
pub fn begin(expression: &str) -> (r: Execution)
    ensures
        !r.inverted,
        if expression@.len() == 0 {
            r.command_stack@.len() == 0
        } else {
            r.command_stack@.len() == 1 && r.command_stack@[0]@ == expression@.reverse()
        },
{
    let chars = chars_of(expression);
    let mut command_stack: Vec<Vec<char>> = Vec::new();
    if chars.len() > 0 {
        command_stack.push(reversed(&chars));
    }
    Execution { command_stack, inverted: false }
}

/// The answer does not fit what was asked: a failure, and nothing changes.
pub open spec fn unusable(
    pre: Handler,
    post: Handler,
    frames_pre: Seq<Vec<char>>,
    frames_post: Seq<Vec<char>>,
    r: Outcome,
) -> bool {
    post == pre && frames_post == frames_pre && r.failed(unusable_message())
}

/// The number that was asked for goes on the main stack.
pub open spec fn number_pushed(
    pre: Handler,
    post: Handler,
    frames_pre: Seq<Vec<char>>,
    frames_post: Seq<Vec<char>>,
    n: Number,
    r: Outcome,
) -> bool {
    pushed(pre, post, StackObject::Float(n)) && frames_post == frames_pre && r.silent()
}

/// A failure is reported and nothing changes.
pub open spec fn refused(
    pre: Handler,
    post: Handler,
    frames_pre: Seq<Vec<char>>,
    frames_post: Seq<Vec<char>>,
    message: Seq<char>,
    r: Outcome,
) -> bool {
    post == pre && frames_post == frames_pre && r.failed(message)
}

/// What is said of a text that is no numeral, with the reason given.
pub open spec fn unparsed_message(text: Seq<char>, reason: Seq<char>) -> Seq<char> {
    "! Unable to parse number \""@ + text + "\": "@ + reason
}

/// `r` asks for base and modulus in decimal, to report that there is no
/// inverse.
pub open spec fn no_inverse_asked(r: Outcome, precision: u32, base: Number, modulus: Number) -> bool {
    &&& r.output@.len() == 0
    &&& r.ask matches Some(ask)
    &&& ask.request.precision == precision
    &&& ask.request.operation matches Operation::Describe(numbers)
    &&& numbers@ == seq![base, modulus]
    &&& ask.pending matches Pending::Fail { parts }
    &&& parts@.len() == 3
    &&& parts@[0]@ == "! Arithmetic error: "@
    &&& parts@[1]@ == " doesn't have an inverse mod "@
    &&& parts@[2]@ == ""@
}

/// What an answer about the digits of a number does that is to be put on
/// the main stack as a text: a further question is asked, or the text that
/// shows the number goes on the stack, or the answer is a failure.
pub open spec fn spelled(
    pre: Handler,
    post: Handler,
    number: Number,
    rendered: Rendered,
    r: Outcome,
) -> bool {
    match rendered {
        Rendered::Ask(operation, stage) => post == pre && r.asked(
            own_precision(number@),
            operation,
            Pending::Spell { number, stage },
        ),
        Rendered::Text(text) => pushed_value(pre, post, Value::String(text@)) && r.silent(),
        Rendered::Unusable => post == pre && r.failed(unusable_message()),
    }
}

/// What an answer of the service does, given what was pending: the opcode
/// that asked goes on to its end, or to its next question. An answer of
/// another kind than was asked for is a failure that changes nothing.
pub open spec fn answer_post(
    pre: Handler,
    post: Handler,
    frames_pre: Seq<Vec<char>>,
    frames_post: Seq<Vec<char>>,
    pending: Pending,
    reply: Reply,
    r: Outcome,
) -> bool {
    match pending {
        Pending::Push => match reply {
            Reply::Number(n) => number_pushed(pre, post, frames_pre, frames_post, n, r),
            _ => unusable(pre, post, frames_pre, frames_post, r),
        },
        Pending::PushPair => match reply {
            Reply::Pair(a, b) => {
                &&& rest_unchanged(pre, post)
                &&& post.main_stack@ == pre.main_stack@.push(StackObject::Float(a)).push(
                    StackObject::Float(b),
                )
                &&& frames_post == frames_pre
                &&& r.silent()
            },
            _ => unusable(pre, post, frames_pre, frames_post, r),
        },
        Pending::Parsed { text } => match reply {
            Reply::Number(n) => number_pushed(pre, post, frames_pre, frames_post, n, r),
            Reply::Rejected(reason) => refused(
                pre,
                post,
                frames_pre,
                frames_post,
                unparsed_message(text@, reason@),
                r,
            ),
            _ => unusable(pre, post, frames_pre, frames_post, r),
        },
        Pending::Fail { parts } => match reply {
            Reply::Texts(texts) => refused(
                pre,
                post,
                frames_pre,
                frames_post,
                interleaved(parts@, texts@),
                r,
            ),
            _ => unusable(pre, post, frames_pre, frames_post, r),
        },
        Pending::Inverse { base, modulus } => match reply {
            Reply::Number(n) => number_pushed(pre, post, frames_pre, frames_post, n, r),
            Reply::Missing => post == pre && frames_post == frames_pre && no_inverse_asked(
                r,
                pre.working_precision,
                base,
                modulus,
            ),
            _ => unusable(pre, post, frames_pre, frames_post, r),
        },
        Pending::Utf8 { number } => match reply {
            Reply::Bytes(bytes) => frames_post == frames_pre && utf8_answered_post(
                pre,
                post,
                number,
                bytes@,
                r,
            ),
            _ => unusable(pre, post, frames_pre, frames_post, r),
        },
        Pending::Print { lines, at, stage } => post == pre && frames_post == frames_pre
            && print_answered_post(pre, line_views(lines@), at as int, stage, reply, r),
        Pending::Spell { number, stage } => frames_post == frames_pre && exists|
            rendered: Rendered,
        | #[trigger]
            render_post(
                number@,
                pre.context().output_base@,
                pre.context().output_precision@,
                stage,
                reply,
                rendered,
            ) && spelled(pre, post, number, rendered, r),
        Pending::AnyBase => match reply {
            Reply::Texts(texts) => if texts@.len() == 1 && frames_pre.len() >= 1 {
                post == pre && any_base_digits_post(pre, frames_pre, frames_post, texts@[0]@, r)
            } else {
                unusable(pre, post, frames_pre, frames_post, r)
            },
            _ => unusable(pre, post, frames_pre, frames_post, r),
        },
        Pending::Accumulate { groups, state } => post == pre && frames_post == frames_pre
            && accumulate_post(pre, groups, state, reply, r),
        Pending::Constant { wanted, state, then } => frames_post == frames_pre && affix_post(
            pre,
            post,
            wanted,
            state,
            then,
            reply,
            r,
        ),
    }
}

fn no_answer() -> (r: Outcome)
    ensures
        r.failed(unusable_message()),
{
    Outcome::failure(owned("! The arithmetic service gave no usable answer"))
}

/// Takes an answer of the arithmetic service to the opcode that asked.
pub fn answer(
    handler: &mut Handler,
    command_stack: &mut Vec<Vec<char>>,
    pending: Pending,
    reply: Reply,
) -> (r: Outcome)
    requires
        old(handler).wf(),
    ensures
        final(handler).wf(),
        answer_post(
            *old(handler),
            *final(handler),
            old(command_stack)@,
            final(command_stack)@,
            pending,
            reply,
            r,
        ),
{
    match pending {
        Pending::Push => match reply {
            Reply::Number(n) => {
                handler.main_stack.push(StackObject::Float(n));
                Outcome::nothing()
            },
            _ => no_answer(),
        },
        Pending::PushPair => match reply {
            Reply::Pair(a, b) => {
                handler.main_stack.push(StackObject::Float(a));
                handler.main_stack.push(StackObject::Float(b));
                Outcome::nothing()
            },
            _ => no_answer(),
        },
        Pending::Parsed { text } => match reply {
            Reply::Number(n) => {
                handler.main_stack.push(StackObject::Float(n));
                Outcome::nothing()
            },
            Reply::Rejected(reason) => {
                let mut message = chars_of("! Unable to parse number \"");
                crate::text::append(&mut message, text.as_str());
                crate::text::append(&mut message, "\": ");
                crate::text::append(&mut message, reason.as_str());
                Outcome::failure(string_of(&message))
            },
            _ => no_answer(),
        },
        Pending::Fail { parts } => match reply {
            Reply::Texts(texts) => Outcome::failure(interleave(&parts, &texts)),
            _ => no_answer(),
        },
        Pending::Inverse { base, modulus } => match reply {
            Reply::Number(n) => {
                handler.main_stack.push(StackObject::Float(n));
                Outcome::nothing()
            },
            Reply::Missing => {
                let mut numbers: Vec<Number> = Vec::new();
                numbers.push(base);
                numbers.push(modulus);
                assert(numbers@ =~= seq![base, modulus]);
                let mut parts: Vec<String> = Vec::new();
                parts.push(owned("! Arithmetic error: "));
                parts.push(owned(" doesn't have an inverse mod "));
                parts.push(owned(""));
                Outcome::request(
                    handler.working_precision,
                    Operation::Describe(numbers),
                    Pending::Fail { parts },
                )
            },
            _ => no_answer(),
        },
        Pending::Utf8 { number } => match reply {
            Reply::Bytes(bytes) => utf8_answered(handler, number, bytes),
            _ => no_answer(),
        },
        Pending::Print { lines, at, stage } => print_answered(handler, lines, at, stage, reply),
        Pending::Spell { number, stage } => {
            let n = handler.parameter_stack.len();
            let rendered = render(
                &number,
                &handler.parameter_stack[n - 1].output_base,
                &handler.parameter_stack[n - 1].output_precision,
                stage,
                reply,
            );
            let ghost taken = rendered;
            let r = match rendered {
                Rendered::Ask(operation, next) => {
                    let precision = precision_of(&number);
                    Outcome::request(precision, operation, Pending::Spell { number, stage: next })
                },
                Rendered::Text(text) => {
                    push(handler, StackObject::String(string_of(&text)));
                    Outcome::nothing()
                },
                Rendered::Unusable => no_answer(),
            };
            assert(spelled(*old(handler), *handler, number, taken, r));
            r
        },
        Pending::AnyBase => match reply {
            Reply::Texts(texts) => {
                if texts.len() == 1 && command_stack.len() >= 1 {
                    any_base_digits(handler, command_stack, &texts[0])
                } else {
                    no_answer()
                }
            },
            _ => no_answer(),
        },
        Pending::Accumulate { groups, state } => accumulate(handler, groups, state, reply),
        Pending::Constant { wanted, state, then } => affix(handler, wanted, state, then, reply),
    }
}

/// What one step of the execution does. The empty frames on top go first;
/// with no frame left the execution is finished. Else the next character
/// of the top frame is taken off and run as an opcode; what it reports is
/// added to the output; the flag that inverts the next conditional is
/// cleared unless the opcode was the one that sets it. An opcode that asks
/// the service leaves the execution waiting; after any other the empty
/// frames on top go.
pub open spec fn step_post(
    pre: Handler,
    post: Handler,
    before: Execution,
    after: Execution,
    output_pre: Seq<Output>,
    output_post: Seq<Output>,
    progress: Progress,
) -> bool {
    let start = settled(before.command_stack@);
    if start.len() == 0 {
        &&& progress is Finished
        &&& post == pre
        &&& after.command_stack@ == start
        &&& after.inverted == before.inverted
        &&& output_post == output_pre
    } else {
        exists|taken: Seq<Vec<char>>, ran: Seq<Vec<char>>, flag: bool, r: Outcome|
            {
                &&& top_frame_becomes(start, taken, start.last()@.drop_last())
                &&& #[trigger] run_command_post(
                    pre,
                    post,
                    taken,
                    ran,
                    start.last()@.last(),
                    before.inverted,
                    flag,
                    r,
                )
                &&& output_post == output_pre + r.output@
                &&& after.inverted == (start.last()@.last() == '!' && flag)
                &&& match r.ask {
                    Some(ask) => progress == Progress::Waiting(ask) && after.command_stack@ == ran,
                    None => progress is Ready && after.command_stack@ == settled(ran),
                }
            }
    }
}

/// Runs the next opcode.
pub fn step(handler: &mut Handler, execution: &mut Execution, output: &mut Vec<Output>) -> (progress:
    Progress)
    requires
        old(handler).wf(),
    ensures
        final(handler).wf(),
        step_post(
            *old(handler),
            *final(handler),
            *old(execution),
            *final(execution),
            old(output)@,
            final(output)@,
            progress,
        ),
{
    settle(&mut execution.command_stack);
    proof {
        lemma_settled(old(execution).command_stack@);
    }
    if execution.command_stack.len() == 0 {
        return Progress::Finished;
    }
    let ghost start = execution.command_stack@;
    let mut frame = execution.command_stack.pop().unwrap();
    let command = frame.pop().unwrap();
    execution.command_stack.push(frame);
    let ghost taken = execution.command_stack@;
    assert(taken.drop_last() =~= start.drop_last());
    let mut inverted = execution.inverted;
    let r = run_command(handler, &mut execution.command_stack, command, &mut inverted);
    let ghost ran = execution.command_stack@;
    let ghost outcome = r;
    let mut reported = r.output;
    output.append(&mut reported);
    execution.inverted = command == '!' && inverted;
    match r.ask {
        Some(ask) => {
            assert(run_command_post(
                *old(handler),
                *handler,
                taken,
                ran,
                start.last()@.last(),
                old(execution).inverted,
                inverted,
                outcome,
            ));
            Progress::Waiting(ask)
        },
        None => {
            settle(&mut execution.command_stack);
            assert(run_command_post(
                *old(handler),
                *handler,
                taken,
                ran,
                start.last()@.last(),
                old(execution).inverted,
                inverted,
                outcome,
            ));
            Progress::Ready
        },
    }
}

/// What an answer of the service does to the execution: the opcode that
/// asked goes on; what it reports is added to the output; where it asks
/// again the execution waits again, and else the empty frames on top go.
pub open spec fn resume_post(
    pre: Handler,
    post: Handler,
    before: Execution,
    after: Execution,
    pending: Pending,
    reply: Reply,
    output_pre: Seq<Output>,
    output_post: Seq<Output>,
    progress: Progress,
) -> bool {
    exists|ran: Seq<Vec<char>>, r: Outcome|
        {
            &&& #[trigger] answer_post(pre, post, before.command_stack@, ran, pending, reply, r)
            &&& output_post == output_pre + r.output@
            &&& after.inverted == before.inverted
            &&& match r.ask {
                Some(ask) => progress == Progress::Waiting(ask) && after.command_stack@ == ran,
                None => progress is Ready && after.command_stack@ == settled(ran),
            }
        }
}

/// Goes on with the opcode that asked the service, given the answer.
pub fn resume(
    handler: &mut Handler,
    execution: &mut Execution,
    pending: Pending,
    reply: Reply,
    output: &mut Vec<Output>,
) -> (progress: Progress)
    requires
        old(handler).wf(),
    ensures
        final(handler).wf(),
        resume_post(
            *old(handler),
            *final(handler),
            *old(execution),
            *final(execution),
            pending,
            reply,
            old(output)@,
            final(output)@,
            progress,
        ),
{
    let r = answer(handler, &mut execution.command_stack, pending, reply);
    let ghost ran = execution.command_stack@;
    let ghost outcome = r;
    let mut reported = r.output;
    output.append(&mut reported);
    match r.ask {
        Some(ask) => {
            assert(answer_post(
                *old(handler),
                *handler,
                old(execution).command_stack@,
                ran,
                pending,
                reply,
                outcome,
            ));
            Progress::Waiting(ask)
        },
        None => {
            settle(&mut execution.command_stack);
            assert(answer_post(
                *old(handler),
                *handler,
                old(execution).command_stack@,
                ran,
                pending,
                reply,
                outcome,
            ));
            Progress::Ready
        },
    }
}

/// What `count` steps in a row do, all but the last of which leave the
/// execution ready for the next.
pub open spec fn steps_taken(
    pre: Handler,
    post: Handler,
    before: Execution,
    after: Execution,
    output_pre: Seq<Output>,
    output_post: Seq<Output>,
    progress: Progress,
    count: nat,
) -> bool
    decreases count,
{
    if count == 0 {
        &&& progress is Ready
        &&& post == pre
        &&& after.command_stack@ == before.command_stack@
        &&& after.inverted == before.inverted
        &&& output_post == output_pre
    } else {
        exists|handler: Handler, execution: Execution, output: Seq<Output>|
            {
                &&& steps_taken(
                    pre,
                    handler,
                    before,
                    execution,
                    output_pre,
                    output,
                    Progress::Ready,
                    (count - 1) as nat,
                )
                &&& #[trigger] step_post(
                    handler,
                    post,
                    execution,
                    after,
                    output,
                    output_post,
                    progress,
                )
            }
    }
}

/// A step after `count` steps makes `count + 1` steps.
pub proof fn lemma_one_more_step(
    pre: Handler,
    reached: Handler,
    post: Handler,
    before: Execution,
    running: Execution,
    after: Execution,
    output_pre: Seq<Output>,
    reported: Seq<Output>,
    output_post: Seq<Output>,
    progress: Progress,
    count: nat,
)
    requires
        steps_taken(pre, reached, before, running, output_pre, reported, Progress::Ready, count),
        step_post(reached, post, running, after, reported, output_post, progress),
    ensures
        steps_taken(pre, post, before, after, output_pre, output_post, progress, count + 1),
{
    assert(((count + 1) - 1) as nat == count);
}

/// Runs opcodes until nothing is left to execute or an opcode asks the
/// arithmetic service, but at most `limit` of them.
pub fn execute(
    handler: &mut Handler,
    execution: &mut Execution,
    output: &mut Vec<Output>,
    limit: usize,
) -> (progress: Progress)
    requires
        old(handler).wf(),
    ensures
        final(handler).wf(),
        exists|count: nat|
            {
                &&& count <= limit
                &&& progress is Ready ==> count == limit
                &&& #[trigger] steps_taken(
                    *old(handler),
                    *final(handler),
                    *old(execution),
                    *final(execution),
                    old(output)@,
                    final(output)@,
                    progress,
                    count,
                )
            },
{
    let mut left = limit;
    let mut progress = Progress::Ready;
    while left > 0 && progress.is_ready()
        invariant
            handler.wf(),
            left <= limit,
            progress is Ready || left < limit,
            steps_taken(
                *old(handler),
                *handler,
                *old(execution),
                *execution,
                old(output)@,
                output@,
                progress,
                (limit - left) as nat,
            ),
        decreases left,
    {
        let ghost reached = *handler;
        let ghost running = *execution;
        let ghost reported = output@;
        let ghost taken: nat = (limit - left) as nat;
        assert(progress == Progress::Ready);
        progress = step(handler, execution, output);
        left = left - 1;
        proof {
            lemma_one_more_step(
                *old(handler),
                reached,
                *handler,
                *old(execution),
                running,
                *execution,
                old(output)@,
                reported,
                output@,
                progress,
                taken,
            );
        }
    }
    assert(steps_taken(
        *old(handler),
        *handler,
        *old(execution),
        *execution,
        old(output)@,
        output@,
        progress,
        (limit - left) as nat,
    ));
    progress
}

} // verus!
