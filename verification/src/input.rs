use crate::handler::{fails, says, Command, Input, Output};
use crate::text::{chars_of, owned, string_of};
use vstd::prelude::*;

verus! {

/// One thing to do for an input.
#[derive(Debug)]
pub enum Task<'a> {
    /// Execute the text.
    Execute(&'a str),
    /// Read the file of this name and execute what it holds, comments
    /// taken out.
    ExecuteFile(&'a str),
    /// Hand the event on.
    Report(Output),
}

/// What is to be done with argument `i` of `count`, being `argument`: the
/// last one asks for interactive mode where it is a question mark, and any
/// other is to be run.
pub open spec fn task_for(task: Task, argument: &str, i: int, count: int, files: bool) -> bool {
    if i == count - 1 && argument@ == seq!['?'] {
        task matches Task::Report(event) && says(event, "File read!"@, Command::Interactive)
    } else if files {
        task == Task::ExecuteFile(argument)
    } else {
        task == Task::Execute(argument)
    }
}

/// What is to be done with arguments: one task for each, or the failure
/// `complaint` where there is none.
pub open spec fn tasks_for(
    arguments: Seq<&str>,
    tasks: Seq<Task>,
    files: bool,
    complaint: Seq<char>,
) -> bool {
    if arguments.len() == 0 {
        &&& tasks.len() == 1
        &&& tasks[0] matches Task::Report(event)
        &&& fails(event, complaint)
    } else {
        &&& tasks.len() == arguments.len()
        &&& forall|i: int|
            0 <= i < tasks.len() ==> task_for(
                #[trigger] tasks[i],
                arguments[i],
                i,
                arguments.len() as int,
                files,
            )
    }
}

/// What is to be done for an input: a line is executed; expressions are
/// executed and files are run in their order; a question mark in the last
/// place asks for interactive mode; no argument at all is a failure.
pub open spec fn planned(input: Input, tasks: Seq<Task>) -> bool {
    match input {
        Input::Interactive(line) => tasks == seq![Task::Execute(line)],
        Input::Expression(expressions) => tasks_for(
            expressions@,
            tasks,
            false,
            "! Empty expression"@,
        ),
        Input::File(files) => tasks_for(files@, tasks, true, "! No file name provided"@),
    }
}

fn plan_arguments<'a>(arguments: &Vec<&'a str>, files: bool, complaint: &str) -> (tasks: Vec<
    Task<'a>,
>)
    ensures
        tasks_for(arguments@, tasks@, files, complaint@),
{
    let mut tasks: Vec<Task<'a>> = Vec::new();
    if arguments.len() == 0 {
        tasks.push(Task::Report(Err(owned(complaint))));
        return tasks;
    }
    let mut i: usize = 0;
    while i < arguments.len()
        invariant
            i <= arguments@.len(),
            tasks@.len() == i,
            forall|k: int|
                0 <= k < i ==> task_for(
                    #[trigger] tasks@[k],
                    arguments@[k],
                    k,
                    arguments@.len() as int,
                    files,
                ),
        decreases arguments@.len() - i,
    {
        let argument: &'a str = arguments[i];
        let text = chars_of(argument);
        if i == arguments.len() - 1 && text.len() == 1 && text[0] == '?' {
            assert(argument@ =~= seq!['?']);
            tasks.push(
                Task::Report(crate::handler::success(owned("File read!"), Command::Interactive)),
            );
        } else if files {
            tasks.push(Task::ExecuteFile(argument));
        } else {
            tasks.push(Task::Execute(argument));
        }
        i = i + 1;
    }
    tasks
}

/// Says what is to be done for an input.
pub fn plan<'a>(input: Input<'a>) -> (tasks: Vec<Task<'a>>)
    ensures
        planned(input, tasks@),
{
    match input {
        Input::Interactive(line) => {
            let mut tasks: Vec<Task<'a>> = Vec::new();
            tasks.push(Task::Execute(line));
            assert(tasks@ =~= seq![Task::Execute(line)]);
            tasks
        },
        Input::Expression(expressions) => plan_arguments(&expressions, false, "! Empty expression"),
        Input::File(files) => plan_arguments(&files, true, "! No file name provided"),
    }
}

/// A text without its comments, line by line: each `#` goes with what
/// follows it on its line; a line ends at a newline, which may have a
/// carriage return before it that goes too; and the newline at the very end
/// of the text goes. `inside` says whether the text begins within a
/// comment.
pub open spec fn uncommented(s: Seq<char>, inside: bool) -> Seq<char>
    decreases s.len(),
{
    if s.len() == 0 {
        s
    } else if s[0] == '\n' {
        if s.len() == 1 {
            Seq::empty()
        } else {
            seq!['\n'] + uncommented(s.drop_first(), false)
        }
    } else if s[0] == '\r' && s.len() >= 2 && s[1] == '\n' {
        uncommented(s.drop_first(), inside)
    } else if inside || s[0] == '#' {
        uncommented(s.drop_first(), true)
    } else {
        seq![s[0]] + uncommented(s.drop_first(), false)
    }
}

/// Takes the comments out of a text.
pub fn strip_comments(content: &str) -> (r: String)
    ensures
        r@ == uncommented(content@, false),
{
    let chars = chars_of(content);
    let mut kept: Vec<char> = Vec::new();
    let mut inside = false;
    let mut i: usize = 0;
    assert(chars@.skip(0) =~= chars@);
    while i < chars.len()
        invariant
            i <= chars@.len(),
            uncommented(chars@, false) == kept@ + uncommented(chars@.skip(i as int), inside),
        decreases chars@.len() - i,
    {
        let c = chars[i];
        let ghost before = kept@;
        let ghost rest = chars@.skip(i as int);
        assert(rest.drop_first() =~= chars@.skip(i + 1));
        assert(rest.len() == chars@.len() - i);
        if c == '\n' {
            if i + 1 < chars.len() {
                inside = false;
                kept.push(c);
                assert(kept@ + uncommented(chars@.skip(i + 1), false) =~= before + (seq!['\n']
                    + uncommented(chars@.skip(i + 1), false)));
            } else {
                assert(uncommented(chars@.skip(i + 1), inside) =~= Seq::<char>::empty());
                assert(before + Seq::<char>::empty() =~= before);
            }
        } else if c == '\r' && i + 1 < chars.len() && chars[i + 1] == '\n' {
            assert(rest[1] == chars@[i + 1]);
        } else if inside || c == '#' {
            assert(!(rest.len() >= 2 && rest[0] == '\r' && rest[1] == '\n'));
            inside = true;
        } else {
            assert(!(rest.len() >= 2 && rest[0] == '\r' && rest[1] == '\n'));
            kept.push(c);
            assert(kept@ + uncommented(chars@.skip(i + 1), false) =~= before + (seq![c]
                + uncommented(chars@.skip(i + 1), false)));
        }
        i = i + 1;
    }
    assert(kept@ + Seq::<char>::empty() =~= kept@);
    string_of(&kept)
}

} // verus!
