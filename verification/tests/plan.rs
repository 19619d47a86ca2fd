use dcim::handler::{Command, Handler, Input, RegisterObject, StackObject};
use dcim::input::{plan, strip_comments, Task};
use dcim::number::Number;

fn shown(tasks: &Vec<Task>) -> Vec<String> {
    tasks
        .iter()
        .map(|task| match task {
            Task::Execute(text) => format!("execute {}", text),
            Task::ExecuteFile(name) => format!("file {}", name),
            Task::Report(Ok((message, commands))) => format!("ok {:?} {:?}", message, commands),
            Task::Report(Err(message)) => format!("failure {}", message),
        })
        .collect()
}

#[test]
fn a_line_is_executed() {
    assert_eq!(shown(&plan(Input::Interactive("1 2+p\n"))), vec!["execute 1 2+p\n"]);
    assert_eq!(shown(&plan(Input::Interactive("?"))), vec!["execute ?"]);
}

#[test]
fn expressions_are_executed_in_order() {
    assert_eq!(
        shown(&plan(Input::Expression(vec!["1", "2", "+p"]))),
        vec!["execute 1", "execute 2", "execute +p"]
    );
    assert_eq!(
        shown(&plan(Input::Expression(vec!["?", "1", "?"]))),
        vec![
            "execute ?".to_string(),
            "execute 1".to_string(),
            format!("ok {:?} {:?}", Some("File read!"), vec![Command::Interactive]),
        ]
    );
    assert_eq!(shown(&plan(Input::Expression(vec![]))), vec!["failure ! Empty expression"]);
    assert_eq!(shown(&plan(Input::Expression(vec!["??"]))), vec!["execute ??"]);
}

#[test]
fn files_are_run_in_order() {
    assert_eq!(
        shown(&plan(Input::File(vec!["a.dc", "b.dc"]))),
        vec!["file a.dc", "file b.dc"]
    );
    assert_eq!(
        shown(&plan(Input::File(vec!["a.dc", "?"]))),
        vec![
            "file a.dc".to_string(),
            format!("ok {:?} {:?}", Some("File read!"), vec![Command::Interactive]),
        ]
    );
    assert_eq!(shown(&plan(Input::File(vec![]))), vec!["failure ! No file name provided"]);
}

#[test]
fn comments_go_up_to_the_end_of_their_line() {
    assert_eq!(strip_comments("1 2 + # the sum\np # print it"), "1 2 + \np ");
    assert_eq!(strip_comments("# only\n# comments\n"), "\n");
    assert_eq!(strip_comments("1\r\n2 # two\r\n3\n"), "1\n2 \n3");
    assert_eq!(strip_comments("1\r2\r"), "1\r2\r");
    assert_eq!(strip_comments("\n\n"), "\n");
    assert_eq!(strip_comments("\n"), "");
    assert_eq!(strip_comments("no comment"), "no comment");
    assert_eq!(strip_comments("a#b#c\nd"), "a\nd");
    assert_eq!(strip_comments(""), "");
}

#[test]
fn a_copy_of_a_session_shares_nothing() {
    let mut handler = Handler::new(64);
    handler.main_stack.push(StackObject::String("kept".to_string()));
    handler.main_stack.push(StackObject::Float(Number::ten(64)));
    handler.registers[7].push(RegisterObject {
        primary: StackObject::Float(Number::minus_one(64)),
        array: vec![StackObject::String("entry".to_string())],
    });
    handler.direct_register_selector = Some(3);
    let mut copy = handler.clone();
    assert_eq!(copy.working_precision, 64);
    assert_eq!(copy.main_stack.len(), 2);
    assert_eq!(copy.registers.len(), 65536);
    assert_eq!(copy.registers[7].len(), 1);
    assert_eq!(copy.registers[7][0].array.len(), 1);
    assert_eq!(copy.direct_register_selector, Some(3));
    assert_eq!(copy.parameter_stack.len(), 1);
    match (&copy.main_stack[0], &copy.main_stack[1]) {
        (StackObject::String(s), StackObject::Float(n)) => {
            assert_eq!(s, "kept");
            assert_eq!(n.magnitude(), Some(10));
        }
        _ => panic!("the values are copied in their order"),
    }
    copy.main_stack.clear();
    copy.registers[7].clear();
    assert_eq!(handler.main_stack.len(), 2);
    assert_eq!(handler.registers[7].len(), 1);
}
