use python_ide::python_ide::{IdeState, CANCEL_MARKER};
use python_ide::python_runner::{CreationError, PythonRunner, SessionState, WorkerResponse};

fn out(text: &str) -> WorkerResponse {
    WorkerResponse::Output { text: text.to_string() }
}

fn err(text: &str) -> WorkerResponse {
    WorkerResponse::Error { text: text.to_string() }
}

#[test]
fn page_starts_idle_and_empty() {
    let page = IdeState::new();
    assert!(!page.is_running());
    assert_eq!(page.output(), "");
}

#[test]
fn run_request_starts_a_run() {
    let mut page = IdeState::new();
    assert!(page.request_run());
    assert!(page.is_running());
    assert_eq!(page.output(), "");
}

#[test]
fn run_request_while_running_is_a_no_op() {
    let mut page = IdeState::new();
    assert!(page.request_run());
    page.handle_event(&out("partial"));
    assert!(!page.request_run());
    assert!(!page.request_run());
    assert!(page.is_running());
    assert_eq!(page.output(), "partial");
}

#[test]
fn new_run_clears_the_pane() {
    let mut page = IdeState::new();
    assert!(page.request_run());
    page.handle_event(&out("first run\n"));
    page.handle_event(&WorkerResponse::Done);
    assert_eq!(page.output(), "first run\n");
    assert!(page.request_run());
    assert_eq!(page.output(), "");
    assert!(page.is_running());
}

#[test]
fn output_is_appended_in_order() {
    let mut page = IdeState::new();
    assert!(page.request_run());
    page.handle_event(&out("a"));
    assert_eq!(page.output(), "a");
    page.handle_event(&out("b"));
    assert_eq!(page.output(), "ab");
    assert!(page.is_running());
    page.handle_event(&WorkerResponse::Done);
    assert_eq!(page.output(), "ab");
    assert!(!page.is_running());
}

#[test]
fn error_ends_the_run_and_is_shown() {
    let mut page = IdeState::new();
    assert!(page.request_run());
    page.handle_event(&out("1\n"));
    page.handle_event(&err("ZeroDivisionError: division by zero"));
    assert!(!page.is_running());
    assert_eq!(page.output(), "1\nZeroDivisionError: division by zero");
}

#[test]
fn events_after_the_end_change_nothing() {
    let mut page = IdeState::new();
    assert!(page.request_run());
    page.handle_event(&out("a"));
    page.handle_event(&WorkerResponse::Done);
    page.handle_event(&out("late"));
    page.handle_event(&err("late"));
    page.handle_event(&WorkerResponse::Done);
    assert_eq!(page.output(), "a");
    assert!(!page.is_running());
}

#[test]
fn events_without_a_run_change_nothing() {
    let mut page = IdeState::new();
    page.handle_event(&out("stray"));
    page.handle_event(&err("stray"));
    assert_eq!(page.output(), "");
    assert!(!page.is_running());
}

#[test]
fn cancel_ends_the_run_at_once() {
    let mut page = IdeState::new();
    assert!(page.request_run());
    page.handle_event(&out("working...\n"));
    assert!(page.cancel());
    assert!(!page.is_running());
    assert_eq!(page.output(), "working...\n\n[Execution cancelled]\n");
    assert_eq!(CANCEL_MARKER, "\n[Execution cancelled]\n");
    page.handle_event(&out("the worker did not listen"));
    assert_eq!(page.output(), "working...\n\n[Execution cancelled]\n");
}

#[test]
fn cancel_without_a_run_is_a_no_op() {
    let mut page = IdeState::new();
    assert!(!page.cancel());
    assert_eq!(page.output(), "");
    assert!(page.request_run());
    page.handle_event(&WorkerResponse::Done);
    assert!(!page.cancel());
    assert_eq!(page.output(), "");
}

#[test]
fn failure_is_a_line_in_the_pane() {
    let mut page = IdeState::new();
    assert!(page.request_run());
    page.report_failure(&CreationError.message());
    assert!(!page.is_running());
    assert_eq!(page.output(), "Could not start the Python worker\n");
    assert!(page.request_run());
}

#[test]
fn print_hi_on_the_page() {
    let mut page = IdeState::new();
    assert!(page.request_run());
    let mut runner = PythonRunner::new(true).unwrap();
    assert!(runner.run_code("print('hi')".to_string()).is_some());
    assert!(runner.dispatched(true).is_ok());
    let mut observed = Vec::new();
    for event in [out("hi\n"), WorkerResponse::Done] {
        if let Some(delivered) = runner.on_event(event) {
            page.handle_event(&delivered);
            observed.push(delivered);
        }
    }
    assert_eq!(observed, vec![out("hi\n"), WorkerResponse::Done]);
    assert_eq!(page.output(), "hi\n");
    assert!(!page.is_running());
    assert_eq!(runner.state(), SessionState::Completed);
}

#[test]
fn cancel_of_a_program_that_never_ends() {
    let mut page = IdeState::new();
    assert!(page.request_run());
    let mut runner = PythonRunner::new(true).unwrap();
    assert!(runner.run_code("while True: pass".to_string()).is_some());
    assert!(runner.stop().is_some());
    assert!(page.cancel());
    assert!(!page.is_running());
    assert_eq!(runner.state(), SessionState::Cancelled);
    assert_eq!(runner.is_live(), page.is_running());
}

#[test]
fn dispatch_failure_on_the_page() {
    let mut page = IdeState::new();
    assert!(page.request_run());
    let mut runner = PythonRunner::new(true).unwrap();
    assert!(runner.run_code("print(1)".to_string()).is_some());
    let failure = runner.dispatched(false).unwrap_err();
    page.report_failure(&failure.message());
    assert!(!page.is_running());
    assert_eq!(page.output(), "Could not send the command to the Python worker\n");
    assert_eq!(runner.state(), SessionState::Failed);
}
