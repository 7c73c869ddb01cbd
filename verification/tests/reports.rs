use stack_interpreter::instruction::{ExecError, Input, InputFailure};
use stack_interpreter::interpreter::{Control, Interpreter, Request};
use stack_interpreter::report::{failure_message, message};
use stack_interpreter::stack::Stack;

fn text(instr: char, error: ExecError) -> String {
    failure_message(instr, error)
}

#[test]
fn underflow_names_the_instruction() {
    assert_eq!(text('b', ExecError::StackUnderflow), "b error: stack is empty");
    assert_eq!(text('x', ExecError::StackUnderflow), "x error: stack is empty");
}

#[test]
fn a_full_stack() {
    assert_eq!(text('a', ExecError::CapacityExceeded), "push error: max size reached");
    assert_eq!(text('q', ExecError::CapacityExceeded), "push error: max size reached");
}

#[test]
fn a_bad_index() {
    assert_eq!(text('o', ExecError::IndexOutOfRange), "remove error: index out of range");
    assert_eq!(text('s', ExecError::IndexOutOfRange), "swap error: second index out of range");
}

#[test]
fn leaving_the_range() {
    let up = "cannot increment: value should stay between 0 and 1000";
    let down = "cannot decrement: value should stay between 0 and 1000";
    assert_eq!(text('i', ExecError::RangeViolation), up);
    assert_eq!(text('v', ExecError::RangeViolation), up);
    assert_eq!(text('d', ExecError::RangeViolation), down);
    assert_eq!(text('w', ExecError::RangeViolation), down);
    assert_eq!(text('m', ExecError::RangeViolation), "m error: result out of range");
}

#[test]
fn dividing_by_zero() {
    assert_eq!(text('p', ExecError::DivisionByZero), "p error: dividing by zero");
    assert_eq!(text('e', ExecError::DivisionByZero), "e error: dividing by zero");
}

#[test]
fn bad_input() {
    let input = |f| ExecError::InputError(f);
    assert_eq!(text('h', input(InputFailure::Unavailable)), "h error: readline failed");
    assert_eq!(text('h', input(InputFailure::NotAnInteger)), "h error: input is not an integer");
    assert_eq!(
        text('h', input(InputFailure::OutOfRange)),
        "h error: input is not an integer in the allowed range 0-1000"
    );
    assert_eq!(text('j', input(InputFailure::Unavailable)), "j error: cannot get input");
    assert_eq!(
        text('j', input(InputFailure::EndOfInput)),
        "j error: cannot read a char from stdin"
    );
}

#[test]
fn only_a_failed_run_has_a_message() {
    assert_eq!(message(Control::Finished), None);
    assert_eq!(message(Control::Prompt), None);
    assert_eq!(message(Control::Ready { instr: 'a', manual: false }), None);
    assert_eq!(
        message(Control::Failed { instr: 'k', error: ExecError::StackUnderflow }),
        Some("k error: stack is empty".to_string())
    );
    assert_eq!(message(Control::Unattended), Some("h error: readline failed".to_string()));
}

#[test]
fn the_message_of_a_run() {
    let mut run = Interpreter::new(Stack::new(4), "aiil", false);
    while run.request() != Request::Finished {
        run.advance(Input::Nothing);
    }
    assert_eq!(run.outcome(), Some(Err(ExecError::StackUnderflow)));
    assert_eq!(message(run.control()), Some("l error: stack is empty".to_string()));
}
