//! What a failed run has to say for itself.

use crate::instruction::{ExecError, InputFailure};
use crate::interpreter::Control;
use vstd::prelude::*;
use vstd::string::*;

verus! {

/// The message for a run that ended because `instr` failed with `error`.
pub open spec fn spec_failure_message(instr: char, error: ExecError) -> Seq<char> {
    match error {
        ExecError::StackUnderflow => seq![instr] + " error: stack is empty"@,
        ExecError::CapacityExceeded => "push error: max size reached"@,
        ExecError::IndexOutOfRange => if instr == 's' {
            "swap error: second index out of range"@
        } else {
            "remove error: index out of range"@
        },
        ExecError::RangeViolation => if instr == 'd' || instr == 'w' {
            "cannot decrement: value should stay between 0 and 1000"@
        } else if instr == 'i' || instr == 'v' {
            "cannot increment: value should stay between 0 and 1000"@
        } else {
            seq![instr] + " error: result out of range"@
        },
        ExecError::DivisionByZero => seq![instr] + " error: dividing by zero"@,
        ExecError::InputError(failure) => match failure {
            InputFailure::Unavailable => if instr == 'j' {
                "j error: cannot get input"@
            } else {
                "h error: readline failed"@
            },
            InputFailure::NotAnInteger => "h error: input is not an integer"@,
            InputFailure::OutOfRange =>
                "h error: input is not an integer in the allowed range 0-1000"@,
            InputFailure::EndOfInput => "j error: cannot read a char from stdin"@,
        },
    }
}

/// The message with which a run ended, where it ended in failure.
pub open spec fn spec_message(control: Control) -> Option<Seq<char>> {
    match control {
        Control::Failed { instr, error } => Some(spec_failure_message(instr, error)),
        Control::Unattended => Some("h error: readline failed"@),
        _ => None,
    }
}

/// The letter `instr` followed by `rest`.
fn lettered(instr: char, rest: &str) -> (text: String)
    ensures
        text@ == seq![instr] + rest@,
{
    let mut text = String::new();
    text.push(instr);
    assert(text@ == seq![instr]);
    text.append(rest);
    text
}

/// The message for a run that ended because `instr` failed with `error`.
pub fn failure_message(instr: char, error: ExecError) -> (text: String)
    ensures
        text@ == spec_failure_message(instr, error),
{
    match error {
        ExecError::StackUnderflow => lettered(instr, " error: stack is empty"),
        ExecError::CapacityExceeded => String::from_str("push error: max size reached"),
        ExecError::IndexOutOfRange => {
            if instr == 's' {
                String::from_str("swap error: second index out of range")
            } else {
                String::from_str("remove error: index out of range")
            }
        },
        ExecError::RangeViolation => {
            if instr == 'd' || instr == 'w' {
                String::from_str("cannot decrement: value should stay between 0 and 1000")
            } else if instr == 'i' || instr == 'v' {
                String::from_str("cannot increment: value should stay between 0 and 1000")
            } else {
                lettered(instr, " error: result out of range")
            }
        },
        ExecError::DivisionByZero => lettered(instr, " error: dividing by zero"),
        ExecError::InputError(failure) => match failure {
            InputFailure::Unavailable => {
                if instr == 'j' {
                    String::from_str("j error: cannot get input")
                } else {
                    String::from_str("h error: readline failed")
                }
            },
            InputFailure::NotAnInteger => String::from_str("h error: input is not an integer"),
            InputFailure::OutOfRange => String::from_str(
                "h error: input is not an integer in the allowed range 0-1000",
            ),
            InputFailure::EndOfInput => String::from_str("j error: cannot read a char from stdin"),
        },
    }
}

/// The message with which a run ended, where it ended in failure.
pub fn message(control: Control) -> (r: Option<String>)
    ensures
        match spec_message(control) {
            Some(text) => r matches Some(s) && s@ == text,
            None => r is None,
        },
{
    match control {
        Control::Failed { instr, error } => Some(failure_message(instr, error)),
        Control::Unattended => Some(String::from_str("h error: readline failed")),
        _ => None,
    }
}

} // verus!
