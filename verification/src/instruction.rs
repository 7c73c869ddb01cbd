//! The instructions of the language and what each of them does.
//!
//! An instruction is one letter. It works on a bounded stack of `i64`
//! values, where "top" is the element pushed last and "second" the one
//! below it. An instruction either takes effect as a whole or fails and
//! leaves the stack as it was.

use crate::jump::{find_corresponding_t, find_corresponding_u, matching_close, matching_open};
use crate::stack::Stack;
use crate::text::{decimal_i64, parse_i64, trim, trimmed};
use vstd::prelude::*;

verus! {

/// Why input for an instruction could not be used.
#[derive(Clone, Copy, Debug, PartialEq, Eq, Structural)]
pub enum InputFailure {
    /// Nothing could be read.
    Unavailable,
    /// The line read is not a decimal integer.
    NotAnInteger,
    /// The integer read lies outside 0 to 1000.
    OutOfRange,
    /// The input has ended.
    EndOfInput,
}

/// Why an instruction failed. The first failure ends the run.
#[derive(Clone, Copy, Debug, PartialEq, Eq, Structural)]
pub enum ExecError {
    /// The instruction needs more elements than the stack holds.
    StackUnderflow,
    /// The stack is full.
    CapacityExceeded,
    /// The top of the stack does not name a position of the stack.
    IndexOutOfRange,
    /// The result would leave the range of values an instruction may produce.
    RangeViolation,
    /// The divisor is zero.
    DivisionByZero,
    /// The input that the instruction asked for is missing or malformed.
    InputError(InputFailure),
}

/// What was read on behalf of an instruction, before it runs.
#[derive(Debug, PartialEq, Eq)]
pub enum Input {
    /// Nothing: none was asked for, or reading failed.
    Nothing,
    /// A line of text, as it was read.
    Line(String),
    /// One byte.
    Byte(u8),
    /// The input had ended.
    End,
}

/// Something an instruction wants printed.
#[derive(Clone, Copy, Debug, PartialEq, Eq, Structural)]
pub enum Print {
    /// A character.
    Char(char),
    /// An integer, in decimal.
    Number(i64),
}

/// What an instruction does to the program counter, before the counter
/// moves on to the next position.
#[derive(Clone, Copy, Debug, PartialEq, Eq, Structural)]
pub enum Flow {
    /// Nothing.
    Next,
    /// It steps over the following instruction.
    Skip,
    /// It moves to the given position.
    Jump(usize),
    /// It ends the run.
    Halt,
}

/// What an instruction did besides changing the stack.
#[derive(Clone, Copy, Debug, PartialEq, Eq, Structural)]
pub struct Effect {
    pub print: Option<Print>,
    pub flow: Flow,
}

/// The result of an instruction: the new stack and the effect, or the failure.
pub type Outcome = Result<(Seq<i64>, Effect), ExecError>;

/// The effect of an instruction that prints nothing and does not touch the
/// program counter.
pub open spec fn quiet() -> Effect {
    Effect { print: None, flow: Flow::Next }
}

/// Absolute value.
pub open spec fn magnitude(x: int) -> int {
    if x < 0 {
        -x
    } else {
        x
    }
}

/// The quotient of `x` by `d`, rounded toward zero.
pub open spec fn truncated_quotient(x: int, d: int) -> int {
    let q = magnitude(x) / magnitude(d);
    if (x < 0) == (d < 0) {
        q
    } else {
        -q
    }
}

/// The remainder that goes with [`truncated_quotient`]; it has the sign of `x`.
pub open spec fn truncated_remainder(x: int, d: int) -> int {
    x - d * truncated_quotient(x, d)
}

/// Pushing `value`: it fails when the stack is full.
pub open spec fn spec_push(stack: Seq<i64>, capacity: nat, value: i64) -> Outcome {
    if stack.len() < capacity {
        Ok((stack.push(value), quiet()))
    } else {
        Err(ExecError::CapacityExceeded)
    }
}

/// The value that an arithmetic instruction computes from the two topmost
/// elements: `c` subtracts top from second, `g` adds them, `m` multiplies
/// them, `n` tells whether they are equal, `e` is top modulo second and `p`
/// top divided by second.
pub open spec fn spec_compute(instr: char, second: int, top: int) -> Result<int, ExecError> {
    if instr == 'c' {
        Ok(second - top)
    } else if instr == 'g' {
        Ok(second + top)
    } else if instr == 'm' {
        Ok(second * top)
    } else if instr == 'n' {
        Ok(
            if top == second {
                1
            } else {
                0
            },
        )
    } else if second == 0 {
        Err(ExecError::DivisionByZero)
    } else if instr == 'e' {
        Ok(truncated_remainder(top, second))
    } else {
        Ok(truncated_quotient(top, second))
    }
}

/// An arithmetic instruction (`c`, `e`, `g`, `m`, `n`, `p`): it needs two
/// elements, leaves them where they are and pushes the value computed from
/// them, which must be one that an `i64` can hold.
pub open spec fn spec_arithmetic(instr: char, stack: Seq<i64>, capacity: nat) -> Outcome {
    if stack.len() < 2 {
        Err(ExecError::StackUnderflow)
    } else {
        match spec_compute(instr, stack[stack.len() - 2] as int, stack.last() as int) {
            Err(e) => Err(e),
            Ok(value) => if value < i64::MIN || value > i64::MAX {
                Err(ExecError::RangeViolation)
            } else {
                spec_push(stack, capacity, value as i64)
            },
        }
    }
}

/// The new top that `d`, `i`, `v` or `w` makes of the old one: `d` takes 1
/// off a top above 0, `i` adds 1 to a top below 1000, `v` adds 5 to a top
/// below 995 and `w` takes 5 off a top above 5.
pub open spec fn spec_adjusted(instr: char, top: int) -> Option<int> {
    if instr == 'd' {
        if top > 0 {
            Some(top - 1)
        } else {
            None
        }
    } else if instr == 'i' {
        if top < 1000 {
            Some(top + 1)
        } else {
            None
        }
    } else if instr == 'v' {
        if top < 995 {
            Some(top + 5)
        } else {
            None
        }
    } else {
        if top > 5 {
            Some(top - 5)
        } else {
            None
        }
    }
}

/// An instruction that changes the top in place (`d`, `i`, `v`, `w`).
pub open spec fn spec_adjust(instr: char, stack: Seq<i64>) -> Outcome {
    if stack.len() == 0 {
        Err(ExecError::StackUnderflow)
    } else {
        match spec_adjusted(instr, stack.last() as int) {
            Some(value) => Ok((stack.update(stack.len() - 1, value as i64), quiet())),
            None => Err(ExecError::RangeViolation),
        }
    }
}

/// The position, counted from the bottom, that lies `stack.last()` places
/// below the top, where the top names such a position.
pub open spec fn spec_named_position(stack: Seq<i64>) -> Result<int, ExecError> {
    if stack.len() == 0 {
        Err(ExecError::StackUnderflow)
    } else if 0 <= stack.last() < stack.len() {
        Ok(stack.len() - 1 - stack.last())
    } else {
        Err(ExecError::IndexOutOfRange)
    }
}

/// What `h` does with the line it was given, once the line has been read as
/// a number: it pushes an integer from 0 to 1000.
pub open spec fn spec_push_number(stack: Seq<i64>, capacity: nat, parsed: Option<i64>) -> Outcome {
    match parsed {
        None => Err(ExecError::InputError(InputFailure::NotAnInteger)),
        Some(value) => if value < 0 || value > 1000 {
            Err(ExecError::InputError(InputFailure::OutOfRange))
        } else {
            spec_push(stack, capacity, value)
        },
    }
}

/// An instruction that only looks at the top (`f`, `k`, `t`, `u`, `x`).
pub open spec fn spec_inspect(instr: char, stack: Seq<i64>, program: Seq<char>, pc: int) -> Outcome {
    if stack.len() == 0 {
        Err(ExecError::StackUnderflow)
    } else {
        let top = stack.last();
        let effect = if instr == 'f' {
            Effect { print: Some(Print::Char((top as u8) as char)), flow: Flow::Next }
        } else if instr == 'x' {
            Effect { print: Some(Print::Number(top)), flow: Flow::Next }
        } else if instr == 'k' && top == 0 {
            Effect { print: None, flow: Flow::Skip }
        } else if instr == 't' && top == 0 {
            Effect { print: None, flow: Flow::Jump(matching_close(program, pc) as usize) }
        } else if instr == 'u' && top != 0 {
            Effect { print: None, flow: Flow::Jump(matching_open(program, pc) as usize) }
        } else {
            quiet()
        };
        Ok((stack, effect))
    }
}

/// What the instruction `instr`, found or run at position `pc` of
/// `program`, does to `stack`, given the `input` read for it.
pub open spec fn spec_execute(
    instr: char,
    stack: Seq<i64>,
    capacity: nat,
    program: Seq<char>,
    pc: int,
    input: Input,
) -> Outcome {
    match instr {
        'a' => spec_push(stack, capacity, 0),
        'b' => if stack.len() == 0 {
            Err(ExecError::StackUnderflow)
        } else {
            Ok((stack.drop_last(), quiet()))
        },
        'c' | 'e' | 'g' | 'm' | 'n' | 'p' => spec_arithmetic(instr, stack, capacity),
        'd' | 'i' | 'v' | 'w' => spec_adjust(instr, stack),
        'f' | 'k' | 't' | 'u' | 'x' => spec_inspect(instr, stack, program, pc),
        'h' => match input {
            Input::Line(line) => spec_push_number(stack, capacity, decimal_i64(trimmed(line@))),
            _ => Err(ExecError::InputError(InputFailure::Unavailable)),
        },
        'j' => match input {
            Input::Byte(byte) => spec_push(stack, capacity, byte as i64),
            Input::End => Err(ExecError::InputError(InputFailure::EndOfInput)),
            _ => Err(ExecError::InputError(InputFailure::Unavailable)),
        },
        'l' => if stack.len() < 2 {
            Err(ExecError::StackUnderflow)
        } else {
            Ok(
                (
                    stack.update(stack.len() - 1, stack[stack.len() - 2]).update(
                        stack.len() - 2,
                        stack.last(),
                    ),
                    quiet(),
                ),
            )
        },
        'o' => match spec_named_position(stack) {
            Err(e) => Err(e),
            Ok(position) => Ok((stack.remove(position), quiet())),
        },
        'q' => if stack.len() == 0 {
            Err(ExecError::StackUnderflow)
        } else {
            spec_push(stack, capacity, stack.last())
        },
        'r' => if stack.len() > i64::MAX {
            Err(ExecError::RangeViolation)
        } else {
            spec_push(stack, capacity, stack.len() as i64)
        },
        's' => match spec_named_position(stack) {
            Err(e) => Err(e),
            Ok(position) => Ok(
                (
                    stack.update(stack.len() - 1, stack[position]).update(position, stack.last()),
                    quiet(),
                ),
            ),
        },
        'y' => Ok((Seq::empty(), quiet())),
        'z' => Ok((stack, Effect { print: None, flow: Flow::Halt })),
        _ => Ok((stack, quiet())),
    }
}

/// An instruction was carried out as `expected` says: on success the stack
/// is the new one and the effect is returned, on failure the stack is the
/// one from before and the error is returned.
pub open spec fn carried_out(
    expected: Outcome,
    before: Seq<i64>,
    after: Seq<i64>,
    returned: Result<Effect, ExecError>,
) -> bool {
    match expected {
        Ok((stack, effect)) => returned == Ok::<Effect, ExecError>(effect) && after =~= stack,
        Err(e) => returned == Err::<Effect, ExecError>(e) && after =~= before,
    }
}

/// How the two kinds of division relate on each combination of signs: the
/// quotient that rounds toward zero and its remainder, written with the
/// division that rounds down.
pub proof fn lemma_truncated_division(x: int, d: int)
    requires
        d != 0,
    ensures
        x >= 0 && d > 0 ==> truncated_quotient(x, d) == x / d && truncated_remainder(x, d) == x % d,
        x < 0 && d < 0 ==> truncated_quotient(x, d) == (-x) / (-d) && truncated_remainder(x, d)
            == -((-x) % (-d)),
        x < 0 && d > 0 ==> truncated_quotient(x, d) == -((-x) / d) && truncated_remainder(x, d)
            == -((-x) % d),
        x >= 0 && d < 0 ==> truncated_quotient(x, d) == -(x / (-d)) && truncated_remainder(x, d)
            == x % (-d),
        magnitude(truncated_remainder(x, d)) < magnitude(d),
        magnitude(truncated_quotient(x, d)) <= magnitude(x),
        x == 0 ==> truncated_quotient(x, d) == 0 && truncated_remainder(x, d) == 0,
{
    let a = magnitude(x);
    let b = magnitude(d);
    vstd::arithmetic::div_mod::lemma_fundamental_div_mod(a, b);
    vstd::arithmetic::div_mod::lemma_mod_bound(a, b);
    vstd::arithmetic::div_mod::lemma_div_pos_is_pos(a, b);
    let q = a / b;
    let r = a % b;
    assert(a == b * q + r);
    assert(q <= a) by (nonlinear_arith)
        requires
            a == b * q + r,
            b >= 1,
            q >= 0,
            r >= 0,
    ;
    assert(d * (-q) == -(d * q)) by (nonlinear_arith);
    assert((-d) * q == -(d * q)) by (nonlinear_arith);
    if x == 0 {
        assert(q == 0);
        assert(d * q == 0) by (nonlinear_arith)
            requires
                q == 0,
        ;
    }
}

/// What an arithmetic instruction computes, as a machine integer.
fn compute(instr: char, second: i64, top: i64) -> (r: Result<i64, ExecError>)
    requires
        instr == 'c' || instr == 'e' || instr == 'g' || instr == 'm' || instr == 'n' || instr
            == 'p',
    ensures
        r == match spec_compute(instr, second as int, top as int) {
            Err(e) => Err::<i64, ExecError>(e),
            Ok(value) => if value < i64::MIN || value > i64::MAX {
                Err::<i64, ExecError>(ExecError::RangeViolation)
            } else {
                Ok::<i64, ExecError>(value as i64)
            },
        },
{
    let computed = match instr {
        'c' => second.checked_sub(top),
        'g' => second.checked_add(top),
        'm' => second.checked_mul(top),
        'n' => Some(
            if top == second {
                1
            } else {
                0
            },
        ),
        _ => {
            if second == 0 {
                return Err(ExecError::DivisionByZero);
            }
            proof {
                lemma_truncated_division(top as int, second as int);
            }
            if instr == 'e' {
                if second == -1 {
                    Some(0)
                } else {
                    top.checked_rem(second)
                }
            } else {
                top.checked_div(second)
            }
        },
    };
    match computed {
        Some(value) => Ok(value),
        None => Err(ExecError::RangeViolation),
    }
}

/// Pushes `value`.
fn push_value(memory: &mut Stack<i64>, value: i64) -> (r: Result<Effect, ExecError>)
    requires
        old(memory).wf(),
    ensures
        final(memory).wf(),
        final(memory).capacity() == old(memory).capacity(),
        carried_out(
            spec_push(old(memory)@, old(memory).capacity(), value),
            old(memory)@,
            final(memory)@,
            r,
        ),
{
    match memory.push(value) {
        Ok(()) => Ok(Effect { print: None, flow: Flow::Next }),
        Err(_) => Err(ExecError::CapacityExceeded),
    }
}

/// Carries out one of `c`, `e`, `g`, `m`, `n`, `p`.
fn arithmetic(instr: char, memory: &mut Stack<i64>) -> (r: Result<Effect, ExecError>)
    requires
        old(memory).wf(),
        instr == 'c' || instr == 'e' || instr == 'g' || instr == 'm' || instr == 'n' || instr
            == 'p',
    ensures
        final(memory).wf(),
        final(memory).capacity() == old(memory).capacity(),
        carried_out(
            spec_arithmetic(instr, old(memory)@, old(memory).capacity()),
            old(memory)@,
            final(memory)@,
            r,
        ),
{
    let ghost before = memory@;
    let top = match memory.pop() {
        Some(top) => top,
        None => {
            return Err(ExecError::StackUnderflow);
        },
    };
    let second = match memory.pop() {
        Some(second) => second,
        None => {
            let _ = memory.push(top);
            assert(memory@ =~= before);
            return Err(ExecError::StackUnderflow);
        },
    };
    let computed = compute(instr, second, top);
    let _ = memory.push(second);
    let _ = memory.push(top);
    assert(memory@ =~= before);
    match computed {
        Ok(value) => push_value(memory, value),
        Err(e) => Err(e),
    }
}

/// Carries out one of `d`, `i`, `v`, `w`.
fn adjust(instr: char, memory: &mut Stack<i64>) -> (r: Result<Effect, ExecError>)
    requires
        old(memory).wf(),
        instr == 'd' || instr == 'i' || instr == 'v' || instr == 'w',
    ensures
        final(memory).wf(),
        final(memory).capacity() == old(memory).capacity(),
        carried_out(spec_adjust(instr, old(memory)@), old(memory)@, final(memory)@, r),
{
    match memory.last_mut() {
        None => Err(ExecError::StackUnderflow),
        Some(top) => {
            let allowed = match instr {
                'd' => *top > 0,
                'i' => *top < 1000,
                'v' => *top < 995,
                _ => *top > 5,
            };
            if allowed {
                match instr {
                    'd' => *top -= 1,
                    'i' => *top += 1,
                    'v' => *top += 5,
                    _ => *top -= 5,
                }
                Ok(Effect { print: None, flow: Flow::Next })
            } else {
                Err(ExecError::RangeViolation)
            }
        },
    }
}

/// The position that the top names, counted from the bottom.
fn named_position(memory: &Stack<i64>) -> (r: Result<usize, ExecError>)
    ensures
        spec_named_position(memory@) == match r {
            Ok(position) => Ok::<int, ExecError>(position as int),
            Err(e) => Err::<int, ExecError>(e),
        },
        r matches Ok(position) ==> position < memory@.len(),
{
    let length = memory.length();
    match memory.last() {
        None => Err(ExecError::StackUnderflow),
        Some(top) => {
            if *top < 0 || *top as u64 >= length as u64 {
                Err(ExecError::IndexOutOfRange)
            } else {
                Ok(length - 1 - *top as usize)
            }
        },
    }
}

/// Carries out one of `f`, `k`, `t`, `u`, `x`.
fn inspect(instr: char, memory: &Stack<i64>, program: &Vec<char>, pc: usize) -> (r: Result<
    Effect,
    ExecError,
>)
    requires
        pc < program.len(),
        instr == 'f' || instr == 'k' || instr == 't' || instr == 'u' || instr == 'x',
    ensures
        carried_out(spec_inspect(instr, memory@, program@, pc as int), memory@, memory@, r),
{
    let top = match memory.last() {
        Some(top) => *top,
        None => {
            return Err(ExecError::StackUnderflow);
        },
    };
    let effect = match instr {
        'f' => {
            let byte: u8 = #[verifier::truncate]
            (top as u8);
            Effect { print: Some(Print::Char(byte as char)), flow: Flow::Next }
        },
        'x' => Effect { print: Some(Print::Number(top)), flow: Flow::Next },
        'k' => Effect {
            print: None,
            flow: if top == 0 {
                Flow::Skip
            } else {
                Flow::Next
            },
        },
        't' => Effect {
            print: None,
            flow: if top == 0 {
                Flow::Jump(find_corresponding_u(program, pc))
            } else {
                Flow::Next
            },
        },
        _ => Effect {
            print: None,
            flow: if top != 0 {
                Flow::Jump(find_corresponding_t(program, pc))
            } else {
                Flow::Next
            },
        },
    };
    Ok(effect)
}

/// What `h` does once the line it was given has been read as a number:
/// it pushes `parsed` where that is an integer from 0 to 1000.
pub fn push_number(memory: &mut Stack<i64>, parsed: Option<i64>) -> (r: Result<Effect, ExecError>)
    requires
        old(memory).wf(),
    ensures
        final(memory).wf(),
        final(memory).capacity() == old(memory).capacity(),
        carried_out(
            spec_push_number(old(memory)@, old(memory).capacity(), parsed),
            old(memory)@,
            final(memory)@,
            r,
        ),
{
    match parsed {
        None => Err(ExecError::InputError(InputFailure::NotAnInteger)),
        Some(value) => {
            if value < 0 || value > 1000 {
                Err(ExecError::InputError(InputFailure::OutOfRange))
            } else {
                push_value(memory, value)
            }
        },
    }
}

/// Carries out the instruction `instr`, found or run at position `pc` of
/// `program`, on `memory`, with the `input` that was read for it. On
/// failure `memory` is left as it was.
pub fn execute(
    instr: char,
    memory: &mut Stack<i64>,
    program: &Vec<char>,
    pc: usize,
    input: &Input,
) -> (r: Result<Effect, ExecError>)
    requires
        old(memory).wf(),
        pc < program.len(),
    ensures
        final(memory).wf(),
        final(memory).capacity() == old(memory).capacity(),
        carried_out(
            spec_execute(
                instr,
                old(memory)@,
                old(memory).capacity(),
                program@,
                pc as int,
                *input,
            ),
            old(memory)@,
            final(memory)@,
            r,
        ),
{
    match instr {
        'a' => push_value(memory, 0),
        'b' => match memory.pop() {
            Some(_) => Ok(Effect { print: None, flow: Flow::Next }),
            None => Err(ExecError::StackUnderflow),
        },
        'c' | 'e' | 'g' | 'm' | 'n' | 'p' => arithmetic(instr, memory),
        'd' | 'i' | 'v' | 'w' => adjust(instr, memory),
        'f' | 'k' | 't' | 'u' | 'x' => inspect(instr, memory, program, pc),
        'h' => match input {
            Input::Line(line) => {
                let parsed = parse_i64(trim(line.as_str()));
                push_number(memory, parsed)
            },
            _ => Err(ExecError::InputError(InputFailure::Unavailable)),
        },
        'j' => match input {
            Input::Byte(byte) => push_value(memory, *byte as i64),
            Input::End => Err(ExecError::InputError(InputFailure::EndOfInput)),
            _ => Err(ExecError::InputError(InputFailure::Unavailable)),
        },
        'l' => {
            let length = memory.length();
            if length < 2 {
                Err(ExecError::StackUnderflow)
            } else {
                let _ = memory.swap(length - 1, length - 2);
                Ok(Effect { print: None, flow: Flow::Next })
            }
        },
        'o' => match named_position(memory) {
            Err(e) => Err(e),
            Ok(position) => {
                let _ = memory.remove(position);
                Ok(Effect { print: None, flow: Flow::Next })
            },
        },
        'q' => match memory.last() {
            None => Err(ExecError::StackUnderflow),
            Some(top) => {
                let value = *top;
                push_value(memory, value)
            },
        },
        'r' => {
            let length = memory.length();
            if length as u64 > i64::MAX as u64 {
                Err(ExecError::RangeViolation)
            } else {
                push_value(memory, length as i64)
            }
        },
        's' => match named_position(memory) {
            Err(e) => Err(e),
            Ok(position) => {
                let length = memory.length();
                let _ = memory.swap(length - 1, position);
                Ok(Effect { print: None, flow: Flow::Next })
            },
        },
        'y' => {
            memory.clear();
            Ok(Effect { print: None, flow: Flow::Next })
        },
        'z' => Ok(Effect { print: None, flow: Flow::Halt }),
        _ => Ok(Effect { print: None, flow: Flow::Next }),
    }
}

/// A stack of `n` zeros.
pub open spec fn zeros(n: nat) -> Seq<i64> {
    Seq::new(n, |i: int| 0i64)
}

/// The stack after the instruction `instr` has run `n` times in a row,
/// starting from `stack`, or the first failure on the way.
pub open spec fn spec_repeat(
    instr: char,
    n: nat,
    stack: Seq<i64>,
    capacity: nat,
    program: Seq<char>,
    pc: int,
    input: Input,
) -> Result<Seq<i64>, ExecError>
    decreases n,
{
    if n == 0 {
        Ok(stack)
    } else {
        match spec_repeat(instr, (n - 1) as nat, stack, capacity, program, pc, input) {
            Err(e) => Err(e),
            Ok(earlier) => match spec_execute(instr, earlier, capacity, program, pc, input) {
                Err(e) => Err(e),
                Ok((later, _)) => Ok(later),
            },
        }
    }
}

/// Pushing zeros onto an empty stack: as long as no more than `capacity`
/// instructions `a` have run, the stack holds one zero for each of them, so
/// its length is their number; the `a` that follows the last of `capacity`
/// fails because the stack is full, and so does every longer row of them.
pub proof fn lemma_pushes_fill_the_stack(
    capacity: nat,
    n: nat,
    program: Seq<char>,
    pc: int,
    input: Input,
)
    ensures
        zeros(n).len() == n,
        n <= capacity ==> spec_repeat('a', n, Seq::empty(), capacity, program, pc, input) == Ok::<
            Seq<i64>,
            ExecError,
        >(zeros(n)),
        n > capacity ==> spec_repeat('a', n, Seq::empty(), capacity, program, pc, input) == Err::<
            Seq<i64>,
            ExecError,
        >(ExecError::CapacityExceeded),
        spec_execute('a', zeros(capacity), capacity, program, pc, input) == Err::<
            (Seq<i64>, Effect),
            ExecError,
        >(ExecError::CapacityExceeded),
    decreases n,
{
    if n == 0 {
        assert(zeros(0) =~= Seq::<i64>::empty());
    } else {
        lemma_pushes_fill_the_stack(capacity, (n - 1) as nat, program, pc, input);
        assert(zeros((n - 1) as nat).push(0i64) =~= zeros(n));
    }
}

/// Incrementing and decrementing undo each other. On a stack whose top is
/// a value from 0 to 1000, `i` followed by `d` gives the stack back unless
/// the top is 1000, where `i` fails, and `d` followed by `i` gives it back
/// unless the top is 0, where `d` fails; both fail for leaving the range.
pub proof fn lemma_increment_and_decrement_cancel(
    stack: Seq<i64>,
    capacity: nat,
    program: Seq<char>,
    pc: int,
    input: Input,
)
    requires
        stack.len() > 0,
        0 <= stack.last() <= 1000,
    ensures
        stack.last() < 1000 ==> {
            &&& spec_execute('i', stack, capacity, program, pc, input) matches Ok((raised, effect))
            &&& effect == quiet()
            &&& raised == stack.update(stack.len() - 1, (stack.last() + 1) as i64)
            &&& spec_execute('d', raised, capacity, program, pc, input) == Ok::<
                (Seq<i64>, Effect),
                ExecError,
            >((stack, quiet()))
        },
        stack.last() == 1000 ==> spec_execute('i', stack, capacity, program, pc, input) == Err::<
            (Seq<i64>, Effect),
            ExecError,
        >(ExecError::RangeViolation),
        stack.last() > 0 ==> {
            &&& spec_execute('d', stack, capacity, program, pc, input) matches Ok((lowered, effect))
            &&& effect == quiet()
            &&& lowered == stack.update(stack.len() - 1, (stack.last() - 1) as i64)
            &&& spec_execute('i', lowered, capacity, program, pc, input) == Ok::<
                (Seq<i64>, Effect),
                ExecError,
            >((stack, quiet()))
        },
        stack.last() == 0 ==> spec_execute('d', stack, capacity, program, pc, input) == Err::<
            (Seq<i64>, Effect),
            ExecError,
        >(ExecError::RangeViolation),
{
    let last = stack.len() - 1;
    if stack.last() < 1000 {
        let raised = stack.update(last, (stack.last() + 1) as i64);
        assert(raised.update(last, stack.last()) =~= stack);
    }
    if stack.last() > 0 {
        let lowered = stack.update(last, (stack.last() - 1) as i64);
        assert(lowered.update(last, stack.last()) =~= stack);
    }
}

/// Dividing by zero fails: whatever the top is, `p` on a stack whose second
/// element is 0 fails with `DivisionByZero`, and so does `e`.
pub proof fn lemma_division_by_zero_fails(
    stack: Seq<i64>,
    capacity: nat,
    program: Seq<char>,
    pc: int,
    input: Input,
)
    requires
        stack.len() >= 2,
        stack[stack.len() - 2] == 0,
    ensures
        spec_execute('p', stack, capacity, program, pc, input) == Err::<
            (Seq<i64>, Effect),
            ExecError,
        >(ExecError::DivisionByZero),
        spec_execute('e', stack, capacity, program, pc, input) == Err::<
            (Seq<i64>, Effect),
            ExecError,
        >(ExecError::DivisionByZero),
{
}

/// No instruction leaves more elements on the stack than the stack may
/// hold, and a failed instruction has no outcome to leave.
pub proof fn lemma_execute_keeps_within_capacity(
    instr: char,
    stack: Seq<i64>,
    capacity: nat,
    program: Seq<char>,
    pc: int,
    input: Input,
)
    requires
        stack.len() <= capacity,
    ensures
        spec_execute(instr, stack, capacity, program, pc, input) matches Ok((after, _))
            ==> after.len() <= capacity,
{
}

} // verus!
