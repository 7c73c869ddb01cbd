use stack_interpreter::instruction::{
    execute, push_number, Effect, ExecError, Flow, Input, InputFailure, Print,
};
use stack_interpreter::stack::Stack;

const QUIET: Effect = Effect { print: None, flow: Flow::Next };

fn filled(max_size: usize, values: &[i64]) -> Stack<i64> {
    let mut stack = Stack::new(max_size);
    for v in values {
        assert_eq!(stack.push(*v), Ok(()));
    }
    stack
}

fn contents(mut stack: Stack<i64>) -> Vec<i64> {
    let mut out = Vec::new();
    while let Some(v) = stack.pop() {
        out.push(v);
    }
    out.reverse();
    out
}

/// Runs `instr` on a stack of `values` with room for `max_size`.
fn on(
    instr: char,
    max_size: usize,
    values: &[i64],
    input: Input,
) -> (Result<Effect, ExecError>, Vec<i64>) {
    let mut stack = filled(max_size, values);
    let program: Vec<char> = vec![instr];
    let r = execute(instr, &mut stack, &program, 0, &input);
    (r, contents(stack))
}

fn plain(instr: char, values: &[i64]) -> (Result<Effect, ExecError>, Vec<i64>) {
    on(instr, 10, values, Input::Nothing)
}

fn expect_unchanged(instr: char, max_size: usize, values: &[i64], error: ExecError) {
    assert_eq!(on(instr, max_size, values, Input::Nothing), (Err(error), values.to_vec()));
}

#[test]
fn a_pushes_zero() {
    assert_eq!(plain('a', &[5]), (Ok(QUIET), vec![5, 0]));
    expect_unchanged('a', 1, &[5], ExecError::CapacityExceeded);
}

#[test]
fn b_pops() {
    assert_eq!(plain('b', &[5, 6]), (Ok(QUIET), vec![5]));
    expect_unchanged('b', 3, &[], ExecError::StackUnderflow);
}

#[test]
fn c_subtracts_top_from_second() {
    assert_eq!(plain('c', &[9, 7, 3]), (Ok(QUIET), vec![9, 7, 3, 4]));
    assert_eq!(plain('c', &[3, 7]), (Ok(QUIET), vec![3, 7, -4]));
    expect_unchanged('c', 5, &[3], ExecError::StackUnderflow);
    expect_unchanged('c', 5, &[], ExecError::StackUnderflow);
    expect_unchanged('c', 2, &[7, 3], ExecError::CapacityExceeded);
    expect_unchanged('c', 5, &[i64::MIN, 1], ExecError::RangeViolation);
}

#[test]
fn g_adds() {
    assert_eq!(plain('g', &[7, 3]), (Ok(QUIET), vec![7, 3, 10]));
    assert_eq!(plain('g', &[1000, 1000]), (Ok(QUIET), vec![1000, 1000, 2000]));
    expect_unchanged('g', 5, &[3], ExecError::StackUnderflow);
    expect_unchanged('g', 2, &[7, 3], ExecError::CapacityExceeded);
    expect_unchanged('g', 5, &[i64::MAX, 1], ExecError::RangeViolation);
}

#[test]
fn m_multiplies() {
    assert_eq!(plain('m', &[7, 3]), (Ok(QUIET), vec![7, 3, 21]));
    assert_eq!(plain('m', &[-7, 3]), (Ok(QUIET), vec![-7, 3, -21]));
    expect_unchanged('m', 5, &[3], ExecError::StackUnderflow);
    expect_unchanged('m', 2, &[7, 3], ExecError::CapacityExceeded);
    expect_unchanged('m', 5, &[i64::MAX, 2], ExecError::RangeViolation);
}

#[test]
fn n_compares() {
    assert_eq!(plain('n', &[4, 4]), (Ok(QUIET), vec![4, 4, 1]));
    assert_eq!(plain('n', &[4, 5]), (Ok(QUIET), vec![4, 5, 0]));
    expect_unchanged('n', 5, &[3], ExecError::StackUnderflow);
    expect_unchanged('n', 2, &[7, 7], ExecError::CapacityExceeded);
}

#[test]
fn e_is_top_modulo_second() {
    assert_eq!(plain('e', &[3, 7]), (Ok(QUIET), vec![3, 7, 1]));
    assert_eq!(plain('e', &[7, 3]), (Ok(QUIET), vec![7, 3, 3]));
    assert_eq!(plain('e', &[3, -7]), (Ok(QUIET), vec![3, -7, -1]));
    assert_eq!(plain('e', &[-3, 7]), (Ok(QUIET), vec![-3, 7, 1]));
    assert_eq!(plain('e', &[-3, -7]), (Ok(QUIET), vec![-3, -7, -1]));
    assert_eq!(plain('e', &[-1, i64::MIN]), (Ok(QUIET), vec![-1, i64::MIN, 0]));
    expect_unchanged('e', 5, &[0, 7], ExecError::DivisionByZero);
    expect_unchanged('e', 5, &[7], ExecError::StackUnderflow);
    expect_unchanged('e', 2, &[3, 7], ExecError::CapacityExceeded);
}

#[test]
fn p_divides_top_by_second() {
    assert_eq!(plain('p', &[3, 7]), (Ok(QUIET), vec![3, 7, 2]));
    assert_eq!(plain('p', &[7, 3]), (Ok(QUIET), vec![7, 3, 0]));
    assert_eq!(plain('p', &[3, -7]), (Ok(QUIET), vec![3, -7, -2]));
    assert_eq!(plain('p', &[-3, 7]), (Ok(QUIET), vec![-3, 7, -2]));
    assert_eq!(plain('p', &[-3, -7]), (Ok(QUIET), vec![-3, -7, 2]));
    expect_unchanged('p', 5, &[7], ExecError::StackUnderflow);
    expect_unchanged('p', 2, &[3, 7], ExecError::CapacityExceeded);
    expect_unchanged('p', 5, &[-1, i64::MIN], ExecError::RangeViolation);
}

#[test]
fn p_by_zero_fails_whatever_the_top_is() {
    for top in [0, 1, 7, 1000, -5, i64::MAX, i64::MIN] {
        expect_unchanged('p', 5, &[0, top], ExecError::DivisionByZero);
        expect_unchanged('p', 2, &[0, top], ExecError::DivisionByZero);
    }
}

#[test]
fn d_decrements_above_zero() {
    assert_eq!(plain('d', &[9, 1]), (Ok(QUIET), vec![9, 0]));
    assert_eq!(plain('d', &[1000]), (Ok(QUIET), vec![999]));
    expect_unchanged('d', 5, &[0], ExecError::RangeViolation);
    expect_unchanged('d', 5, &[-3], ExecError::RangeViolation);
    expect_unchanged('d', 5, &[], ExecError::StackUnderflow);
}

#[test]
fn i_increments_below_thousand() {
    assert_eq!(plain('i', &[9, 0]), (Ok(QUIET), vec![9, 1]));
    assert_eq!(plain('i', &[999]), (Ok(QUIET), vec![1000]));
    expect_unchanged('i', 5, &[1000], ExecError::RangeViolation);
    expect_unchanged('i', 5, &[2000], ExecError::RangeViolation);
    expect_unchanged('i', 5, &[], ExecError::StackUnderflow);
}

#[test]
fn increment_and_decrement_undo_each_other() {
    for top in 0..=1000i64 {
        let mut stack = filled(3, &[17, top]);
        let program = vec!['i'];
        let up = execute('i', &mut stack, &program, 0, &Input::Nothing);
        if top == 1000 {
            assert_eq!(up, Err(ExecError::RangeViolation));
        } else {
            assert_eq!(up, Ok(QUIET));
            assert_eq!(stack.last(), Some(&(top + 1)));
            assert_eq!(execute('d', &mut stack, &program, 0, &Input::Nothing), Ok(QUIET));
        }
        assert_eq!(stack.last(), Some(&top));
        let down = execute('d', &mut stack, &program, 0, &Input::Nothing);
        if top == 0 {
            assert_eq!(down, Err(ExecError::RangeViolation));
        } else {
            assert_eq!(down, Ok(QUIET));
            assert_eq!(stack.last(), Some(&(top - 1)));
            assert_eq!(execute('i', &mut stack, &program, 0, &Input::Nothing), Ok(QUIET));
        }
        assert_eq!(contents(stack), vec![17, top]);
    }
}

#[test]
fn v_adds_five_below_995() {
    assert_eq!(plain('v', &[0]), (Ok(QUIET), vec![5]));
    assert_eq!(plain('v', &[994]), (Ok(QUIET), vec![999]));
    expect_unchanged('v', 5, &[995], ExecError::RangeViolation);
    expect_unchanged('v', 5, &[1000], ExecError::RangeViolation);
    expect_unchanged('v', 5, &[], ExecError::StackUnderflow);
}

#[test]
fn w_takes_five_off_above_five() {
    assert_eq!(plain('w', &[6]), (Ok(QUIET), vec![1]));
    assert_eq!(plain('w', &[1000]), (Ok(QUIET), vec![995]));
    expect_unchanged('w', 5, &[5], ExecError::RangeViolation);
    expect_unchanged('w', 5, &[0], ExecError::RangeViolation);
    expect_unchanged('w', 5, &[], ExecError::StackUnderflow);
}

#[test]
fn f_prints_the_top_as_a_character() {
    let effect = |c| Ok(Effect { print: Some(Print::Char(c)), flow: Flow::Next });
    assert_eq!(plain('f', &[1, 65]), (effect('A'), vec![1, 65]));
    assert_eq!(plain('f', &[10]), (effect('\n'), vec![10]));
    assert_eq!(plain('f', &[233]), (effect('\u{e9}'), vec![233]));
    assert_eq!(plain('f', &[256 + 66]), (effect('B'), vec![322]));
    assert_eq!(plain('f', &[-1]), (effect('\u{ff}'), vec![-1]));
    expect_unchanged('f', 5, &[], ExecError::StackUnderflow);
}

#[test]
fn x_prints_the_top_as_a_number() {
    let effect = |n| Ok(Effect { print: Some(Print::Number(n)), flow: Flow::Next });
    assert_eq!(plain('x', &[1, 65]), (effect(65), vec![1, 65]));
    assert_eq!(plain('x', &[-4]), (effect(-4), vec![-4]));
    expect_unchanged('x', 5, &[], ExecError::StackUnderflow);
}

#[test]
fn h_pushes_a_number_read_from_a_line() {
    let line = |s: &str| Input::Line(s.to_string());
    assert_eq!(on('h', 5, &[1], line("17\n")), (Ok(QUIET), vec![1, 17]));
    assert_eq!(on('h', 5, &[], line("\t 0 \r\n")), (Ok(QUIET), vec![0]));
    assert_eq!(on('h', 5, &[], line("007")), (Ok(QUIET), vec![7]));
    let failure = |f| Err(ExecError::InputError(f));
    assert_eq!(on('h', 5, &[1], line("1 7")), (failure(InputFailure::NotAnInteger), vec![1]));
    assert_eq!(on('h', 5, &[1], line("-")), (failure(InputFailure::NotAnInteger), vec![1]));
    assert_eq!(on('h', 5, &[1], line("1_0")), (failure(InputFailure::NotAnInteger), vec![1]));
    assert_eq!(on('h', 5, &[1], line("5000")), (failure(InputFailure::OutOfRange), vec![1]));
    assert_eq!(on('h', 5, &[1], line("-0")), (Ok(QUIET), vec![1, 0]));
    assert_eq!(on('h', 5, &[1], Input::Nothing), (failure(InputFailure::Unavailable), vec![1]));
    assert_eq!(on('h', 5, &[1], Input::Byte(3)), (failure(InputFailure::Unavailable), vec![1]));
    assert_eq!(on('h', 5, &[1], Input::End), (failure(InputFailure::Unavailable), vec![1]));
    assert_eq!(on('h', 1, &[1], line("3")), (Err(ExecError::CapacityExceeded), vec![1]));
}

#[test]
fn push_number_takes_zero_to_thousand() {
    let mut stack = filled(3, &[]);
    assert_eq!(push_number(&mut stack, Some(0)), Ok(QUIET));
    assert_eq!(push_number(&mut stack, Some(1000)), Ok(QUIET));
    assert_eq!(
        push_number(&mut stack, Some(1001)),
        Err(ExecError::InputError(InputFailure::OutOfRange))
    );
    assert_eq!(
        push_number(&mut stack, Some(-1)),
        Err(ExecError::InputError(InputFailure::OutOfRange))
    );
    assert_eq!(
        push_number(&mut stack, None),
        Err(ExecError::InputError(InputFailure::NotAnInteger))
    );
    assert_eq!(push_number(&mut stack, Some(5)), Ok(QUIET));
    assert_eq!(push_number(&mut stack, Some(6)), Err(ExecError::CapacityExceeded));
    assert_eq!(contents(stack), vec![0, 1000, 5]);
}

#[test]
fn j_pushes_a_byte() {
    assert_eq!(on('j', 5, &[1], Input::Byte(0)), (Ok(QUIET), vec![1, 0]));
    assert_eq!(on('j', 5, &[1], Input::Byte(255)), (Ok(QUIET), vec![1, 255]));
    let failure = |f| Err(ExecError::InputError(f));
    assert_eq!(on('j', 5, &[1], Input::End), (failure(InputFailure::EndOfInput), vec![1]));
    assert_eq!(on('j', 5, &[1], Input::Nothing), (failure(InputFailure::Unavailable), vec![1]));
    assert_eq!(
        on('j', 5, &[1], Input::Line("a".to_string())),
        (failure(InputFailure::Unavailable), vec![1])
    );
    assert_eq!(on('j', 1, &[1], Input::Byte(9)), (Err(ExecError::CapacityExceeded), vec![1]));
}

#[test]
fn k_skips_when_the_top_is_zero() {
    assert_eq!(plain('k', &[1, 0]), (Ok(Effect { print: None, flow: Flow::Skip }), vec![1, 0]));
    assert_eq!(plain('k', &[0, 1]), (Ok(QUIET), vec![0, 1]));
    expect_unchanged('k', 5, &[], ExecError::StackUnderflow);
}

#[test]
fn l_swaps_top_and_second() {
    assert_eq!(plain('l', &[1, 2, 3]), (Ok(QUIET), vec![1, 3, 2]));
    expect_unchanged('l', 5, &[1], ExecError::StackUnderflow);
    expect_unchanged('l', 5, &[], ExecError::StackUnderflow);
    assert_eq!(on('l', 2, &[1, 2], Input::Nothing), (Ok(QUIET), vec![2, 1]));
}

#[test]
fn o_removes_the_element_that_the_top_names() {
    assert_eq!(plain('o', &[10, 20, 30, 1]), (Ok(QUIET), vec![10, 20, 1]));
    assert_eq!(plain('o', &[10, 20, 30, 3]), (Ok(QUIET), vec![20, 30, 3]));
    assert_eq!(plain('o', &[10, 20, 30, 0]), (Ok(QUIET), vec![10, 20, 30]));
    expect_unchanged('o', 5, &[10, 20, 30, 4], ExecError::IndexOutOfRange);
    expect_unchanged('o', 5, &[10, 20, 30, -1], ExecError::IndexOutOfRange);
    expect_unchanged('o', 5, &[1], ExecError::IndexOutOfRange);
    expect_unchanged('o', 5, &[], ExecError::StackUnderflow);
}

#[test]
fn s_swaps_the_top_with_the_element_that_it_names() {
    assert_eq!(plain('s', &[10, 20, 30, 1]), (Ok(QUIET), vec![10, 20, 1, 30]));
    assert_eq!(plain('s', &[10, 20, 30, 3]), (Ok(QUIET), vec![3, 20, 30, 10]));
    assert_eq!(plain('s', &[10, 20, 30, 0]), (Ok(QUIET), vec![10, 20, 30, 0]));
    expect_unchanged('s', 5, &[10, 20, 30, 4], ExecError::IndexOutOfRange);
    expect_unchanged('s', 5, &[10, 20, 30, -2], ExecError::IndexOutOfRange);
    expect_unchanged('s', 5, &[], ExecError::StackUnderflow);
}

#[test]
fn q_duplicates_the_top() {
    assert_eq!(plain('q', &[1, 2]), (Ok(QUIET), vec![1, 2, 2]));
    expect_unchanged('q', 5, &[], ExecError::StackUnderflow);
    expect_unchanged('q', 2, &[1, 2], ExecError::CapacityExceeded);
}

#[test]
fn r_pushes_the_length() {
    assert_eq!(plain('r', &[]), (Ok(QUIET), vec![0]));
    assert_eq!(plain('r', &[7, 7, 7]), (Ok(QUIET), vec![7, 7, 7, 3]));
    expect_unchanged('r', 2, &[7, 7], ExecError::CapacityExceeded);
}

#[test]
fn y_clears_the_stack() {
    assert_eq!(plain('y', &[1, 2, 3]), (Ok(QUIET), vec![]));
    assert_eq!(plain('y', &[]), (Ok(QUIET), vec![]));
}

#[test]
fn z_halts() {
    let halt = Ok(Effect { print: None, flow: Flow::Halt });
    assert_eq!(plain('z', &[1, 2]), (halt, vec![1, 2]));
    assert_eq!(plain('z', &[]), (halt, vec![]));
}

#[test]
fn other_characters_do_nothing() {
    for c in ['A', ' ', '0', '/', '\u{e9}', '{'] {
        assert_eq!(plain(c, &[1, 2]), (Ok(QUIET), vec![1, 2]));
        assert_eq!(plain(c, &[]), (Ok(QUIET), vec![]));
    }
}

#[test]
fn t_jumps_forward_when_the_top_is_zero() {
    let program: Vec<char> = "atitiuux".chars().collect();
    let mut stack = filled(5, &[0]);
    assert_eq!(
        execute('t', &mut stack, &program, 1, &Input::Nothing),
        Ok(Effect { print: None, flow: Flow::Jump(6) })
    );
    assert_eq!(
        execute('t', &mut stack, &program, 3, &Input::Nothing),
        Ok(Effect { print: None, flow: Flow::Jump(5) })
    );
    let mut stack = filled(5, &[4]);
    assert_eq!(execute('t', &mut stack, &program, 1, &Input::Nothing), Ok(QUIET));
    let mut stack = filled(5, &[]);
    assert_eq!(
        execute('t', &mut stack, &program, 1, &Input::Nothing),
        Err(ExecError::StackUnderflow)
    );
}

#[test]
fn u_jumps_back_when_the_top_is_not_zero() {
    let program: Vec<char> = "atitiuux".chars().collect();
    let mut stack = filled(5, &[2]);
    assert_eq!(
        execute('u', &mut stack, &program, 6, &Input::Nothing),
        Ok(Effect { print: None, flow: Flow::Jump(1) })
    );
    assert_eq!(
        execute('u', &mut stack, &program, 5, &Input::Nothing),
        Ok(Effect { print: None, flow: Flow::Jump(3) })
    );
    let mut stack = filled(5, &[0]);
    assert_eq!(execute('u', &mut stack, &program, 6, &Input::Nothing), Ok(QUIET));
    let mut stack = filled(5, &[]);
    assert_eq!(
        execute('u', &mut stack, &program, 6, &Input::Nothing),
        Err(ExecError::StackUnderflow)
    );
}
