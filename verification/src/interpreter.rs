//! A run of a program, one step at a time.
//!
//! The interpreter does no input or output of its own. Before each step it
//! says what it needs, and the step returns what is to be shown. Whoever
//! drives the run reads and prints.

use crate::command::{parse_command, spec_parse_command, Command};
use crate::instruction::{
    execute, lemma_execute_keeps_within_capacity, spec_execute, ExecError, Flow, Input,
    InputFailure, Print,
};
use crate::stack::Stack;
use crate::text::{chars_of, trim, trimmed};
use vstd::prelude::*;

verus! {

/// What the debugger has to tell the operator.
#[derive(Clone, Copy, Debug, PartialEq, Eq, Structural)]
pub enum Reply {
    /// The list of commands.
    Help,
    /// The program counter.
    Index(usize),
    /// The program.
    Program,
    /// The stack.
    Stack,
    /// The instruction at the program counter.
    Instruction(char),
    /// A breakpoint was set at this position.
    BreakpointSet(usize),
    /// The position given to `brk` lies outside the program.
    BreakpointOutOfRange,
    /// What was given to `brk` is no position.
    BreakpointNotANumber,
    /// Nothing was given to `brk`.
    BreakpointMissing,
    /// Nothing was given to `exec`.
    InstructionMissing,
    /// The command is not known.
    InvalidCommand,
}

/// What a step wants shown.
#[derive(Clone, Copy, Debug, PartialEq, Eq, Structural)]
pub enum Output {
    Nothing,
    /// Output of the program.
    Print(Print),
    /// An answer of the debugger.
    Reply(Reply),
}

/// What the next step needs to be given.
#[derive(Clone, Copy, Debug, PartialEq, Eq, Structural)]
pub enum Request {
    /// Nothing.
    Nothing,
    /// A line typed by the operator at the debug prompt.
    Command,
    /// A line of input for the program.
    Line,
    /// A byte of input for the program.
    Byte,
    /// Nothing more: the run is over.
    Finished,
}

/// Where a run stands between two steps.
#[derive(Clone, Copy, Debug, PartialEq, Eq, Structural)]
pub enum Control {
    /// The debugger waits for a command.
    Prompt,
    /// The instruction `instr` is about to run; `manual` tells that the
    /// operator chose it in place of the one at the program counter.
    Ready { instr: char, manual: bool },
    /// The run has ended well.
    Finished,
    /// The run has ended because `instr` failed.
    Failed { instr: char, error: ExecError },
    /// The run has ended because no command could be read at the prompt.
    Unattended,
}

/// The state of a run, as contracts see it.
pub struct Machine {
    pub stack: Seq<i64>,
    pub capacity: nat,
    pub program: Seq<char>,
    pub pc: int,
    /// The debugger takes part in the run.
    pub debug: bool,
    /// The debugger asks before every instruction.
    pub prompting: bool,
    pub breakpoints: Set<usize>,
    pub control: Control,
}

impl Machine {
    /// The stack is within its capacity, the program counter within the
    /// program or at its end, and at its end only when the run is over; the
    /// debugger waits for a command only where it takes part and asks.
    pub open spec fn wf(self) -> bool {
        &&& self.stack.len() <= self.capacity
        &&& 0 <= self.pc <= self.program.len()
        &&& (self.control is Prompt || self.control is Ready) ==> self.pc < self.program.len()
        &&& self.control is Prompt ==> self.debug && self.prompting
    }

    /// What the next step needs.
    pub open spec fn request(self) -> Request {
        match self.control {
            Control::Prompt => Request::Command,
            Control::Ready { instr, manual } => if instr == 'h' {
                Request::Line
            } else if instr == 'j' {
                Request::Byte
            } else {
                Request::Nothing
            },
            _ => Request::Finished,
        }
    }

    /// How the run ended, once it has.
    pub open spec fn outcome(self) -> Option<Result<(), ExecError>> {
        match self.control {
            Control::Finished => Some(Ok(())),
            Control::Failed { instr, error } => Some(Err(error)),
            Control::Unattended => Some(Err(ExecError::InputError(InputFailure::Unavailable))),
            _ => None,
        }
    }

    /// Turning to the instruction at the program counter: the run is over
    /// behind the last instruction; the debugger asks when it asks before
    /// every instruction or a breakpoint stands here, and from then on asks
    /// before every instruction; else the instruction is ready to run.
    pub open spec fn fetch(self) -> Machine {
        if self.pc >= self.program.len() {
            Machine { control: Control::Finished, ..self }
        } else if self.debug && (self.prompting || self.breakpoints.contains(self.pc as usize)) {
            Machine { prompting: true, control: Control::Prompt, ..self }
        } else {
            Machine { control: Control::Ready { instr: self.program[self.pc], manual: false }, ..self }
        }
    }
}

/// The state in which a run begins.
pub open spec fn spec_start(stack: Seq<i64>, capacity: nat, program: Seq<char>, debug: bool) -> Machine {
    Machine {
        stack,
        capacity,
        program,
        pc: 0,
        debug,
        prompting: debug,
        breakpoints: Set::empty(),
        control: Control::Finished,
    }.fetch()
}

/// Where the program counter stands after an instruction at `pc` that did
/// `flow`: the instruction moves it, then it goes on by one unless the
/// operator chose the instruction, and it stops at the end of the program.
pub open spec fn spec_next_pc(pc: int, len: int, flow: Flow, manual: bool) -> int {
    let moved = match flow {
        Flow::Skip => pc + 1,
        Flow::Jump(target) => target as int,
        _ => pc,
    };
    let next = if manual {
        moved
    } else {
        moved + 1
    };
    if next > len {
        len
    } else {
        next
    }
}

/// What a command does at the prompt. Only `step`, `cont` and `exec` with
/// an instruction leave the prompt.
pub open spec fn spec_obey(m: Machine, command: Command) -> (Machine, Output) {
    if !(m.control is Prompt) {
        (m, Output::Nothing)
    } else {
        match command {
            Command::Help => (m, Output::Reply(Reply::Help)),
            Command::PrintIndex => (m, Output::Reply(Reply::Index(m.pc as usize))),
            Command::PrintProgram => (m, Output::Reply(Reply::Program)),
            Command::PrintStack => (m, Output::Reply(Reply::Stack)),
            Command::PrintInstruction => (m, Output::Reply(Reply::Instruction(m.program[m.pc]))),
            Command::Step => (
                Machine { control: Control::Ready { instr: m.program[m.pc], manual: false }, ..m },
                Output::Nothing,
            ),
            Command::Continue => (
                Machine {
                    prompting: false,
                    control: Control::Ready { instr: m.program[m.pc], manual: false },
                    ..m
                },
                Output::Nothing,
            ),
            Command::Break(index) => if index < m.program.len() {
                (
                    Machine { breakpoints: m.breakpoints.insert(index), ..m },
                    Output::Reply(Reply::BreakpointSet(index)),
                )
            } else {
                (m, Output::Reply(Reply::BreakpointOutOfRange))
            },
            Command::BreakWithoutIndex => (m, Output::Reply(Reply::BreakpointMissing)),
            Command::BreakNotANumber => (m, Output::Reply(Reply::BreakpointNotANumber)),
            Command::Execute(instr) => (
                Machine { control: Control::Ready { instr, manual: true }, ..m },
                Output::Nothing,
            ),
            Command::ExecuteWithoutInstruction => (m, Output::Reply(Reply::InstructionMissing)),
            Command::Invalid => (m, Output::Reply(Reply::InvalidCommand)),
        }
    }
}

/// What running the instruction that is ready does.
pub open spec fn spec_run(m: Machine, instr: char, manual: bool, input: Input) -> (Machine, Output) {
    match spec_execute(instr, m.stack, m.capacity, m.program, m.pc, input) {
        Err(error) => (Machine { control: Control::Failed { instr, error }, ..m }, Output::Nothing),
        Ok((stack, effect)) => {
            let output = match effect.print {
                Some(print) => Output::Print(print),
                None => Output::Nothing,
            };
            if effect.flow is Halt {
                (Machine { stack, control: Control::Finished, ..m }, output)
            } else {
                (
                    Machine {
                        stack,
                        pc: spec_next_pc(m.pc, m.program.len() as int, effect.flow, manual),
                        ..m
                    }.fetch(),
                    output,
                )
            }
        },
    }
}

/// One step of a run, given what was read for it.
pub open spec fn spec_advance(m: Machine, input: Input) -> (Machine, Output) {
    match m.control {
        Control::Prompt => match input {
            Input::Line(line) => spec_obey(m, spec_parse_command(trimmed(line@))),
            _ => (Machine { control: Control::Unattended, ..m }, Output::Nothing),
        },
        Control::Ready { instr, manual } => spec_run(m, instr, manual, input),
        _ => (m, Output::Nothing),
    }
}

/// A run of a program on a stack, with or without the debugger.
#[derive(Debug)]
pub struct Interpreter {
    memory: Stack<i64>,
    program: Vec<char>,
    pc: usize,
    debug: bool,
    prompting: bool,
    breakpoints: Vec<usize>,
    control: Control,
}

impl View for Interpreter {
    type V = Machine;

    closed spec fn view(&self) -> Machine {
        Machine {
            stack: self.memory@,
            capacity: self.memory.capacity(),
            program: self.program@,
            pc: self.pc as int,
            debug: self.debug,
            prompting: self.prompting,
            breakpoints: self.breakpoints@.to_set(),
            control: self.control,
        }
    }
}

impl Interpreter {
    /// The state is one that a run can be in.
    pub open spec fn wf(&self) -> bool {
        self@.wf()
    }

    /// Turns to the instruction at the program counter.
    fn fetch(&mut self)
        requires
            old(self).pc <= old(self).program.len(),
        ensures
            final(self)@ == old(self)@.fetch(),
    {
        if self.pc >= self.program.len() {
            self.control = Control::Finished;
        } else if self.debug && (self.prompting || self.is_breakpoint(self.pc)) {
            self.prompting = true;
            self.control = Control::Prompt;
        } else {
            self.control = Control::Ready { instr: self.program[self.pc], manual: false };
        }
    }

    /// Whether a breakpoint stands at `position`.
    pub fn is_breakpoint(&self, position: usize) -> (b: bool)
        ensures
            b == self@.breakpoints.contains(position),
    {
        let mut i: usize = 0;
        while i < self.breakpoints.len()
            invariant
                i <= self.breakpoints.len(),
                forall|k: int| 0 <= k < i ==> self.breakpoints@[k] != position,
            decreases self.breakpoints.len() - i,
        {
            if self.breakpoints[i] == position {
                assert(self.breakpoints@.contains(position));
                return true;
            }
            i += 1;
        }
        false
    }

    /// Begins a run of `program` on `memory`. With `debug` the debugger
    /// takes part and asks before the first instruction.
    pub fn new(memory: Stack<i64>, program: &str, debug: bool) -> (run: Interpreter)
        requires
            memory.wf(),
        ensures
            run.wf(),
            run@ == spec_start(memory@, memory.capacity(), program@, debug),
    {
        let mut run = Interpreter {
            memory,
            program: chars_of(program),
            pc: 0,
            debug,
            prompting: debug,
            breakpoints: Vec::new(),
            control: Control::Finished,
        };
        assert(run.breakpoints@.to_set() =~= Set::<usize>::empty());
        run.fetch();
        run
    }

    /// Carries out a command typed at the prompt. Away from the prompt a
    /// command does nothing.
    pub fn obey(&mut self, command: Command) -> (out: Output)
        requires
            old(self).wf(),
        ensures
            final(self).wf(),
            (final(self)@, out) == spec_obey(old(self)@, command),
    {
        match self.control {
            Control::Prompt => {},
            _ => {
                return Output::Nothing;
            },
        }
        match command {
            Command::Help => Output::Reply(Reply::Help),
            Command::PrintIndex => Output::Reply(Reply::Index(self.pc)),
            Command::PrintProgram => Output::Reply(Reply::Program),
            Command::PrintStack => Output::Reply(Reply::Stack),
            Command::PrintInstruction => Output::Reply(Reply::Instruction(self.program[self.pc])),
            Command::Step => {
                self.control = Control::Ready { instr: self.program[self.pc], manual: false };
                Output::Nothing
            },
            Command::Continue => {
                self.prompting = false;
                self.control = Control::Ready { instr: self.program[self.pc], manual: false };
                Output::Nothing
            },
            Command::Break(index) => {
                if index < self.program.len() {
                    self.breakpoints.push(index);
                    assert(self.breakpoints@.to_set() =~= old(self).breakpoints@.to_set().insert(
                        index,
                    )) by {
                        let before = old(self).breakpoints@;
                        let after = self.breakpoints@;
                        assert(after == before.push(index));
                        assert forall|x: usize| after.contains(x) <==> (before.contains(x) || x
                            == index) by {
                            if before.contains(x) {
                                let k = choose|k: int| 0 <= k < before.len() && before[k] == x;
                                assert(after[k] == x);
                            }
                            if x == index {
                                assert(after[before.len() as int] == x);
                            }
                        }
                    }
                    Output::Reply(Reply::BreakpointSet(index))
                } else {
                    Output::Reply(Reply::BreakpointOutOfRange)
                }
            },
            Command::BreakWithoutIndex => Output::Reply(Reply::BreakpointMissing),
            Command::BreakNotANumber => Output::Reply(Reply::BreakpointNotANumber),
            Command::Execute(instr) => {
                self.control = Control::Ready { instr, manual: true };
                Output::Nothing
            },
            Command::ExecuteWithoutInstruction => Output::Reply(Reply::InstructionMissing),
            Command::Invalid => Output::Reply(Reply::InvalidCommand),
        }
    }

    /// Runs the instruction that is ready.
    fn run(&mut self, instr: char, manual: bool, input: &Input) -> (out: Output)
        requires
            old(self).wf(),
            old(self).control is Ready,
        ensures
            final(self).wf(),
            (final(self)@, out) == spec_run(old(self)@, instr, manual, *input),
    {
        match execute(instr, &mut self.memory, &self.program, self.pc, input) {
            Err(error) => {
                self.control = Control::Failed { instr, error };
                Output::Nothing
            },
            Ok(effect) => {
                let out = match effect.print {
                    Some(print) => Output::Print(print),
                    None => Output::Nothing,
                };
                let len = self.program.len();
                let moved = match effect.flow {
                    Flow::Halt => {
                        self.control = Control::Finished;
                        return out;
                    },
                    Flow::Skip => self.pc + 1,
                    Flow::Jump(target) => target,
                    Flow::Next => self.pc,
                };
                self.pc = if manual {
                    if moved > len {
                        len
                    } else {
                        moved
                    }
                } else if moved < len {
                    moved + 1
                } else {
                    len
                };
                self.fetch();
                out
            },
        }
    }

    /// Takes the run one step further, with what was read for the step:
    /// at the prompt a line typed by the operator, for `h` a line of input,
    /// for `j` a byte. A run that is over stays as it is.
    pub fn advance(&mut self, input: Input) -> (out: Output)
        requires
            old(self).wf(),
        ensures
            final(self).wf(),
            (final(self)@, out) == spec_advance(old(self)@, input),
    {
        match self.control {
            Control::Prompt => match &input {
                Input::Line(line) => {
                    let command = parse_command(trim(line.as_str()));
                    self.obey(command)
                },
                _ => {
                    self.control = Control::Unattended;
                    Output::Nothing
                },
            },
            Control::Ready { instr, manual } => self.run(instr, manual, &input),
            _ => Output::Nothing,
        }
    }

    /// What the next step needs to be given.
    pub fn request(&self) -> (r: Request)
        ensures
            r == self@.request(),
    {
        match self.control {
            Control::Prompt => Request::Command,
            Control::Ready { instr, manual } => {
                if instr == 'h' {
                    Request::Line
                } else if instr == 'j' {
                    Request::Byte
                } else {
                    Request::Nothing
                }
            },
            _ => Request::Finished,
        }
    }

    /// How the run ended, once it has.
    pub fn outcome(&self) -> (r: Option<Result<(), ExecError>>)
        ensures
            r == self@.outcome(),
    {
        match self.control {
            Control::Finished => Some(Ok(())),
            Control::Failed { instr, error } => Some(Err(error)),
            Control::Unattended => Some(Err(ExecError::InputError(InputFailure::Unavailable))),
            _ => None,
        }
    }

    /// Where the run stands.
    pub fn control(&self) -> (c: Control)
        ensures
            c == self@.control,
    {
        self.control
    }

    /// The program counter.
    pub fn position(&self) -> (pc: usize)
        ensures
            pc == self@.pc,
    {
        self.pc
    }

    /// The stack.
    pub fn memory(&self) -> (memory: &Stack<i64>)
        ensures
            memory@ == self@.stack,
            memory.capacity() == self@.capacity,
    {
        &self.memory
    }

    /// The program.
    pub fn program(&self) -> (program: &Vec<char>)
        ensures
            program@ == self@.program,
    {
        &self.program
    }

    /// Ends the run and hands the stack back.
    pub fn into_memory(self) -> (memory: Stack<i64>)
        requires
            self.wf(),
        ensures
            memory.wf(),
            memory@ == self@.stack,
            memory.capacity() == self@.capacity,
    {
        self.memory
    }
}

/// What every step keeps: a state that a run can be in stays one; the
/// program, the capacity of the stack and whether the debugger takes part
/// never change; breakpoints are never lost; a failed instruction leaves
/// the stack as it was; a run that is over stays as it is and shows
/// nothing; and without the debugger no command is ever asked for.
pub proof fn lemma_advance_keeps(m: Machine, input: Input)
    requires
        m.wf(),
    ensures
        ({
            let (next, out) = spec_advance(m, input);
            &&& next.wf()
            &&& next.program == m.program
            &&& next.capacity == m.capacity
            &&& next.debug == m.debug
            &&& m.breakpoints.subset_of(next.breakpoints)
            &&& next.control is Failed ==> next.stack == m.stack && next.pc == m.pc
            &&& m.request() is Finished ==> next == m && out is Nothing
            &&& !m.debug ==> !(next.control is Prompt)
        }),
{
    match m.control {
        Control::Ready { instr, manual } => {
            lemma_execute_keeps_within_capacity(
                instr,
                m.stack,
                m.capacity,
                m.program,
                m.pc,
                input,
            );
        },
        _ => {},
    }
}

/// Where the debugger asks. Turning to the instruction at the program
/// counter, it waits for a command exactly when it takes part in the run,
/// an instruction is left to run, and either it asks before every
/// instruction or a breakpoint stands at the program counter.
pub proof fn lemma_debugger_asks(m: Machine)
    requires
        0 <= m.pc,
    ensures
        m.fetch().control is Prompt <==> m.debug && m.pc < m.program.len() && (m.prompting
            || m.breakpoints.contains(m.pc as usize)),
        m.fetch().control is Prompt ==> m.fetch().prompting,
        !(m.fetch().control is Prompt) ==> m.fetch().prompting == m.prompting,
{
}

/// After `cont` the run goes on unasked until it reaches a breakpoint: the
/// command leaves the prompt with the instruction at the program counter
/// ready to run, and every step from a state in which the debugger does not
/// ask before every instruction ends at the prompt exactly when its
/// instruction succeeded without ending the run, the debugger takes part
/// and a breakpoint stands where the program counter has come to.
pub proof fn lemma_cont_runs_to_the_next_breakpoint(m: Machine, input: Input)
    requires
        m.wf(),
    ensures
        m.control is Prompt ==> ({
            let (next, out) = spec_obey(m, Command::Continue);
            &&& !next.prompting
            &&& next.control == (Control::Ready { instr: m.program[m.pc], manual: false })
            &&& out is Nothing
            &&& next.stack == m.stack && next.pc == m.pc && next.breakpoints == m.breakpoints
        }),
        m.control is Ready && !m.prompting ==> ({
            let next = spec_advance(m, input).0;
            next.control is Prompt <==> {
                &&& m.debug
                &&& !(next.control is Failed)
                &&& !(next.control is Finished)
                &&& next.breakpoints.contains(next.pc as usize)
            }
        }),
{
}

} // verus!
