//! The commands that the operator types at the debug prompt.

use crate::text::{chars_of, decimal_usize, parse_usize, spells};
use vstd::prelude::*;
use vstd::string::*;

verus! {

/// What the operator asked for.
#[derive(Clone, Copy, Debug, PartialEq, Eq, Structural)]
pub enum Command {
    /// `help`: list the commands.
    Help,
    /// `pidx`: show the program counter.
    PrintIndex,
    /// `pprog`: show the program.
    PrintProgram,
    /// `pstack`: show the stack.
    PrintStack,
    /// `pist`: show the instruction at the program counter.
    PrintInstruction,
    /// `step`: run the instruction at the program counter and ask again.
    Step,
    /// `cont`: run until a breakpoint is reached.
    Continue,
    /// `brk <index>`: set a breakpoint.
    Break(usize),
    /// `brk` with nothing behind it.
    BreakWithoutIndex,
    /// `brk` with something that is no index.
    BreakNotANumber,
    /// `exec <char>`: run this instruction in place of the one at the program counter.
    Execute(char),
    /// `exec` with nothing behind it.
    ExecuteWithoutInstruction,
    /// Anything else.
    Invalid,
}

/// A character that separates the words of a command.
pub open spec fn is_blank(c: char) -> bool {
    c == ' ' || c == '\t' || c == '\n' || c == '\x0C' || c == '\r'
}

/// The first position from `from` on that holds no blank, or the length of
/// `s` when only blanks follow.
pub open spec fn word_start(s: Seq<char>, from: int) -> int
    decreases s.len() - from,
{
    if from >= s.len() {
        s.len() as int
    } else if is_blank(s[from]) {
        word_start(s, from + 1)
    } else {
        from
    }
}

/// The first position from `from` on that holds a blank, or the length of
/// `s` when none follows.
pub open spec fn word_end(s: Seq<char>, from: int) -> int
    decreases s.len() - from,
{
    if from >= s.len() {
        s.len() as int
    } else if is_blank(s[from]) {
        from
    } else {
        word_end(s, from + 1)
    }
}

/// The first word of `s` from position `from` on, where there is one.
pub open spec fn word_from(s: Seq<char>, from: int) -> Option<Seq<char>> {
    let start = word_start(s, from);
    if start >= s.len() {
        None
    } else {
        Some(s.subrange(start, word_end(s, start)))
    }
}

/// What a line typed at the prompt asks for, once the space around it has
/// been taken off.
pub open spec fn spec_parse_command(cmd: Seq<char>) -> Command {
    if cmd == "help"@ {
        Command::Help
    } else if cmd == "pidx"@ {
        Command::PrintIndex
    } else if cmd == "pprog"@ {
        Command::PrintProgram
    } else if cmd == "pstack"@ {
        Command::PrintStack
    } else if cmd == "pist"@ {
        Command::PrintInstruction
    } else if cmd == "step"@ {
        Command::Step
    } else if cmd == "cont"@ {
        Command::Continue
    } else if "brk "@.is_prefix_of(cmd) {
        match word_from(cmd, 4) {
            None => Command::BreakWithoutIndex,
            Some(word) => match decimal_usize(word) {
                Some(index) => Command::Break(index),
                None => Command::BreakNotANumber,
            },
        }
    } else if "exec "@.is_prefix_of(cmd) {
        match word_from(cmd, 5) {
            None => Command::ExecuteWithoutInstruction,
            Some(word) => Command::Execute(word[0]),
        }
    } else {
        Command::Invalid
    }
}

/// Whether `c` separates words.
fn blank(c: char) -> (b: bool)
    ensures
        b == is_blank(c),
{
    c == ' ' || c == '\t' || c == '\n' || c == '\x0C' || c == '\r'
}

/// Where the first word from `from` on begins and ends, where there is one.
fn find_word(chars: &Vec<char>, from: usize) -> (r: Option<(usize, usize)>)
    requires
        from <= chars.len(),
    ensures
        match r {
            None => word_from(chars@, from as int) is None,
            Some((start, end)) => {
                &&& from <= start < end <= chars.len()
                &&& start == word_start(chars@, from as int)
                &&& end == word_end(chars@, start as int)
                &&& word_from(chars@, from as int) == Some(chars@.subrange(start as int, end as int))
            },
        },
{
    let mut start: usize = from;
    while start < chars.len() && blank(chars[start])
        invariant
            from <= start <= chars.len(),
            word_start(chars@, from as int) == word_start(chars@, start as int),
        decreases chars.len() - start,
    {
        start += 1;
    }
    if start >= chars.len() {
        return None;
    }
    let mut end: usize = start + 1;
    while end < chars.len() && !blank(chars[end])
        invariant
            start < end <= chars.len(),
            !is_blank(chars@[start as int]),
            word_end(chars@, start as int) == word_end(chars@, end as int),
        decreases chars.len() - end,
    {
        end += 1;
    }
    Some((start, end))
}

/// Whether `chars` begins with `prefix`.
fn begins_with(chars: &Vec<char>, prefix: &str) -> (b: bool)
    ensures
        b == prefix@.is_prefix_of(chars@),
{
    let wanted = chars_of(prefix);
    if wanted.len() > chars.len() {
        return false;
    }
    let mut i: usize = 0;
    while i < wanted.len()
        invariant
            wanted@ == prefix@,
            wanted.len() <= chars.len(),
            i <= wanted.len(),
            forall|k: int| 0 <= k < i ==> chars@[k] == wanted@[k],
        decreases wanted.len() - i,
    {
        if chars[i] != wanted[i] {
            assert(chars@.subrange(0, wanted@.len() as int)[i as int] != wanted@[i as int]);
            return false;
        }
        i += 1;
    }
    assert(chars@.subrange(0, wanted@.len() as int) =~= wanted@);
    true
}

/// Reads a line typed at the prompt, with the space around it taken off,
/// as a command. The words `help`, `pidx`, `pprog`, `pstack`, `pist`,
/// `step` and `cont` must stand alone; `brk` and `exec` take the word that
/// follows them, `brk` as a decimal index and `exec` by its first character.
pub fn parse_command(cmd: &str) -> (command: Command)
    ensures
        command == spec_parse_command(cmd@),
{
    let chars = chars_of(cmd);
    if spells(&chars, "help") {
        Command::Help
    } else if spells(&chars, "pidx") {
        Command::PrintIndex
    } else if spells(&chars, "pprog") {
        Command::PrintProgram
    } else if spells(&chars, "pstack") {
        Command::PrintStack
    } else if spells(&chars, "pist") {
        Command::PrintInstruction
    } else if spells(&chars, "step") {
        Command::Step
    } else if spells(&chars, "cont") {
        Command::Continue
    } else if begins_with(&chars, "brk ") {
        proof {
            reveal_strlit("brk ");
        }
        match find_word(&chars, 4) {
            None => Command::BreakWithoutIndex,
            Some((start, end)) => match parse_usize(cmd.substring_char(start, end)) {
                Some(index) => Command::Break(index),
                None => Command::BreakNotANumber,
            },
        }
    } else if begins_with(&chars, "exec ") {
        proof {
            reveal_strlit("exec ");
        }
        match find_word(&chars, 5) {
            None => Command::ExecuteWithoutInstruction,
            Some((start, end)) => Command::Execute(chars[start]),
        }
    } else {
        Command::Invalid
    }
}

} // verus!
