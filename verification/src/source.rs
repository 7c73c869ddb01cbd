//! From source text to a program: lower case, no white space, no comments,
//! and nothing but the letters `a` to `z`.

use crate::text::{chars_of, spells};
use vstd::prelude::*;
use vstd::string::*;

verus! {

/// What `str::to_lowercase` makes of a text: its lower-case form by the
/// rules of Unicode.
pub uninterp spec fn lowercased(s: Seq<char>) -> Seq<char>;

/// Whether `char::is_whitespace` holds of a character: whether Unicode
/// counts it as white space.
pub uninterp spec fn is_white_space(c: char) -> bool;

/// Calls `str::to_lowercase`, which returns the lower-case equivalent of
/// the text as a new `String`. The result depends on the text alone; the
/// contract names it and says no more.
#[verifier::external_body]
fn to_lowercase(s: &str) -> (r: String)
    ensures
        r@ == lowercased(s@),
{
    s.to_lowercase()
}

/// Calls `char::is_whitespace`, which tells whether the character has the
/// Unicode property `White_Space`. The result depends on the character
/// alone; the contract names it and says no more.
#[verifier::external_body]
fn is_whitespace(c: char) -> (b: bool)
    ensures
        b == is_white_space(c),
{
    c.is_whitespace()
}

/// `String::push` appends the given character to the end of the string.
pub assume_specification[ String::push ](s: &mut String, ch: char)
    ensures
        final(s)@ == old(s)@.push(ch),
;

/// One of the letters `a` to `z`.
pub open spec fn is_letter(c: char) -> bool {
    'a' <= c <= 'z'
}

/// The position at which a comment begins: that of the first `//`, or the
/// length of the text when there is none.
pub open spec fn comment_start(s: Seq<char>) -> int {
    if exists|i: int| slashes_at(s, i) {
        choose|i: int| slashes_at(s, i) && forall|k: int| 0 <= k < i ==> !slashes_at(s, k)
    } else {
        s.len() as int
    }
}

/// Two slashes stand at positions `i` and `i + 1`.
pub open spec fn slashes_at(s: Seq<char>, i: int) -> bool {
    0 <= i && i + 1 < s.len() && s[i] == '/' && s[i + 1] == '/'
}

/// A text in lower case and without white space.
pub open spec fn spec_cleanup_string(input: Seq<char>) -> Seq<char> {
    lowercased(input).filter(|c: char| !is_white_space(c))
}

/// A text in lower case, without white space and without a comment.
pub open spec fn spec_cleanup_and_strip_comments(input: Seq<char>) -> Seq<char> {
    let clean = spec_cleanup_string(input);
    clean.subrange(0, comment_start(clean))
}

/// The program that a line of source text holds, where what is left of the
/// line consists of letters only.
pub open spec fn spec_parse_line(input: Seq<char>) -> Option<Seq<char>> {
    let clean = spec_cleanup_and_strip_comments(input);
    if forall|i: int| 0 <= i < clean.len() ==> is_letter(#[trigger] clean[i]) {
        Some(clean)
    } else {
        None
    }
}

/// The program that the first `n` of some lines hold together, where each
/// of them holds one.
pub open spec fn spec_parse_lines(lines: Seq<String>, n: int) -> Option<Seq<char>>
    decreases n,
{
    if n <= 0 {
        Some(Seq::empty())
    } else {
        match (spec_parse_lines(lines, n - 1), spec_parse_line(lines[n - 1]@)) {
            (Some(before), Some(line)) => Some(before + line),
            _ => None,
        }
    }
}

/// A program, or where to read it from.
#[derive(Debug, PartialEq, Eq)]
pub enum Source {
    /// The program itself.
    Program(String),
    /// The name of the file that holds the source text.
    File(String),
}

/// The text in lower case and without white space.
pub fn cleanup_string(input: &str) -> (output: String)
    ensures
        output@ == spec_cleanup_string(input@),
{
    let lower = to_lowercase(input);
    let chars = chars_of(lower.as_str());
    let ghost keep = |c: char| !is_white_space(c);
    let mut output = String::new();
    let mut i: usize = 0;
    while i < chars.len()
        invariant
            i <= chars.len(),
            chars@ == lowercased(input@),
            keep == (|c: char| !is_white_space(c)),
            output@ == chars@.take(i as int).filter(keep),
        decreases chars.len() - i,
    {
        let c = chars[i];
        proof {
            let upto = chars@.take(i + 1);
            reveal_with_fuel(Seq::filter, 2);
            assert(upto.drop_last() == chars@.take(i as int));
            assert(upto.last() == c);
            assert(upto.filter(keep) == if keep(c) {
                upto.drop_last().filter(keep).push(c)
            } else {
                upto.drop_last().filter(keep)
            });
        }
        if !is_whitespace(c) {
            output.push(c);
        }
        i += 1;
    }
    assert(chars@.take(chars@.len() as int) == chars@);
    output
}

/// The text in lower case, without white space, and cut off where the
/// first `//` begins.
pub fn cleanup_and_strip_comments(input: &str) -> (output: String)
    ensures
        output@ == spec_cleanup_and_strip_comments(input@),
{
    let clean = cleanup_string(input);
    let chars = chars_of(clean.as_str());
    let mut output = String::new();
    let mut i: usize = 0;
    while i < chars.len() && !(chars[i] == '/' && i + 1 < chars.len() && chars[i + 1] == '/')
        invariant
            i <= chars.len(),
            output@ == chars@.subrange(0, i as int),
            forall|k: int| 0 <= k < i ==> !slashes_at(chars@, k),
        decreases chars.len() - i,
    {
        output.push(chars[i]);
        assert(chars@.subrange(0, i as int).push(chars@[i as int]) == chars@.subrange(0, i + 1));
        i += 1;
    }
    proof {
        if i < chars.len() {
            assert(slashes_at(chars@, i as int));
            let found = comment_start(chars@);
            if found < i {
                assert(!slashes_at(chars@, found));
            }
        } else {
            if exists|k: int| slashes_at(chars@, k) {
                let k = choose|k: int| slashes_at(chars@, k);
                assert(!slashes_at(chars@, k));
            }
        }
    }
    output
}

/// The program that a line of source text holds: the line in lower case,
/// without white space and without a comment, where that leaves letters
/// only; else nothing.
pub fn parse_line(input: &str) -> (r: Option<String>)
    ensures
        match spec_parse_line(input@) {
            Some(program) => r matches Some(text) && text@ == program,
            None => r is None,
        },
{
    let clean = cleanup_and_strip_comments(input);
    let chars = chars_of(clean.as_str());
    let mut i: usize = 0;
    while i < chars.len()
        invariant
            i <= chars.len(),
            chars@ == clean@,
            clean@ == spec_cleanup_and_strip_comments(input@),
            forall|k: int| 0 <= k < i ==> is_letter(#[trigger] chars@[k]),
        decreases chars.len() - i,
    {
        let c = chars[i];
        if !('a' <= c && c <= 'z') {
            assert(!is_letter(clean@[i as int]));
            return None;
        }
        i += 1;
    }
    Some(clean)
}

/// The program that the lines of a source file hold: what the lines hold
/// one after the other, where each of them holds a program; else nothing.
pub fn parse_lines(lines: &Vec<String>) -> (r: Option<String>)
    ensures
        match spec_parse_lines(lines@, lines@.len() as int) {
            Some(program) => r matches Some(text) && text@ == program,
            None => r is None,
        },
{
    let mut program = String::new();
    let mut i: usize = 0;
    while i < lines.len()
        invariant
            i <= lines.len(),
            spec_parse_lines(lines@, i as int) == Some(program@),
        decreases lines.len() - i,
    {
        match parse_line(lines[i].as_str()) {
            Some(line) => {
                program.append(line.as_str());
            },
            None => {
                proof {
                    lemma_parse_lines_fails_on(lines@, i as int, lines@.len() as int);
                }
                return None;
            },
        }
        i += 1;
    }
    Some(program)
}

/// Once a line holds no program, no longer run of lines does.
pub proof fn lemma_parse_lines_fails_on(lines: Seq<String>, bad: int, n: int)
    requires
        0 <= bad < n,
        spec_parse_line(lines[bad]@) is None,
    ensures
        spec_parse_lines(lines, n) is None,
    decreases n,
{
    if bad < n - 1 {
        lemma_parse_lines_fails_on(lines, bad, n - 1);
    }
}

/// What the two words on the command line ask for: `run` with a line of
/// source text gives the program that the line holds, `file` with a name
/// gives that name, to be read and handed to [`parse_lines`]. Anything
/// else, and a line that holds no program, gives nothing.
pub fn run_or_file(command: &str, cmd_arg: &str) -> (r: Option<Source>)
    ensures
        command@ == "run"@ ==> match spec_parse_line(cmd_arg@) {
            Some(program) => r matches Some(Source::Program(text)) && text@ == program,
            None => r is None,
        },
        command@ == "file"@ ==> match r {
            Some(Source::File(name)) => name@ == cmd_arg@,
            _ => false,
        },
        command@ != "run"@ && command@ != "file"@ ==> r is None,
{
    proof {
        reveal_strlit("run");
        reveal_strlit("file");
        assert("run"@.len() == 3 && "file"@.len() == 4);
    }
    let word = chars_of(command);
    if spells(&word, "run") {
        match parse_line(cmd_arg) {
            Some(program) => Some(Source::Program(program)),
            None => None,
        }
    } else if spells(&word, "file") {
        Some(Source::File(String::from_str(cmd_arg)))
    } else {
        None
    }
}

} // verus!
