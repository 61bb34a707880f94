//! The commands that steer playback, read from lines of input.

use crate::songlang::parser::Source;
use vstd::prelude::*;

verus! {

/// What a line of input asks for.
#[derive(Debug, Copy, Clone, PartialEq, Eq, Structural)]
pub enum Command {
    /// Pause playback, or go on with it where it is paused.
    TogglePause,
    /// Play again from the start.
    Restart,
    /// Nothing: the line is empty.
    Empty,
    /// Nothing: the line is not understood.
    Unknown,
}

/// Whether `c` is white space, as the Unicode property `White_Space` has
/// it.
pub open spec fn is_white(c: char) -> bool {
    let n = c as u32;
    ||| 0x09 <= n <= 0x0D
    ||| n == 0x20
    ||| n == 0x85
    ||| n == 0xA0
    ||| n == 0x1680
    ||| 0x2000 <= n <= 0x200A
    ||| n == 0x2028
    ||| n == 0x2029
    ||| n == 0x202F
    ||| n == 0x205F
    ||| n == 0x3000
}

/// The place of the first character of `s`, from place `pos` on, that is no
/// white space; the length of `s` where there is none.
pub open spec fn first_mark(s: Seq<char>, pos: int) -> int
    decreases s.len() - pos,
{
    if 0 <= pos < s.len() && is_white(s[pos]) {
        first_mark(s, pos + 1)
    } else {
        pos
    }
}

/// What the line `s` asks for: its first character that is no white space
/// decides. `p` or `P` toggles the pause, `r` or `R` restarts; a line of
/// white space alone is empty.
pub open spec fn command_of(s: Seq<char>) -> Command {
    let at = first_mark(s, 0);
    if at >= s.len() {
        Command::Empty
    } else if s[at] == 'p' || s[at] == 'P' {
        Command::TogglePause
    } else if s[at] == 'r' || s[at] == 'R' {
        Command::Restart
    } else {
        Command::Unknown
    }
}

/// Whether `c` is white space.
pub fn is_whitespace(c: char) -> (r: bool)
    ensures
        r == is_white(c),
{
    let n: u32 = c as u32;
    (0x09 <= n && n <= 0x0D) || n == 0x20 || n == 0x85 || n == 0xA0 || n == 0x1680 || (0x2000 <= n
        && n <= 0x200A) || n == 0x2028 || n == 0x2029 || n == 0x202F || n == 0x205F || n == 0x3000
}

/// Reads a line of input as a command.
pub fn parse_command(line: &str) -> (r: Command)
    ensures
        r == command_of(line@),
{
    let src = Source::new(line);
    let n = src.len();
    let mut i: usize = 0;
    while i < n && is_whitespace(src.at(i))
        invariant
            src.wf(),
            i <= n,
            n == src@.len(),
            src@ == line@,
            first_mark(line@, 0) == first_mark(line@, i as int),
        decreases n - i,
    {
        i = i + 1;
    }
    if i >= n {
        Command::Empty
    } else {
        let c = src.at(i);
        if c == 'p' || c == 'P' {
            Command::TogglePause
        } else if c == 'r' || c == 'R' {
            Command::Restart
        } else {
            Command::Unknown
        }
    }
}

} // verus!
