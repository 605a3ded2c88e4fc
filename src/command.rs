//! Terminal commands that name one gate: a gate letter and a qubit digit
//! (`h0`, `x1`, `y2`, `z0`, `s1`), or `c` with a control and a target digit
//! (`c01` is controlled-NOT from qubit 0 onto qubit 1).
use vstd::prelude::*;
use crate::gates::Gate;

verus! {

pub open spec fn digit_value(c: char) -> Option<usize> {
    if '0' <= c && c <= '9' {
        Some((c as u32 - '0' as u32) as usize)
    } else {
        None
    }
}

/// The single-qubit gate a letter names.
pub open spec fn letter_gate(c: char) -> Option<Gate> {
    if c == 'h' {
        Some(Gate::Hadamard)
    } else if c == 'x' {
        Some(Gate::Custom { swap: true, phase0: 0, phase1: 0 })
    } else if c == 'y' {
        Some(Gate::Custom { swap: true, phase0: 3, phase1: 1 })
    } else if c == 'z' {
        Some(Gate::Custom { swap: false, phase0: 0, phase1: 2 })
    } else if c == 's' {
        Some(Gate::Phase { quarter_turns: 1 })
    } else {
        None
    }
}

/// The operation and qubit a command names, if it is one.
pub open spec fn command_spec(s: Seq<char>) -> Option<(Gate, usize)> {
    if s.len() == 2 && letter_gate(s[0]) is Some && digit_value(s[1]) is Some {
        Some((letter_gate(s[0])->Some_0, digit_value(s[1])->Some_0))
    } else if s.len() == 3 && s[0] == 'c' && digit_value(s[1]) is Some && digit_value(s[2]) is Some {
        Some((Gate::ControlledNot { control: digit_value(s[1])->Some_0 }, digit_value(s[2])->Some_0))
    } else {
        None
    }
}

fn digit(c: char) -> (r: Option<usize>)
    ensures
        r == digit_value(c),
{
    if '0' <= c && c <= '9' {
        Some((c as u32 - '0' as u32) as usize)
    } else {
        None
    }
}

fn letter(c: char) -> (r: Option<Gate>)
    ensures
        r == letter_gate(c),
{
    if c == 'h' {
        Some(Gate::Hadamard)
    } else if c == 'x' {
        Some(Gate::Custom { swap: true, phase0: 0, phase1: 0 })
    } else if c == 'y' {
        Some(Gate::Custom { swap: true, phase0: 3, phase1: 1 })
    } else if c == 'z' {
        Some(Gate::Custom { swap: false, phase0: 0, phase1: 2 })
    } else if c == 's' {
        Some(Gate::Phase { quarter_turns: 1 })
    } else {
        None
    }
}

/// Reads a one-gate command.
pub fn parse_command(line: &str) -> (r: Option<(Gate, usize)>)
    ensures
        r == command_spec(line@),
{
    let n = line.unicode_len();
    if n == 2 {
        let g = letter(line.get_char(0));
        let d = digit(line.get_char(1));
        match (g, d) {
            (Some(g), Some(d)) => Some((g, d)),
            _ => None,
        }
    } else if n == 3 {
        if line.get_char(0) != 'c' {
            return None;
        }
        let c = digit(line.get_char(1));
        let t = digit(line.get_char(2));
        match (c, t) {
            (Some(c), Some(t)) => Some((Gate::ControlledNot { control: c }, t)),
            _ => None,
        }
    } else {
        None
    }
}

} // verus!
