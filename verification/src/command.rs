//! The commands typed at the prompt: `add <directory>` and
//! `remove <position>`.

use vstd::prelude::*;
use crate::text;
use crate::text::{occurs_at, trimmed};

verus! {

/// What a line typed at the prompt asks for.
#[derive(Debug, PartialEq, Eq)]
pub enum Command {
    /// Add this directory to the sources.
    AddDirectory(String),
    /// Remove the source directory at this position.
    RemoveDirectory(usize),
    /// Nothing that the prompt knows.
    Unknown,
}

/// The mathematical value of a [`Command`].
pub enum CommandView {
    AddDirectory(Seq<char>),
    RemoveDirectory(usize),
    Unknown,
}

impl View for Command {
    type V = CommandView;

    open spec fn view(&self) -> CommandView {
        match self {
            Command::AddDirectory(dir) => CommandView::AddDirectory(dir@),
            Command::RemoveDirectory(position) => CommandView::RemoveDirectory(*position),
            Command::Unknown => CommandView::Unknown,
        }
    }
}

/// `s` without the copies of `prefix` that it begins with.
pub open spec fn without_prefix(s: Seq<char>, prefix: Seq<char>) -> Seq<char>
    decreases s.len(),
{
    if prefix.len() > 0 && occurs_at(s, prefix, 0) {
        without_prefix(s.skip(prefix.len() as int), prefix)
    } else {
        s
    }
}

/// The value of a decimal digit.
pub open spec fn digit_value(c: char) -> Option<nat> {
    if '0' <= c <= '9' {
        Some((c as u32 - '0' as u32) as nat)
    } else {
        None
    }
}

/// The number that a nonempty sequence of decimal digits writes.
pub open spec fn number(digits: Seq<char>) -> Option<nat>
    decreases digits.len(),
{
    if digits.len() == 0 {
        None
    } else if digits.len() == 1 {
        digit_value(digits[0])
    } else {
        match (number(digits.drop_last()), digit_value(digits.last())) {
            (Some(n), Some(d)) => Some(10 * n + d),
            _ => None,
        }
    }
}

/// The position that a text writes: decimal digits, with a `+` before them
/// or without, that write a number within the range of `usize`.
pub open spec fn position_of(t: Seq<char>) -> Option<usize> {
    within_usize(number(unsigned(t)))
}

/// `t` without the `+` that it may begin with.
pub open spec fn unsigned(t: Seq<char>) -> Seq<char> {
    if t.len() > 0 && t[0] == '+' {
        t.skip(1)
    } else {
        t
    }
}

/// The number as a `usize`, if there is a number and it is in range.
pub open spec fn within_usize(n: Option<nat>) -> Option<usize> {
    match n {
        Some(n) => if n <= usize::MAX {
            Some(n as usize)
        } else {
            None
        },
        None => None,
    }
}

/// What the line asks for. White space at both ends does not count. A line
/// that begins with `add ` names the directory that follows; one that begins
/// with `remove ` names the position that follows, if a position follows.
pub open spec fn command_of(line: Seq<char>) -> CommandView {
    let typed = trimmed(line);
    if occurs_at(typed, "add "@, 0) {
        CommandView::AddDirectory(without_prefix(typed, "add "@))
    } else if occurs_at(typed, "remove "@, 0) {
        match position_of(without_prefix(typed, "remove "@)) {
            Some(position) => CommandView::RemoveDirectory(position),
            None => CommandView::Unknown,
        }
    } else {
        CommandView::Unknown
    }
}

/// A number whose digits all count is at least the number that its first
/// digits write.
pub proof fn lemma_number_grows(digits: Seq<char>, n: int)
    requires
        0 < n <= digits.len(),
        number(digits) is Some,
    ensures
        number(digits.take(n)) is Some,
        number(digits.take(n))->0 <= number(digits)->0,
    decreases digits.len(),
{
    if n == digits.len() {
        assert(digits.take(n) =~= digits);
    } else {
        assert(digits.drop_last().take(n) =~= digits.take(n));
        lemma_number_grows(digits.drop_last(), n);
    }
}

/// Removes the copies of `prefix` that `s` begins with.
pub fn strip_prefix(s: &Vec<char>, prefix: &Vec<char>) -> (rest: Vec<char>)
    ensures
        rest@ == without_prefix(s@, prefix@),
{
    let mut start: usize = 0;
    assert(s@.skip(0) =~= s@);
    if prefix.len() > 0 {
        while text::matches_at(s, prefix, start)
            invariant
                start <= s.len(),
                prefix.len() > 0,
                without_prefix(s@, prefix@) == without_prefix(s@.skip(start as int), prefix@),
            decreases s.len() - start,
        {
            proof {
                let rest = s@.skip(start as int);
                assert(rest.subrange(0, prefix@.len() as int) =~= s@.subrange(
                    start as int,
                    start + prefix@.len(),
                ));
                assert(rest.skip(prefix@.len() as int) =~= s@.skip(start + prefix@.len()));
            }
            start += prefix.len();
        }
        proof {
            let rest = s@.skip(start as int);
            if start + prefix@.len() <= s@.len() {
                assert(rest.subrange(0, prefix@.len() as int) =~= s@.subrange(
                    start as int,
                    start + prefix@.len(),
                ));
            }
        }
    }
    let rest = text::slice(s, start, s.len());
    rest
}

/// Reads a position.
pub fn parse_position(t: &Vec<char>) -> (position: Option<usize>)
    ensures
        position == position_of(t@),
{
    let start: usize = if t.len() > 0 && t[0] == '+' {
        1
    } else {
        0
    };
    let ghost digits = unsigned(t@);
    if start == t.len() {
        return None;
    }
    let mut value: usize = 0;
    let mut i: usize = start;
    while i < t.len()
        invariant
            start <= i <= t.len(),
            start < t.len(),
            digits == t@.skip(start as int),
            position_of(t@) == within_usize(number(digits)),
            i > start ==> number(digits.take(i - start)) == Some(value as nat),
            i == start ==> value == 0,
        decreases t.len() - i,
    {
        let c = t[i];
        let ghost seen = digits.take(i - start);
        let ghost now = digits.take(i + 1 - start);
        proof {
            assert(now.drop_last() =~= seen);
        }
        if !('0' <= c && c <= '9') {
            proof {
                lemma_not_a_number(digits, i + 1 - start);
            }
            return None;
        }
        let d: usize = (c as u32 - '0' as u32) as usize;
        if value > (usize::MAX - d) / 10 {
            proof {
                if number(digits) is Some {
                    lemma_number_grows(digits, i + 1 - start);
                }
            }
            return None;
        }
        value = 10 * value + d;
        i += 1;
    }
    assert(digits.take(t.len() - start) =~= digits);
    Some(value)
}

/// A text is no number if its first `n` characters are none.
pub proof fn lemma_not_a_number(digits: Seq<char>, n: int)
    requires
        0 < n <= digits.len(),
        number(digits.take(n)) is None,
    ensures
        number(digits) is None,
{
    if number(digits) is Some {
        lemma_number_grows(digits, n);
    }
}

/// Reads a line typed at the prompt.
pub fn parse_command(line: &str) -> (command: Command)
    ensures
        command@ == command_of(line@),
{
    let typed = text::trim(&text::chars_of(line));
    let add = text::chars_of("add ");
    let remove = text::chars_of("remove ");
    if text::matches_at(&typed, &add, 0) {
        Command::AddDirectory(text::string_of(&strip_prefix(&typed, &add)))
    } else if text::matches_at(&typed, &remove, 0) {
        match parse_position(&strip_prefix(&typed, &remove)) {
            Some(position) => Command::RemoveDirectory(position),
            None => Command::Unknown,
        }
    } else {
        Command::Unknown
    }
}

} // verus!
