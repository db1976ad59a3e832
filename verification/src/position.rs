//! Lines and columns: where an offset into the source lies.

use vstd::prelude::*;

verus! {

/// The line of the offset `at`: one more than the number of newlines before it.
pub open spec fn line_at(s: Seq<char>, at: int) -> nat
    decreases at,
{
    if at <= 0 {
        1
    } else if s[at - 1] == '\n' {
        line_at(s, at - 1) + 1
    } else {
        line_at(s, at - 1)
    }
}

/// The column of the offset `at`: one more than the number of characters
/// between it and the start of its line.
pub open spec fn column_at(s: Seq<char>, at: int) -> nat
    decreases at,
{
    if at <= 0 {
        1
    } else if s[at - 1] == '\n' {
        1
    } else {
        column_at(s, at - 1) + 1
    }
}

/// The offset `at` lies in `s`, or just behind it, and is where the given line
/// and column point.
pub open spec fn located(s: Seq<char>, at: int, line: nat, column: nat) -> bool {
    &&& 0 <= at <= s.len()
    &&& line_at(s, at) == line
    &&& column_at(s, at) == column
}

/// Lines and columns start at 1 and grow by at most one per character.
pub proof fn lemma_position_bounds(s: Seq<char>, at: int)
    requires
        0 <= at,
    ensures
        1 <= line_at(s, at) <= at + 1,
        1 <= column_at(s, at) <= at + 1,
    decreases at,
{
    if at > 0 {
        lemma_position_bounds(s, at - 1);
    }
}

/// A later offset has a later position: a greater line, or the same line and
/// a greater column.
pub proof fn lemma_position_increases(s: Seq<char>, from: int, to: int)
    requires
        0 <= from < to,
    ensures
        line_at(s, from) < line_at(s, to) || (line_at(s, from) == line_at(s, to) && column_at(
            s,
            from,
        ) < column_at(s, to)),
    decreases to - from,
{
    if from < to - 1 {
        lemma_position_increases(s, from, to - 1);
    }
}

/// A line and a column point at no more than one offset.
pub proof fn lemma_located_unique(s: Seq<char>, a: int, b: int, line: nat, column: nat)
    requires
        located(s, a, line, column),
        located(s, b, line, column),
    ensures
        a == b,
{
    if a < b {
        lemma_position_increases(s, a, b);
    } else if b < a {
        lemma_position_increases(s, b, a);
    }
}

} // verus!
