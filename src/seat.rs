//! Seat labels: `E`, `S`, `W`, `N` or the full words, in any case, with or without brackets.

use vstd::prelude::*;
use crate::text::{chars_equal, to_upper, trim_brackets, trim_brackets_of, upper_of};

verus! {

/// One of the four seats of a table.
#[derive(Clone, Copy, Debug, PartialEq, Eq, Structural)]
pub enum Seat {
    East,
    South,
    West,
    North,
}

/// The seat an upper-case label names, if any.
pub open spec fn seat_of_label(u: Seq<char>) -> Option<Seat> {
    if u == seq!['E'] || u == seq!['E', 'A', 'S', 'T'] {
        Some(Seat::East)
    } else if u == seq!['S'] || u == seq!['S', 'O', 'U', 'T', 'H'] {
        Some(Seat::South)
    } else if u == seq!['W'] || u == seq!['W', 'E', 'S', 'T'] {
        Some(Seat::West)
    } else if u == seq!['N'] || u == seq!['N', 'O', 'R', 'T', 'H'] {
        Some(Seat::North)
    } else {
        None
    }
}

/// The seat a raw label names: brackets at either end are dropped and case is ignored.
pub open spec fn normalized_seat(label: Seq<char>) -> Option<Seat> {
    seat_of_label(upper_of(trim_brackets(label)))
}

/// The seat an upper-case label names, if any.
pub fn seat_from_label(u: &str) -> (r: Option<Seat>)
    ensures
        r == seat_of_label(u@),
{
    proof {
        reveal_strlit("E");
        reveal_strlit("EAST");
        reveal_strlit("S");
        reveal_strlit("SOUTH");
        reveal_strlit("W");
        reveal_strlit("WEST");
        reveal_strlit("N");
        reveal_strlit("NORTH");
    }
    assert("E"@ =~= seq!['E']);
    assert("EAST"@ =~= seq!['E', 'A', 'S', 'T']);
    assert("S"@ =~= seq!['S']);
    assert("SOUTH"@ =~= seq!['S', 'O', 'U', 'T', 'H']);
    assert("W"@ =~= seq!['W']);
    assert("WEST"@ =~= seq!['W', 'E', 'S', 'T']);
    assert("N"@ =~= seq!['N']);
    assert("NORTH"@ =~= seq!['N', 'O', 'R', 'T', 'H']);
    if chars_equal(u, "E") || chars_equal(u, "EAST") {
        Some(Seat::East)
    } else if chars_equal(u, "S") || chars_equal(u, "SOUTH") {
        Some(Seat::South)
    } else if chars_equal(u, "W") || chars_equal(u, "WEST") {
        Some(Seat::West)
    } else if chars_equal(u, "N") || chars_equal(u, "NORTH") {
        Some(Seat::North)
    } else {
        None
    }
}

/// The seat a raw label names; the one place where seat labels are read.
pub fn normalize_seat(label: &str) -> (r: Option<Seat>)
    ensures
        r == normalized_seat(label@),
{
    let trimmed = trim_brackets_of(label);
    let upper = to_upper(trimmed);
    seat_from_label(upper.as_str())
}

} // verus!
