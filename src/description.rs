//! Season and table numbers read from a game's free-text description.

use vstd::prelude::*;
use crate::text::{decimal_i32, parse_i32};

verus! {

/// `Season <N>`, any number of `: <segment>` parts without a colon, then `: Table <N>`.
pub const SEASON_TABLE_PATTERN: &'static str = r"Season (\d+)(?:: [^:]+)*: Table (\d+)";

/// `Season <N>` anywhere in the text.
pub const SEASON_PATTERN: &'static str = r"Season (\d+)";

/// The text of capture group `group` in the first match of `pattern` in `haystack`, as
/// `regex::Regex::captures` finds it; `None` when nothing matches or the group took no part.
pub uninterp spec fn regex_group(pattern: Seq<char>, haystack: Seq<char>, group: int) -> Option<
    Seq<char>,
>;

pub open spec fn opt_text(t: Option<String>) -> Option<Seq<char>> {
    match t {
        Some(s) => Some(s@),
        None => None,
    }
}

/// Relies on `regex::Regex::new` and `regex::Regex::captures`: compiles `pattern` and
/// returns the text of capture group `group` of the leftmost-first match in `haystack`.
#[verifier::external_body]
fn capture_group(pattern: &str, haystack: &str, group: usize) -> (r: Option<String>)
    ensures
        opt_text(r) == regex_group(pattern@, haystack@, group as int),
{
    let re = regex::Regex::new(pattern).ok()?;
    let caps = re.captures(haystack)?;
    caps.get(group).map(|m| m.as_str().to_string())
}

/// The number a captured text holds, or `default` when there is no text or it is not an `i32`.
pub open spec fn number_or(t: Option<Seq<char>>, default: i32) -> i32 {
    match t {
        Some(s) => match decimal_i32(s) {
            Some(v) => v,
            None => default,
        },
        None => default,
    }
}

/// Season and table from what the two patterns captured. When the full pattern matched,
/// both numbers come from it (an unreadable season is 0, an unreadable table is
/// `fallback_table`); otherwise the season comes from `Season <N>` alone, or is 0, and the
/// table is `fallback_table`.
pub open spec fn season_table_of(
    full_season: Option<Seq<char>>,
    full_table: Option<Seq<char>>,
    season_only: Option<Seq<char>>,
    fallback_table: i32,
) -> (i32, i32) {
    if full_season is Some {
        (number_or(full_season, 0), number_or(full_table, fallback_table))
    } else {
        (number_or(season_only, 0), fallback_table)
    }
}

/// Season and table numbers of a description, `fallback_table` standing in for a table
/// number it does not give.
pub open spec fn description_numbers(description: Seq<char>, fallback_table: i32) -> (i32, i32) {
    season_table_of(
        regex_group(SEASON_TABLE_PATTERN@, description, 1),
        regex_group(SEASON_TABLE_PATTERN@, description, 2),
        regex_group(SEASON_PATTERN@, description, 1),
        fallback_table,
    )
}

fn number_or_default(t: &Option<String>, default: i32) -> (r: i32)
    ensures
        r == number_or(opt_text(*t), default),
{
    match t {
        Some(s) => match parse_i32(s.as_str()) {
            Some(v) => v,
            None => default,
        },
        None => default,
    }
}

/// Season and table from the captured texts; see [`season_table_of`].
pub fn season_and_table(
    full_season: &Option<String>,
    full_table: &Option<String>,
    season_only: &Option<String>,
    fallback_table: i32,
) -> (r: (i32, i32))
    ensures
        r == season_table_of(
            opt_text(*full_season),
            opt_text(*full_table),
            opt_text(*season_only),
            fallback_table,
        ),
{
    if full_season.is_some() {
        (number_or_default(full_season, 0), number_or_default(full_table, fallback_table))
    } else {
        (number_or_default(season_only, 0), fallback_table)
    }
}

/// Reads `Season <N>: ... Table <M>` from a description; see [`description_numbers`].
pub fn parse_season_table(description: &str, fallback_table: i32) -> (r: (i32, i32))
    ensures
        r == description_numbers(description@, fallback_table),
{
    let full_season = capture_group(SEASON_TABLE_PATTERN, description, 1);
    let full_table = capture_group(SEASON_TABLE_PATTERN, description, 2);
    let season_only = capture_group(SEASON_PATTERN, description, 1);
    season_and_table(&full_season, &full_table, &season_only, fallback_table)
}

} // verus!
