//! The rows of the store and the normalized match record.

use vstd::prelude::*;

verus! {

/// An amount of points as the source gives it (a score, an uma, a penalty or a total).
///
/// It is held as the bit pattern of its IEEE-754 double: the library never computes
/// with points, it only carries them, so this keeps every value exactly as it was read.
#[derive(Clone, Copy, Debug, PartialEq, Eq, Structural)]
pub struct Points {
    pub bits: u64,
}

impl Points {
    /// The value `0.0`, used where the source leaves an amount out.
    pub fn zero() -> (r: Points)
        ensures
            r.bits == 0,
    {
        Points { bits: 0 }
    }
}

/// A date and time without time zone: seconds since 1970-01-01T00:00:00 and the
/// nanoseconds within that second.
#[derive(Clone, Copy, Debug, PartialEq, Eq, Structural)]
pub struct Timestamp {
    pub seconds: i64,
    pub nanos: u32,
}

/// A player: a stable numeric identity and a display name that may change.
#[derive(Debug)]
pub struct LeaguePlayer {
    pub id: i32,
    pub name: String,
}

impl LeaguePlayer {
    pub fn new(id: i32, name: String) -> (r: Self)
        ensures
            r.id == id,
            r.name@ == name@,
    {
        Self { id, name }
    }
}

/// One four-player table. `(season_num, table_num)` is its natural key and `id` the
/// surrogate the store assigned. `e`, `s`, `w`, `n` hold the player id of each seat,
/// `0` where the seat has no resolved player.
#[derive(Clone, Copy, Debug, PartialEq, Eq, Structural)]
pub struct LeagueGame {
    pub game_time: Option<Timestamp>,
    pub season_num: i32,
    pub table_num: i32,
    pub processed: bool,
    pub id: i32,
    pub e: i32,
    pub s: i32,
    pub w: i32,
    pub n: i32,
}

impl LeagueGame {
    pub fn new(
        game_time: Option<Timestamp>,
        season_num: i32,
        table_num: i32,
        processed: bool,
        id: i32,
        e: i32,
        s: i32,
        w: i32,
        n: i32,
    ) -> (r: Self)
        ensures
            r == (LeagueGame { game_time, season_num, table_num, processed, id, e, s, w, n }),
    {
        Self { game_time, season_num, table_num, processed, id, e, s, w, n }
    }
}

/// The result of one player at one table; `(table_id, player_id)` is its natural key.
#[derive(Clone, Copy, Debug, PartialEq, Eq, Structural)]
pub struct LeagueResult {
    pub id: i32,
    pub table_id: i32,
    pub player_id: i32,
    pub result: Points,
    pub position: i32,
    pub uma: Points,
    pub penalty: Points,
    pub total: Points,
}

impl LeagueResult {
    pub fn new(
        id: i32,
        table_id: i32,
        player_id: i32,
        result: Points,
        position: i32,
        uma: Points,
        penalty: Points,
        total: Points,
    ) -> (r: Self)
        ensures
            r == (LeagueResult { id, table_id, player_id, result, position, uma, penalty, total }),
    {
        Self { id, table_id, player_id, result, position, uma, penalty, total }
    }
}

/// One seat of a match record as the source gives it.
#[derive(Debug)]
pub struct PlayerResult {
    pub seat: String,
    pub player_name: String,
    pub score: Points,
    pub position: i32,
    pub uma: Points,
    pub penalty: Points,
    pub total: Points,
}

/// A match record: the normalized content of one source document.
///
/// `played_date` is a day number counted from 0001-01-01 (day 1) in the proleptic
/// Gregorian calendar.
#[derive(Debug)]
pub struct GameInfo {
    pub game_id: i32,
    pub played_date: i32,
    pub registered: Option<Timestamp>,
    pub description: String,
    pub processed: bool,
    pub player_results: Vec<PlayerResult>,
    pub season_num: i32,
    pub table_num: i32,
}

} // verus!
