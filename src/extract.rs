//! The record extractor: turns one source document into a [`GameInfo`].
//!
//! Two formats come in. A rendered table page, whose cells are handed over as text
//! (`TableDocument`), and a game of the bulk JSON export (`SourceGame`), whose players
//! are given by id in a roster (`SourcePlayer`).

use vstd::prelude::*;
use chrono::Datelike;
use crate::description::{description_numbers, parse_season_table};
use crate::model::{GameInfo, PlayerResult, Points, Timestamp};
use crate::text::{chars_equal, decimal_i32, parse_i32};

verus! {

/// The day number (0001-01-01 is day 1) of a date written as `format` says, as
/// `chrono::NaiveDate::parse_from_str` reads it.
pub uninterp spec fn date_parsed(text: Seq<char>, format: Seq<char>) -> Option<i32>;

/// Seconds since 1970-01-01T00:00:00 and nanoseconds of a date and time written as
/// `format` says, as `chrono::NaiveDateTime::parse_from_str` reads it.
pub uninterp spec fn datetime_parsed(text: Seq<char>, format: Seq<char>) -> Option<(i64, u32)>;

/// Relies on `chrono::NaiveDate::parse_from_str` and `Datelike::num_days_from_ce`.
#[verifier::external_body]
fn parse_date(text: &str, format: &str) -> (r: Option<i32>)
    ensures
        r == date_parsed(text@, format@),
{
    match chrono::NaiveDate::parse_from_str(text, format) {
        Ok(d) => Some(d.num_days_from_ce()),
        Err(_) => None,
    }
}

/// Relies on `chrono::NaiveDateTime::parse_from_str`, read back through
/// `NaiveDateTime::and_utc`, `DateTime::timestamp` and `DateTime::timestamp_subsec_nanos`.
#[verifier::external_body]
fn parse_datetime(text: &str, format: &str) -> (r: Option<Timestamp>)
    ensures
        match r {
            Some(t) => datetime_parsed(text@, format@) == Some((t.seconds, t.nanos)),
            None => datetime_parsed(text@, format@) is None,
        },
{
    match chrono::NaiveDateTime::parse_from_str(text, format) {
        Ok(t) => Some(
            Timestamp { seconds: t.and_utc().timestamp(), nanos: t.and_utc().timestamp_subsec_nanos() },
        ),
        Err(_) => None,
    }
}

/// How dates are written in both formats.
pub const DATE_FORMAT: &'static str = "%Y-%m-%d";

/// How a table page writes the time a game was registered.
pub const REGISTERED_FORMAT: &'static str = "%Y-%m-%d %H:%M:%S%.f %Z";

/// The day number of 1970-01-01, the date given to a game whose date cannot be read.
pub const EPOCH_DAY: i32 = 719163;

/// A cell of a table page that holds an amount of points.
#[derive(Clone, Copy, Debug, PartialEq, Eq, Structural)]
pub enum PointsCell {
    /// The page has no such cell.
    Missing,
    /// The cell is there but holds no number.
    Unreadable,
    Read(Points),
}

/// One player row of a table page: the text of each cell, `None` where the cell is missing.
#[derive(Debug)]
pub struct TableRow {
    pub seat: Option<String>,
    pub name: Option<String>,
    pub score: PointsCell,
    pub position: Option<String>,
    pub uma: PointsCell,
    pub penalty: PointsCell,
    pub total: PointsCell,
}

/// A table page: the text of each value cell, `None` where the cell is missing.
#[derive(Debug)]
pub struct TableDocument {
    pub game_id: Option<String>,
    pub played_date: Option<String>,
    pub registered: Option<String>,
    pub description: Option<String>,
    pub processed: Option<String>,
    pub rows: Vec<TableRow>,
}

/// The field a document failed on.
#[derive(Clone, Copy, Debug, PartialEq, Eq, Structural)]
pub enum Field {
    GameId,
    PlayedDate,
    Registered,
    Description,
    Processed,
    Seat,
    PlayerName,
    Score,
    Position,
    Uma,
    Penalty,
    Total,
}

/// Why a document yields no record. The whole document is dropped; nothing is recovered.
#[derive(Clone, Copy, Debug, PartialEq, Eq, Structural)]
pub enum ExtractionError {
    /// The document has no cell for the field.
    Missing(Field),
    /// The cell is there but cannot be read.
    Malformed(Field),
}

pub open spec fn points_required(c: PointsCell, f: Field) -> Result<Points, ExtractionError> {
    match c {
        PointsCell::Missing => Err(ExtractionError::Missing(f)),
        PointsCell::Unreadable => Err(ExtractionError::Malformed(f)),
        PointsCell::Read(p) => Ok(p),
    }
}

/// The penalty reads as zero when its cell holds no number.
pub open spec fn penalty_of(c: PointsCell) -> Result<Points, ExtractionError> {
    match c {
        PointsCell::Missing => Err(ExtractionError::Missing(Field::Penalty)),
        PointsCell::Unreadable => Ok(Points { bits: 0 }),
        PointsCell::Read(p) => Ok(p),
    }
}

/// The first problem of a row, fields taken in their order on the page.
pub open spec fn row_problem(row: TableRow) -> Option<ExtractionError> {
    if row.seat is None {
        Some(ExtractionError::Missing(Field::Seat))
    } else if row.name is None {
        Some(ExtractionError::Missing(Field::PlayerName))
    } else if points_required(row.score, Field::Score) is Err {
        Some(points_required(row.score, Field::Score)->Err_0)
    } else if row.position is None {
        Some(ExtractionError::Missing(Field::Position))
    } else if decimal_i32(row.position->0@) is None {
        Some(ExtractionError::Malformed(Field::Position))
    } else if points_required(row.uma, Field::Uma) is Err {
        Some(points_required(row.uma, Field::Uma)->Err_0)
    } else if penalty_of(row.penalty) is Err {
        Some(penalty_of(row.penalty)->Err_0)
    } else if points_required(row.total, Field::Total) is Err {
        Some(points_required(row.total, Field::Total)->Err_0)
    } else {
        None
    }
}

/// The seat a problem-free row gives.
pub open spec fn row_result(row: TableRow, r: PlayerResult) -> bool {
    &&& r.seat == row.seat->0
    &&& r.player_name == row.name->0
    &&& r.score == points_required(row.score, Field::Score)->Ok_0
    &&& r.position == decimal_i32(row.position->0@)->0
    &&& r.uma == points_required(row.uma, Field::Uma)->Ok_0
    &&& r.penalty == penalty_of(row.penalty)->Ok_0
    &&& r.total == points_required(row.total, Field::Total)->Ok_0
}

/// The first problem among the rows.
pub open spec fn rows_problem(rows: Seq<TableRow>) -> Option<ExtractionError>
    decreases rows.len(),
{
    if rows.len() == 0 {
        None
    } else if rows_problem(rows.drop_last()) is Some {
        rows_problem(rows.drop_last())
    } else {
        row_problem(rows.last())
    }
}

/// The first problem of a page: the value cells in their order, then the rows.
pub open spec fn document_problem(doc: TableDocument) -> Option<ExtractionError> {
    if doc.game_id is None {
        Some(ExtractionError::Missing(Field::GameId))
    } else if decimal_i32(doc.game_id->0@) is None {
        Some(ExtractionError::Malformed(Field::GameId))
    } else if doc.played_date is None {
        Some(ExtractionError::Missing(Field::PlayedDate))
    } else if date_parsed(doc.played_date->0@, DATE_FORMAT@) is None {
        Some(ExtractionError::Malformed(Field::PlayedDate))
    } else if doc.registered is None {
        Some(ExtractionError::Missing(Field::Registered))
    } else if doc.description is None {
        Some(ExtractionError::Missing(Field::Description))
    } else if doc.processed is None {
        Some(ExtractionError::Missing(Field::Processed))
    } else {
        rows_problem(doc.rows@)
    }
}

fn required_points(c: PointsCell, f: Field) -> (r: Result<Points, ExtractionError>)
    ensures
        r == points_required(c, f),
{
    match c {
        PointsCell::Missing => Err(ExtractionError::Missing(f)),
        PointsCell::Unreadable => Err(ExtractionError::Malformed(f)),
        PointsCell::Read(p) => Ok(p),
    }
}

/// Reads one player row of a table page.
pub fn extract_row(row: &TableRow) -> (r: Result<PlayerResult, ExtractionError>)
    ensures
        match r {
            Ok(res) => row_problem(*row) is None && row_result(*row, res),
            Err(e) => row_problem(*row) == Some(e),
        },
{
    let seat = match &row.seat {
        Some(s) => s.clone(),
        None => return Err(ExtractionError::Missing(Field::Seat)),
    };
    let player_name = match &row.name {
        Some(n) => n.clone(),
        None => return Err(ExtractionError::Missing(Field::PlayerName)),
    };
    let score = required_points(row.score, Field::Score)?;
    let position = match &row.position {
        Some(t) => match parse_i32(t.as_str()) {
            Some(p) => p,
            None => return Err(ExtractionError::Malformed(Field::Position)),
        },
        None => return Err(ExtractionError::Missing(Field::Position)),
    };
    let uma = required_points(row.uma, Field::Uma)?;
    let penalty = match row.penalty {
        PointsCell::Missing => return Err(ExtractionError::Missing(Field::Penalty)),
        PointsCell::Unreadable => Points::zero(),
        PointsCell::Read(p) => p,
    };
    let total = required_points(row.total, Field::Total)?;
    Ok(PlayerResult { seat, player_name, score, position, uma, penalty, total })
}

/// The record a problem-free page gives.
pub open spec fn document_record(doc: TableDocument, info: GameInfo) -> bool {
    let game_id = decimal_i32(doc.game_id->0@)->0;
    &&& info.game_id == game_id
    &&& info.played_date == date_parsed(doc.played_date->0@, DATE_FORMAT@)->0
    &&& info.registered == match datetime_parsed(doc.registered->0@, REGISTERED_FORMAT@) {
        Some(t) => Some(Timestamp { seconds: t.0, nanos: t.1 }),
        None => None,
    }
    &&& info.description == doc.description->0
    &&& info.processed == (doc.processed->0@ == seq!['t', 'r', 'u', 'e'])
    &&& (info.season_num, info.table_num) == description_numbers(doc.description->0@, game_id)
    &&& info.player_results@.len() == doc.rows@.len()
    &&& forall|k: int|
        0 <= k < doc.rows@.len() ==> row_result(#[trigger] doc.rows@[k], info.player_results@[k])
}

/// Reads a table page into a record. The season and table come from the description,
/// the page's game id standing in for a table number it does not give; a registration
/// time that cannot be read is left out; any other missing or unreadable cell drops
/// the page with the first problem found.
pub fn extract_table_document(doc: &TableDocument) -> (r: Result<GameInfo, ExtractionError>)
    ensures
        match r {
            Ok(info) => document_problem(*doc) is None && document_record(*doc, info),
            Err(e) => document_problem(*doc) == Some(e),
        },
{
    let game_id = match &doc.game_id {
        Some(t) => match parse_i32(t.as_str()) {
            Some(v) => v,
            None => return Err(ExtractionError::Malformed(Field::GameId)),
        },
        None => return Err(ExtractionError::Missing(Field::GameId)),
    };
    let played_date = match &doc.played_date {
        Some(t) => match parse_date(t.as_str(), DATE_FORMAT) {
            Some(d) => d,
            None => return Err(ExtractionError::Malformed(Field::PlayedDate)),
        },
        None => return Err(ExtractionError::Missing(Field::PlayedDate)),
    };
    let registered = match &doc.registered {
        Some(t) => parse_datetime(t.as_str(), REGISTERED_FORMAT),
        None => return Err(ExtractionError::Missing(Field::Registered)),
    };
    let description = match &doc.description {
        Some(t) => t.clone(),
        None => return Err(ExtractionError::Missing(Field::Description)),
    };
    let processed = match &doc.processed {
        Some(t) => {
            proof {
                reveal_strlit("true");
            }
            assert("true"@ =~= seq!['t', 'r', 'u', 'e']);
            chars_equal(t.as_str(), "true")
        },
        None => return Err(ExtractionError::Missing(Field::Processed)),
    };
    let mut player_results: Vec<PlayerResult> = Vec::new();
    let mut k: usize = 0;
    while k < doc.rows.len()
        invariant
            k <= doc.rows@.len(),
            rows_problem(doc.rows@.take(k as int)) is None,
            document_problem(*doc) == rows_problem(doc.rows@),
            player_results@.len() == k,
            forall|j: int| 0 <= j < k ==> row_result(#[trigger] doc.rows@[j], player_results@[j]),
        decreases doc.rows@.len() - k,
    {
        assert(doc.rows@.take(k + 1).drop_last() =~= doc.rows@.take(k as int));
        match extract_row(&doc.rows[k]) {
            Ok(res) => player_results.push(res),
            Err(e) => {
                proof {
                    assert(doc.rows@.take(k + 1).last() == doc.rows@[k as int]);
                    assert(rows_problem(doc.rows@.take(k + 1)) == Some(e));
                    lemma_rows_problem_prefix(doc.rows@, k as int + 1);
                }
                return Err(e);
            },
        }
        k = k + 1;
    }
    assert(doc.rows@.take(doc.rows@.len() as int) =~= doc.rows@);
    let (season_num, table_num) = parse_season_table(description.as_str(), game_id);
    Ok(
        GameInfo {
            game_id,
            played_date,
            registered,
            description,
            processed,
            player_results,
            season_num,
            table_num,
        },
    )
}

/// A problem in a prefix of the rows is the first problem of all of them.
proof fn lemma_rows_problem_prefix(rows: Seq<TableRow>, n: int)
    requires
        0 <= n <= rows.len(),
        rows_problem(rows.take(n)) is Some,
    ensures
        rows_problem(rows) == rows_problem(rows.take(n)),
    decreases rows.len() - n,
{
    if n < rows.len() {
        assert(rows.take(n + 1).drop_last() =~= rows.take(n));
        lemma_rows_problem_prefix(rows, n + 1);
    } else {
        assert(rows.take(n) =~= rows);
    }
}

/// A player of the bulk export's roster.
#[derive(Debug)]
pub struct SourcePlayer {
    pub pid: u64,
    pub name: String,
}

/// One seat of a game of the bulk export; amounts it leaves out read as zero.
#[derive(Debug)]
pub struct SourceResult {
    pub player: u64,
    pub result: Points,
    pub seat: String,
    pub uma: Option<Points>,
    pub position: Option<u8>,
    pub penalty: Option<Points>,
    pub total: Option<Points>,
}

/// A game of the bulk export.
#[derive(Debug)]
pub struct SourceGame {
    pub gid: u64,
    pub played: String,
    pub description: String,
    pub results: Vec<SourceResult>,
}

/// The index of the last roster entry with id `pid`: the one that names it.
pub open spec fn roster_index(players: Seq<SourcePlayer>, pid: u64) -> Option<int>
    decreases players.len(),
{
    if players.len() == 0 {
        None
    } else if players.last().pid == pid {
        Some(players.len() - 1)
    } else {
        roster_index(players.drop_last(), pid)
    }
}

pub open spec fn unknown_name() -> Seq<char> {
    seq!['U', 'n', 'k', 'n', 'o', 'w', 'n']
}

/// The name the roster gives id `pid`, or `Unknown`.
pub open spec fn roster_name(players: Seq<SourcePlayer>, pid: u64) -> Seq<char> {
    match roster_index(players, pid) {
        Some(i) => players[i].name@,
        None => unknown_name(),
    }
}

pub open spec fn points_or_zero(p: Option<Points>) -> Points {
    match p {
        Some(v) => v,
        None => Points { bits: 0 },
    }
}

/// The seat of a record that a seat of the export gives.
pub open spec fn source_row(r: SourceResult, players: Seq<SourcePlayer>, row: PlayerResult) -> bool {
    &&& row.player_name@ == roster_name(players, r.player)
    &&& row.seat@ == r.seat@
    &&& row.score == r.result
    &&& row.position == match r.position {
        Some(p) => p as i32,
        None => 0,
    }
    &&& row.uma == points_or_zero(r.uma)
    &&& row.penalty == points_or_zero(r.penalty)
    &&& row.total == points_or_zero(r.total)
}

/// The record a game of the export gives.
pub open spec fn source_record(g: SourceGame, players: Seq<SourcePlayer>, info: GameInfo) -> bool {
    &&& info.game_id == g.gid as i32
    &&& info.played_date == match date_parsed(g.played@, DATE_FORMAT@) {
        Some(d) => d,
        None => EPOCH_DAY,
    }
    &&& info.registered is None
    &&& info.description@ == g.description@
    &&& info.processed
    &&& (info.season_num, info.table_num) == description_numbers(g.description@, g.gid as i32)
    &&& info.player_results@.len() == g.results@.len()
    &&& forall|k: int|
        0 <= k < g.results@.len() ==> source_row(
            #[trigger] g.results@[k],
            players,
            info.player_results@[k],
        )
}

/// The name the roster gives id `pid`, or `Unknown`.
pub fn name_for_pid(players: &Vec<SourcePlayer>, pid: u64) -> (r: String)
    ensures
        r@ == roster_name(players@, pid),
{
    let mut found: Option<usize> = None;
    let mut k: usize = 0;
    while k < players.len()
        invariant
            k <= players@.len(),
            match found {
                Some(i) => i < k && roster_index(players@.take(k as int), pid) == Some(i as int),
                None => roster_index(players@.take(k as int), pid) is None,
            },
        decreases players@.len() - k,
    {
        assert(players@.take(k + 1).drop_last() =~= players@.take(k as int));
        if players[k].pid == pid {
            found = Some(k);
        }
        k = k + 1;
    }
    assert(players@.take(players@.len() as int) =~= players@);
    match found {
        Some(i) => {
            players[i].name.clone()
        },
        None => {
            proof {
                reveal_strlit("Unknown");
            }
            assert("Unknown"@ =~= unknown_name());
            String::from_str("Unknown")
        },
    }
}

/// `i` is the first roster entry called `name`.
pub open spec fn roster_first_named(players: Seq<SourcePlayer>, name: Seq<char>, i: int) -> bool {
    &&& 0 <= i < players.len()
    &&& players[i].name@ == name
    &&& forall|k: int| 0 <= k < i ==> players[k].name@ != name
}

/// The roster's id for the first player called `name`, as a player id.
pub open spec fn roster_id_for_name(players: Seq<SourcePlayer>, name: Seq<char>) -> Option<i32> {
    if exists|i: int| roster_first_named(players, name, i) {
        Some(players[choose|i: int| roster_first_named(players, name, i)].pid as i32)
    } else {
        None
    }
}

/// The roster's id for the first player called `name`, as a player id.
pub fn source_id_for_name(players: &Vec<SourcePlayer>, name: &String) -> (r: Option<i32>)
    ensures
        r == roster_id_for_name(players@, name@),
{
    let mut k: usize = 0;
    while k < players.len()
        invariant
            k <= players@.len(),
            forall|j: int| 0 <= j < k ==> players@[j].name@ != name@,
        decreases players@.len() - k,
    {
        if players[k].name == *name {
            proof {
                assert(roster_first_named(players@, name@, k as int));
                let c = choose|c: int| roster_first_named(players@, name@, c);
                assert(c == k);
            }
            return Some(players[k].pid as i32);
        }
        k = k + 1;
    }
    None
}

/// Turns a game of the bulk export into a record. Names come from the roster; the
/// season and table from the description, the game's id standing in for a table number
/// it does not give; a date that cannot be read becomes 1970-01-01.
pub fn game_info_from_source(game: &SourceGame, players: &Vec<SourcePlayer>) -> (r: GameInfo)
    ensures
        source_record(*game, players@, r),
{
    let mut player_results: Vec<PlayerResult> = Vec::new();
    let mut k: usize = 0;
    while k < game.results.len()
        invariant
            k <= game.results@.len(),
            player_results@.len() == k,
            forall|j: int|
                0 <= j < k ==> source_row(#[trigger] game.results@[j], players@, player_results@[j]),
        decreases game.results@.len() - k,
    {
        let res = &game.results[k];
        let position: i32 = match res.position {
            Some(p) => p as i32,
            None => 0,
        };
        let uma = match res.uma {
            Some(v) => v,
            None => Points::zero(),
        };
        let penalty = match res.penalty {
            Some(v) => v,
            None => Points::zero(),
        };
        let total = match res.total {
            Some(v) => v,
            None => Points::zero(),
        };
        player_results.push(
            PlayerResult {
                seat: res.seat.clone(),
                player_name: name_for_pid(players, res.player),
                score: res.result,
                position,
                uma,
                penalty,
                total,
            },
        );
        k = k + 1;
    }
    let game_id = game.gid as i32;
    let played_date = match parse_date(game.played.as_str(), DATE_FORMAT) {
        Some(d) => d,
        None => EPOCH_DAY,
    };
    let (season_num, table_num) = parse_season_table(game.description.as_str(), game_id);
    GameInfo {
        game_id,
        played_date,
        registered: None,
        description: game.description.clone(),
        processed: true,
        player_results,
        season_num,
        table_num,
    }
}

} // verus!
