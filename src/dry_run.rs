//! The dry run: what a sync of the bulk export would do, without writing anything.
//!
//! It takes the store by shared reference, so no resolver or engine path that writes
//! can run; it mirrors their name and seat analysis and reports what it finds.

use vstd::prelude::*;
use crate::description::{description_numbers, parse_season_table};
use crate::extract::{points_or_zero, roster_index, SourceGame, SourcePlayer};
use crate::identity::{first_named, id_for_name};
use crate::model::Points;
use crate::render::{decimal_of, push_decimal};
use crate::seat::{normalize_seat, normalized_seat, Seat};
use crate::store::{LeagueStore, PlayerRow};

verus! {

/// Something about a game of the export that a sync would not handle cleanly.
#[derive(Debug)]
pub enum DryRunWarning {
    /// A seat names a player id the roster does not have.
    UnknownPlayer { gid: u64, pid: u64 },
    /// A seat label names no seat.
    UnrecognizedSeat { gid: u64, player: String, seat: String },
    /// A seat, or the unrecognized seat, is given to more than one player.
    DuplicateSeat { gid: u64, seat: Option<Seat> },
    /// The game does not have four players.
    WrongPlayerCount { gid: u64, count: usize },
    /// No player sits at a seat.
    MissingSeat { gid: u64, seat: Seat },
}

/// A warning as contracts see it.
pub enum WarningView {
    UnknownPlayer { gid: u64, pid: u64 },
    UnrecognizedSeat { gid: u64, player: Seq<char>, seat: Seq<char> },
    DuplicateSeat { gid: u64, seat: Option<Seat> },
    WrongPlayerCount { gid: u64, count: int },
    MissingSeat { gid: u64, seat: Seat },
}

impl View for DryRunWarning {
    type V = WarningView;

    open spec fn view(&self) -> WarningView {
        match *self {
            DryRunWarning::UnknownPlayer { gid, pid } => WarningView::UnknownPlayer { gid, pid },
            DryRunWarning::UnrecognizedSeat { gid, player, seat } => WarningView::UnrecognizedSeat {
                gid,
                player: player@,
                seat: seat@,
            },
            DryRunWarning::DuplicateSeat { gid, seat } => WarningView::DuplicateSeat { gid, seat },
            DryRunWarning::WrongPlayerCount { gid, count } => WarningView::WrongPlayerCount {
                gid,
                count: count as int,
            },
            DryRunWarning::MissingSeat { gid, seat } => WarningView::MissingSeat { gid, seat },
        }
    }
}

/// One seat of a game as the dry run sees it.
#[derive(Debug)]
pub struct SeatPreview {
    pub name: String,
    pub seat: Option<Seat>,
    pub raw_seat: String,
    pub score: Points,
    pub position: u8,
    pub uma: Points,
    pub penalty: Points,
    pub total: Points,
    pub is_new_player: bool,
}

/// One game of the export as the dry run sees it.
#[derive(Debug)]
pub struct GamePreview {
    pub gid: u64,
    pub season_num: i32,
    pub table_num: i32,
    pub players: Vec<SeatPreview>,
    /// Each seat given, with the last player given it; the unrecognized seat is `None`.
    pub seat_assignment: Vec<(Option<Seat>, String)>,
}

/// How many games of the export fall in a season.
#[derive(Clone, Copy, Debug, PartialEq, Eq, Structural)]
pub struct SeasonCount {
    pub season_num: i32,
    pub games: u64,
}

/// What the dry run reports.
#[derive(Debug)]
pub struct DryRunReport {
    pub total_games: usize,
    /// Every player name the export's games use, each once, in order of first use.
    pub all_players: Vec<String>,
    /// Those of `all_players` that no stored player has.
    pub new_players: Vec<String>,
    pub warnings: Vec<DryRunWarning>,
    /// Each season once, in order of first use, with its number of games.
    pub seasons: Vec<SeasonCount>,
    pub games: Vec<GamePreview>,
}

pub open spec fn unknown_prefix() -> Seq<char> {
    seq!['U', 'n', 'k', 'n', 'o', 'w', 'n', '_']
}

/// The name the dry run shows for player id `pid`: the roster's, or `Unknown_<pid>`.
pub open spec fn preview_name(players: Seq<SourcePlayer>, pid: u64) -> Seq<char> {
    match roster_index(players, pid) {
        Some(i) => players[i].name@,
        None => unknown_prefix() + decimal_of(pid as nat),
    }
}

/// The seat key of result `k` of a game: its seat, or `None` when unrecognized.
pub open spec fn seat_key(game: SourceGame, k: int) -> Option<Seat> {
    normalized_seat(game.results@[k].seat@)
}

/// The warnings that result `k` of a game raises, in order.
pub open spec fn result_warnings(game: SourceGame, players: Seq<SourcePlayer>, k: int) -> Seq<
    WarningView,
> {
    let r = game.results@[k];
    let unknown = if roster_index(players, r.player) is None {
        seq![WarningView::UnknownPlayer { gid: game.gid, pid: r.player }]
    } else {
        Seq::empty()
    };
    let unrecognized = if seat_key(game, k) is None {
        seq![
            WarningView::UnrecognizedSeat {
                gid: game.gid,
                player: preview_name(players, r.player),
                seat: r.seat@,
            },
        ]
    } else {
        Seq::empty()
    };
    let duplicate = if exists|j: int| 0 <= j < k && seat_key(game, j) == seat_key(game, k) {
        seq![WarningView::DuplicateSeat { gid: game.gid, seat: seat_key(game, k) }]
    } else {
        Seq::empty()
    };
    unknown + unrecognized + duplicate
}

/// The warnings of the first `n` results of a game.
pub open spec fn results_warnings(game: SourceGame, players: Seq<SourcePlayer>, n: int) -> Seq<
    WarningView,
>
    decreases n,
{
    if n <= 0 {
        Seq::empty()
    } else {
        results_warnings(game, players, n - 1) + result_warnings(game, players, n - 1)
    }
}

pub open spec fn seat_taken(game: SourceGame, seat: Seat) -> bool {
    exists|j: int| 0 <= j < game.results@.len() && seat_key(game, j) == Some(seat)
}

/// All warnings of a game: those of its results, then a wrong player count, then each
/// seat that nobody takes, in the order East, South, West, North.
pub open spec fn game_warnings(game: SourceGame, players: Seq<SourcePlayer>) -> Seq<WarningView> {
    let n = game.results@.len() as int;
    let count = if n != 4 {
        seq![WarningView::WrongPlayerCount { gid: game.gid, count: n }]
    } else {
        Seq::empty()
    };
    let missing = |s: Seat|
        if seat_taken(game, s) {
            Seq::<WarningView>::empty()
        } else {
            seq![WarningView::MissingSeat { gid: game.gid, seat: s }]
        };
    results_warnings(game, players, n) + count + missing(Seat::East) + missing(Seat::South)
        + missing(Seat::West) + missing(Seat::North)
}

/// The preview of seat `k` of a game.
pub open spec fn seat_preview_of(
    game: SourceGame,
    players: Seq<SourcePlayer>,
    stored: Seq<PlayerRow>,
    k: int,
    p: SeatPreview,
) -> bool {
    let r = game.results@[k];
    &&& p.name@ == preview_name(players, r.player)
    &&& p.seat == seat_key(game, k)
    &&& p.raw_seat@ == r.seat@
    &&& p.score == r.result
    &&& p.position == match r.position {
        Some(v) => v,
        None => 0u8,
    }
    &&& p.uma == points_or_zero(r.uma)
    &&& p.penalty == points_or_zero(r.penalty)
    &&& p.total == points_or_zero(r.total)
    &&& p.is_new_player == (id_for_name(stored, p.name@) is None)
}

/// The last of the first `n` results of a game whose seat key is `key`.
pub open spec fn last_with_key(game: SourceGame, key: Option<Seat>, n: int) -> Option<int>
    decreases n,
{
    if n <= 0 {
        None
    } else if seat_key(game, n - 1) == key {
        Some(n - 1)
    } else {
        last_with_key(game, key, n - 1)
    }
}

/// The seat assignment of the first `n` results of a game: every seat key used, once,
/// with the name of the last result that used it.
pub open spec fn assignment_of(
    game: SourceGame,
    players: Seq<SourcePlayer>,
    n: int,
    a: Seq<(Option<Seat>, String)>,
) -> bool {
    &&& forall|i: int, j: int| 0 <= i < j < a.len() ==> #[trigger] a[i].0 != #[trigger] a[j].0
    &&& forall|k: int|
        0 <= k < n ==> exists|i: int| 0 <= i < a.len() && a[i].0 == #[trigger] seat_key(game, k)
    &&& forall|i: int|
        0 <= i < a.len() ==> last_with_key(game, #[trigger] a[i].0, n) is Some && a[i].1@
            == preview_name(players, game.results@[last_with_key(game, a[i].0, n)->0].player)
}

/// The name the dry run shows for player id `pid`; with the warning it raises when the
/// roster does not have it.
fn preview_name_of(players: &Vec<SourcePlayer>, pid: u64) -> (r: String)
    ensures
        r@ == preview_name(players@, pid),
{
    let mut found: Option<usize> = None;
    let mut k: usize = 0;
    while k < players.len()
        invariant
            k <= players@.len(),
            match found {
                Some(i) => i < k && roster_index(players@.take(k as int), pid) == Some(i as int),
                None => roster_index(players@.take(k as int), pid) is None,
            },
        decreases players@.len() - k,
    {
        assert(players@.take(k + 1).drop_last() =~= players@.take(k as int));
        if players[k].pid == pid {
            found = Some(k);
        }
        k = k + 1;
    }
    assert(players@.take(players@.len() as int) =~= players@);
    match found {
        Some(i) => players[i].name.clone(),
        None => {
            proof {
                reveal_strlit("Unknown_");
            }
            assert("Unknown_"@ =~= unknown_prefix());
            let mut label = String::from_str("Unknown_");
            push_decimal(&mut label, pid);
            label
        },
    }
}

fn in_roster(players: &Vec<SourcePlayer>, pid: u64) -> (r: bool)
    ensures
        r == (roster_index(players@, pid) is Some),
{
    let mut k: usize = 0;
    let mut found = false;
    while k < players.len()
        invariant
            k <= players@.len(),
            found == (roster_index(players@.take(k as int), pid) is Some),
        decreases players@.len() - k,
    {
        assert(players@.take(k + 1).drop_last() =~= players@.take(k as int));
        if players[k].pid == pid {
            found = true;
        }
        k = k + 1;
    }
    assert(players@.take(players@.len() as int) =~= players@);
    found
}

fn assignment_index(a: &Vec<(Option<Seat>, String)>, key: Option<Seat>) -> (r: Option<usize>)
    ensures
        match r {
            Some(i) => i < a@.len() && a@[i as int].0 == key,
            None => forall|i: int| 0 <= i < a@.len() ==> a@[i].0 != key,
        },
{
    let mut i: usize = 0;
    while i < a.len()
        invariant
            i <= a@.len(),
            forall|j: int| 0 <= j < i ==> a@[j].0 != key,
        decreases a@.len() - i,
    {
        if a[i].0 == key {
            return Some(i);
        }
        i = i + 1;
    }
    None
}

proof fn lemma_last_with_key(game: SourceGame, key: Option<Seat>, n: int)
    requires
        0 <= n,
    ensures
        last_with_key(game, key, n) is Some ==> {
            let j = last_with_key(game, key, n)->0;
            0 <= j < n && seat_key(game, j) == key
        },
        (exists|j: int| 0 <= j < n && seat_key(game, j) == key) ==> last_with_key(game, key, n) is Some,
    decreases n,
{
    if n > 0 {
        lemma_last_with_key(game, key, n - 1);
        if seat_key(game, n - 1) != key {
            if exists|j: int| 0 <= j < n && seat_key(game, j) == key {
                let j = choose|j: int| 0 <= j < n && seat_key(game, j) == key;
                assert(0 <= j < n - 1);
            }
        }
    }
}

/// Whether the assignment gives `key` a player, by what it holds.
proof fn lemma_assignment_has(
    game: SourceGame,
    players: Seq<SourcePlayer>,
    n: int,
    a: Seq<(Option<Seat>, String)>,
    key: Option<Seat>,
)
    requires
        0 <= n <= game.results@.len(),
        assignment_of(game, players, n, a),
    ensures
        (exists|i: int| 0 <= i < a.len() && a[i].0 == key) <==> (exists|j: int|
            0 <= j < n && seat_key(game, j) == key),
{
    if exists|i: int| 0 <= i < a.len() && a[i].0 == key {
        let i = choose|i: int| 0 <= i < a.len() && a[i].0 == key;
        assert(last_with_key(game, a[i].0, n) is Some);
        lemma_last_with_key(game, key, n);
        let j = last_with_key(game, key, n)->0;
        assert(0 <= j < n && seat_key(game, j) == key);
    }
    if exists|j: int| 0 <= j < n && seat_key(game, j) == key {
        let j = choose|j: int| 0 <= j < n && seat_key(game, j) == key;
        assert(exists|i: int| 0 <= i < a.len() && a[i].0 == seat_key(game, j));
    }
}

/// What the dry run makes of one game of the export: a preview of each seat, the seat
/// assignment, and the game's warnings.
pub fn preview_game(store: &LeagueStore, players: &Vec<SourcePlayer>, game: &SourceGame) -> (r: (
    GamePreview,
    Vec<DryRunWarning>,
))
    ensures
        r.0.gid == game.gid,
        (r.0.season_num, r.0.table_num) == description_numbers(game.description@, game.gid as i32),
        r.0.players@.len() == game.results@.len(),
        forall|k: int|
            0 <= k < game.results@.len() ==> seat_preview_of(
                *game,
                players@,
                store@.players,
                k,
                #[trigger] r.0.players@[k],
            ),
        assignment_of(*game, players@, game.results@.len() as int, r.0.seat_assignment@),
        r.1@.map_values(|w: DryRunWarning| w@) == game_warnings(*game, players@),
{
    let gid = game.gid;
    let mut warnings: Vec<DryRunWarning> = Vec::new();
    let mut previews: Vec<SeatPreview> = Vec::new();
    let mut assignment: Vec<(Option<Seat>, String)> = Vec::new();
    let mut k: usize = 0;
    while k < game.results.len()
        invariant
            k <= game.results@.len(),
            gid == game.gid,
            previews@.len() == k,
            forall|j: int|
                0 <= j < k ==> seat_preview_of(
                    *game,
                    players@,
                    store@.players,
                    j,
                    #[trigger] previews@[j],
                ),
            assignment_of(*game, players@, k as int, assignment@),
            warnings@.map_values(|w: DryRunWarning| w@) == results_warnings(*game, players@, k as int),
        decreases game.results@.len() - k,
    {
        let res = &game.results[k];
        let ghost before = warnings@.map_values(|w: DryRunWarning| w@);
        let name = preview_name_of(players, res.player);
        let ghost mut added: Seq<WarningView> = Seq::empty();
        if !in_roster(players, res.player) {
            warnings.push(DryRunWarning::UnknownPlayer { gid, pid: res.player });
            proof {
                added = added.push(WarningView::UnknownPlayer { gid, pid: res.player });
            }
        }
        let seat = normalize_seat(res.seat.as_str());
        if seat.is_none() {
            warnings.push(
                DryRunWarning::UnrecognizedSeat { gid, player: name.clone(), seat: res.seat.clone() },
            );
            proof {
                added = added.push(
                    WarningView::UnrecognizedSeat { gid, player: name@, seat: res.seat@ },
                );
            }
        }
        proof {
            lemma_assignment_has(*game, players@, k as int, assignment@, seat);
            lemma_last_with_key(*game, seat, k as int);
            lemma_last_with_key(*game, seat, k as int + 1);
        }
        let ghost old_assignment = assignment@;
        match assignment_index(&assignment, seat) {
            Some(i) => {
                warnings.push(DryRunWarning::DuplicateSeat { gid, seat });
                proof {
                    added = added.push(WarningView::DuplicateSeat { gid, seat });
                }
                assignment.set(i, (seat, name.clone()));
                proof {
                    assert(assignment@ == old_assignment.update(i as int, (seat, name)));
                }
            },
            None => {
                assignment.push((seat, name.clone()));
            },
        }
        proof {
            assert(added =~= result_warnings(*game, players@, k as int));
            assert(warnings@.map_values(|w: DryRunWarning| w@) =~= before + added);
            let a = assignment@;
            let kk = k as int + 1;
            assert forall|i: int| 0 <= i < a.len() implies last_with_key(
                *game,
                #[trigger] a[i].0,
                kk,
            ) is Some && a[i].1@ == preview_name(
                players@,
                game.results@[last_with_key(*game, a[i].0, kk)->0].player,
            ) by {
                if a[i].0 != seat {
                    assert(a[i] == old_assignment[i]);
                    assert(exists|i2: int| 0 <= i2 < old_assignment.len() && old_assignment[i2].0 == a[i].0);
                }
            }
            assert forall|j: int| 0 <= j < kk implies exists|i: int|
                0 <= i < a.len() && a[i].0 == #[trigger] seat_key(*game, j) by {
                if j < k {
                    let i0 = choose|i0: int|
                        0 <= i0 < old_assignment.len() && old_assignment[i0].0 == seat_key(*game, j);
                    assert(a[i0].0 == seat_key(*game, j));
                } else {
                    if let Some(i) = assignment_index_ghost(old_assignment, seat) {
                        assert(a[i].0 == seat);
                    } else {
                        assert(a[old_assignment.len() as int].0 == seat);
                    }
                }
            }
        }
        let is_new_player = store.find_player_by_name(&name).is_none();
        proof {
            if is_new_player {
                assert(!exists|i: int| first_named(store@.players, name@, i));
            } else {
                let f = choose|f: int| 0 <= f < store@.players.len() && store@.players[f].name == name@;
                assert(exists|i: int| first_named(store@.players, name@, i)) by {
                    let i0 = choose|i0: int|
                        0 <= i0 < store@.players.len() && store@.players[i0].name == name@ && forall|
                            m: int,
                        | 0 <= m < i0 ==> store@.players[m].name != name@;
                    assert(first_named(store@.players, name@, i0));
                }
            }
        }
        previews.push(
            SeatPreview {
                name,
                seat,
                raw_seat: res.seat.clone(),
                score: res.result,
                position: match res.position {
                    Some(v) => v,
                    None => 0,
                },
                uma: match res.uma {
                    Some(v) => v,
                    None => Points::zero(),
                },
                penalty: match res.penalty {
                    Some(v) => v,
                    None => Points::zero(),
                },
                total: match res.total {
                    Some(v) => v,
                    None => Points::zero(),
                },
                is_new_player,
            },
        );
        k = k + 1;
    }
    let n = game.results.len();
    let ghost body = warnings@.map_values(|w: DryRunWarning| w@);
    if n != 4 {
        warnings.push(DryRunWarning::WrongPlayerCount { gid, count: n });
    }
    let ghost with_count = warnings@.map_values(|w: DryRunWarning| w@);
    proof {
        lemma_assignment_has(*game, players@, n as int, assignment@, Some(Seat::East));
        lemma_assignment_has(*game, players@, n as int, assignment@, Some(Seat::South));
        lemma_assignment_has(*game, players@, n as int, assignment@, Some(Seat::West));
        lemma_assignment_has(*game, players@, n as int, assignment@, Some(Seat::North));
    }
    if assignment_index(&assignment, Some(Seat::East)).is_none() {
        warnings.push(DryRunWarning::MissingSeat { gid, seat: Seat::East });
    }
    let ghost w1 = warnings@.map_values(|w: DryRunWarning| w@);
    if assignment_index(&assignment, Some(Seat::South)).is_none() {
        warnings.push(DryRunWarning::MissingSeat { gid, seat: Seat::South });
    }
    let ghost w2 = warnings@.map_values(|w: DryRunWarning| w@);
    if assignment_index(&assignment, Some(Seat::West)).is_none() {
        warnings.push(DryRunWarning::MissingSeat { gid, seat: Seat::West });
    }
    let ghost w3 = warnings@.map_values(|w: DryRunWarning| w@);
    if assignment_index(&assignment, Some(Seat::North)).is_none() {
        warnings.push(DryRunWarning::MissingSeat { gid, seat: Seat::North });
    }
    proof {
        let missing = |s: Seat|
            if seat_taken(*game, s) {
                Seq::<WarningView>::empty()
            } else {
                seq![WarningView::MissingSeat { gid: game.gid, seat: s }]
            };
        assert(with_count =~= body + (if n != 4 {
            seq![WarningView::WrongPlayerCount { gid: game.gid, count: n as int }]
        } else {
            Seq::empty()
        }));
        assert(w1 =~= with_count + missing(Seat::East));
        assert(w2 =~= w1 + missing(Seat::South));
        assert(w3 =~= w2 + missing(Seat::West));
        assert(warnings@.map_values(|w: DryRunWarning| w@) =~= w3 + missing(Seat::North));
        assert(warnings@.map_values(|w: DryRunWarning| w@) =~= game_warnings(*game, players@));
    }
    let (season_num, table_num) = parse_season_table(game.description.as_str(), gid as i32);
    (GamePreview { gid, season_num, table_num, players: previews, seat_assignment: assignment }, warnings)
}

spec fn assignment_index_ghost(a: Seq<(Option<Seat>, String)>, key: Option<Seat>) -> Option<int> {
    if exists|i: int| 0 <= i < a.len() && a[i].0 == key {
        Some(choose|i: int| 0 <= i < a.len() && a[i].0 == key)
    } else {
        None
    }
}

/// The preview of a game, as [`preview_game`] makes it.
pub open spec fn game_preview_of(
    game: SourceGame,
    players: Seq<SourcePlayer>,
    stored: Seq<PlayerRow>,
    p: GamePreview,
) -> bool {
    &&& p.gid == game.gid
    &&& (p.season_num, p.table_num) == description_numbers(game.description@, game.gid as i32)
    &&& p.players@.len() == game.results@.len()
    &&& forall|k: int|
        0 <= k < game.results@.len() ==> seat_preview_of(
            game,
            players,
            stored,
            k,
            #[trigger] p.players@[k],
        )
    &&& assignment_of(game, players, game.results@.len() as int, p.seat_assignment@)
}

/// The warnings of the first `n` games, in order.
pub open spec fn all_warnings(games: Seq<SourceGame>, players: Seq<SourcePlayer>, n: int) -> Seq<
    WarningView,
>
    decreases n,
{
    if n <= 0 {
        Seq::empty()
    } else {
        all_warnings(games, players, n - 1) + game_warnings(games[n - 1], players)
    }
}

/// The season of a game of the export.
pub open spec fn season_of(game: SourceGame) -> i32 {
    description_numbers(game.description@, game.gid as i32).0
}

/// How many of the first `n` games fall in `season`.
pub open spec fn season_count(games: Seq<SourceGame>, season: i32, n: int) -> nat
    decreases n,
{
    if n <= 0 {
        0
    } else {
        season_count(games, season, n - 1) + if season_of(games[n - 1]) == season {
            1nat
        } else {
            0nat
        }
    }
}

/// The name seat `i` of game `g` shows.
pub open spec fn seat_name(games: Seq<SourceGame>, players: Seq<SourcePlayer>, g: int, i: int) -> Seq<char> {
    preview_name(players, games[g].results@[i].player)
}

/// Some seat among the first `n` games, or the first `j` seats of game `n`, shows `name`.
pub open spec fn name_used(
    games: Seq<SourceGame>,
    players: Seq<SourcePlayer>,
    n: int,
    j: int,
    name: Seq<char>,
) -> bool {
    ||| exists|g: int, i: int|
        0 <= g < n && 0 <= i < games[g].results@.len() && #[trigger] seat_name(games, players, g, i)
            == name
    ||| (n < games.len() && exists|i: int|
        0 <= i < j && 0 <= i < games[n].results@.len() && #[trigger] seat_name(games, players, n, i) == name)
}

pub open spec fn distinct_names(names: Seq<String>) -> bool {
    forall|i: int, j: int| 0 <= i < j < names.len() ==> #[trigger] names[i]@ != #[trigger] names[j]@
}

pub open spec fn listed(names: Seq<String>, name: Seq<char>) -> bool {
    exists|m: int| 0 <= m < names.len() && names[m]@ == name
}

fn contains_name(names: &Vec<String>, name: &String) -> (r: bool)
    ensures
        r == listed(names@, name@),
{
    let mut i: usize = 0;
    while i < names.len()
        invariant
            i <= names@.len(),
            forall|m: int| 0 <= m < i ==> names@[m]@ != name@,
        decreases names@.len() - i,
    {
        if names[i] == *name {
            return true;
        }
        i = i + 1;
    }
    false
}

fn season_index(seasons: &Vec<SeasonCount>, season: i32) -> (r: Option<usize>)
    ensures
        match r {
            Some(i) => i < seasons@.len() && seasons@[i as int].season_num == season,
            None => forall|m: int| 0 <= m < seasons@.len() ==> seasons@[m].season_num != season,
        },
{
    let mut i: usize = 0;
    while i < seasons.len()
        invariant
            i <= seasons@.len(),
            forall|m: int| 0 <= m < i ==> seasons@[m].season_num != season,
        decreases seasons@.len() - i,
    {
        if seasons[i].season_num == season {
            return Some(i);
        }
        i = i + 1;
    }
    None
}

/// The names listed so far: those of all seats of the first `k` games and of the first
/// `j` seats of game `k`, each once; `new_players` those of them no stored player has.
pub open spec fn names_listed(
    games: Seq<SourceGame>,
    players: Seq<SourcePlayer>,
    stored: Seq<PlayerRow>,
    k: int,
    j: int,
    all_players: Seq<String>,
    new_players: Seq<String>,
) -> bool {
    &&& distinct_names(all_players)
    &&& forall|m: int|
        0 <= m < all_players.len() ==> name_used(games, players, k, j, #[trigger] all_players[m]@)
    &&& forall|g: int, i: int|
        0 <= g < k && 0 <= i < games[g].results@.len() ==> listed(
            all_players,
            #[trigger] seat_name(games, players, g, i),
        )
    &&& forall|i: int|
        0 <= i < j && 0 <= i < games[k].results@.len() ==> listed(
            all_players,
            #[trigger] seat_name(games, players, k, i),
        )
    &&& distinct_names(new_players)
    &&& forall|m: int|
        0 <= m < new_players.len() ==> name_used(games, players, k, j, #[trigger] new_players[m]@)
            && id_for_name(stored, new_players[m]@) is None
    &&& forall|g: int, i: int|
        0 <= g < k && 0 <= i < games[g].results@.len() && id_for_name(
            stored,
            seat_name(games, players, g, i),
        ) is None ==> listed(new_players, #[trigger] seat_name(games, players, g, i))
    &&& forall|i: int|
        0 <= i < j && 0 <= i < games[k].results@.len() && id_for_name(
            stored,
            seat_name(games, players, k, i),
        ) is None ==> listed(new_players, #[trigger] seat_name(games, players, k, i))
}

proof fn lemma_next_game(
    games: Seq<SourceGame>,
    players: Seq<SourcePlayer>,
    stored: Seq<PlayerRow>,
    k: int,
    all_players: Seq<String>,
    new_players: Seq<String>,
)
    requires
        0 <= k < games.len(),
        names_listed(games, players, stored, k, games[k].results@.len() as int, all_players, new_players),
    ensures
        names_listed(games, players, stored, k + 1, 0, all_players, new_players),
{
    let n = games[k].results@.len() as int;
    assert forall|x: Seq<char>| name_used(games, players, k, n, x) implies name_used(
        games,
        players,
        k + 1,
        0,
        x,
    ) by {
        if exists|g: int, i: int|
            0 <= g < k && 0 <= i < games[g].results@.len() && #[trigger] seat_name(games, players, g, i)
                == x {
            let (g, i) = choose|g: int, i: int|
                0 <= g < k && 0 <= i < games[g].results@.len() && #[trigger] seat_name(
                    games,
                    players,
                    g,
                    i,
                ) == x;
            assert(seat_name(games, players, g, i) == x);
        } else {
            let i = choose|i: int|
                0 <= i < n && 0 <= i < games[k].results@.len() && #[trigger] seat_name(
                    games,
                    players,
                    k,
                    i,
                ) == x;
            assert(seat_name(games, players, k, i) == x);
        }
    }
    assert forall|m: int| 0 <= m < all_players.len() implies name_used(
        games,
        players,
        k + 1,
        0,
        #[trigger] all_players[m]@,
    ) by {
        assert(name_used(games, players, k, n, all_players[m]@));
    }
    assert forall|m: int| 0 <= m < new_players.len() implies name_used(
        games,
        players,
        k + 1,
        0,
        #[trigger] new_players[m]@,
    ) by {
        assert(name_used(games, players, k, n, new_players[m]@));
    }
    assert forall|g: int, i: int| 0 <= g < k + 1 && 0 <= i < games[g].results@.len() implies listed(
        all_players,
        #[trigger] seat_name(games, players, g, i),
    ) by {
        if g == k {
            assert(listed(all_players, seat_name(games, players, k, i)));
        }
    }
    assert forall|g: int, i: int|
        0 <= g < k + 1 && 0 <= i < games[g].results@.len() && id_for_name(
            stored,
            seat_name(games, players, g, i),
        ) is None implies listed(new_players, #[trigger] seat_name(games, players, g, i)) by {
        if g == k {
            assert(listed(new_players, seat_name(games, players, k, i)));
        }
    }
}

/// The dry run over the bulk export. Nothing is written: the store is only read.
pub fn dry_run(store: &LeagueStore, players: &Vec<SourcePlayer>, games: &Vec<SourceGame>) -> (r:
    DryRunReport)
    ensures
        r.total_games == games@.len(),
        r.games@.len() == games@.len(),
        forall|k: int|
            0 <= k < games@.len() ==> game_preview_of(
                #[trigger] games@[k],
                players@,
                store@.players,
                r.games@[k],
            ),
        r.warnings@.map_values(|w: DryRunWarning| w@) == all_warnings(
            games@,
            players@,
            games@.len() as int,
        ),
        names_listed(
            games@,
            players@,
            store@.players,
            games@.len() as int,
            0,
            r.all_players@,
            r.new_players@,
        ),
        forall|i: int, j: int|
            0 <= i < j < r.seasons@.len() ==> #[trigger] r.seasons@[i].season_num
                != #[trigger] r.seasons@[j].season_num,
        forall|i: int|
            0 <= i < r.seasons@.len() ==> #[trigger] r.seasons@[i].games as nat == season_count(
                games@,
                r.seasons@[i].season_num,
                games@.len() as int,
            ),
        forall|k: int|
            0 <= k < games@.len() ==> exists|i: int|
                0 <= i < r.seasons@.len() && r.seasons@[i].season_num == season_of(
                    #[trigger] games@[k],
                ),
{
    let mut previews: Vec<GamePreview> = Vec::new();
    let mut warnings: Vec<DryRunWarning> = Vec::new();
    let mut all_players: Vec<String> = Vec::new();
    let mut new_players: Vec<String> = Vec::new();
    let mut seasons: Vec<SeasonCount> = Vec::new();
    let mut k: usize = 0;
    while k < games.len()
        invariant
            k <= games@.len(),
            previews@.len() == k,
            forall|g: int|
                0 <= g < k ==> game_preview_of(
                    #[trigger] games@[g],
                    players@,
                    store@.players,
                    previews@[g],
                ),
            warnings@.map_values(|w: DryRunWarning| w@) == all_warnings(games@, players@, k as int),
            names_listed(games@, players@, store@.players, k as int, 0, all_players@, new_players@),
            forall|i: int, j: int|
                0 <= i < j < seasons@.len() ==> #[trigger] seasons@[i].season_num
                    != #[trigger] seasons@[j].season_num,
            forall|i: int|
                0 <= i < seasons@.len() ==> #[trigger] seasons@[i].games as nat == season_count(
                    games@,
                    seasons@[i].season_num,
                    k as int,
                ) && seasons@[i].games <= k,
            forall|g: int|
                0 <= g < k ==> exists|i: int|
                    0 <= i < seasons@.len() && seasons@[i].season_num == season_of(
                        #[trigger] games@[g],
                    ),
        decreases games@.len() - k,
    {
        let game = &games[k];
        let (preview, game_warnings) = preview_game(store, players, game);
        let ghost before_warnings = warnings@.map_values(|w: DryRunWarning| w@);
        let mut moved = game_warnings;
        let ghost added = moved@.map_values(|w: DryRunWarning| w@);
        warnings.append(&mut moved);
        assert(warnings@.map_values(|w: DryRunWarning| w@) =~= before_warnings + added);
        let mut j: usize = 0;
        while j < preview.players.len()
            invariant
                k < games@.len(),
                j <= preview.players@.len(),
                game_preview_of(games@[k as int], players@, store@.players, preview),
                names_listed(games@, players@, store@.players, k as int, j as int, all_players@, new_players@),
            decreases preview.players@.len() - j,
        {
            let seat = &preview.players[j];
            assert(seat_preview_of(games@[k as int], players@, store@.players, j as int, *seat));
            assert(seat.name@ == seat_name(games@, players@, k as int, j as int));
            let ghost old_all = all_players@;
            let ghost old_new = new_players@;
            if !contains_name(&all_players, &seat.name) {
                all_players.push(seat.name.clone());
                assert(all_players@[old_all.len() as int]@ == seat.name@);
            }
            if seat.is_new_player && !contains_name(&new_players, &seat.name) {
                new_players.push(seat.name.clone());
                assert(new_players@[old_new.len() as int]@ == seat.name@);
            }
            proof {
                let x = seat_name(games@, players@, k as int, j as int);
                assert(listed(all_players@, x));
                assert(name_used(games@, players@, k as int, j + 1, x));
                assert forall|y: Seq<char>| name_used(games@, players@, k as int, j as int, y)
                    implies name_used(games@, players@, k as int, j + 1, y) by {
                    if !(exists|g: int, i: int|
                        0 <= g < k && 0 <= i < games@[g].results@.len() && #[trigger] seat_name(
                            games@,
                            players@,
                            g,
                            i,
                        ) == y) {
                        let i = choose|i: int|
                            0 <= i < j && 0 <= i < games@[k as int].results@.len() && #[trigger] seat_name(
                                games@,
                                players@,
                                k as int,
                                i,
                            ) == y;
                        assert(seat_name(games@, players@, k as int, i) == y);
                    }
                }
                assert forall|g: int, i: int| 0 <= g < k && 0 <= i < games@[g].results@.len() implies listed(
                    all_players@,
                    #[trigger] seat_name(games@, players@, g, i),
                ) by {
                    assert(listed(old_all, seat_name(games@, players@, g, i)));
                    let m = choose|m: int| 0 <= m < old_all.len() && old_all[m]@ == seat_name(games@, players@, g, i);
                    assert(all_players@[m] == old_all[m]);
                }
                assert forall|i: int| 0 <= i < j + 1 && 0 <= i < games@[k as int].results@.len() implies listed(
                    all_players@,
                    #[trigger] seat_name(games@, players@, k as int, i),
                ) by {
                    if i < j {
                        assert(listed(old_all, seat_name(games@, players@, k as int, i)));
                        let m = choose|m: int| 0 <= m < old_all.len() && old_all[m]@ == seat_name(games@, players@, k as int, i);
                        assert(all_players@[m] == old_all[m]);
                    }
                }
                assert forall|g: int, i: int|
                    0 <= g < k && 0 <= i < games@[g].results@.len() && id_for_name(
                        store@.players,
                        seat_name(games@, players@, g, i),
                    ) is None implies listed(new_players@, #[trigger] seat_name(games@, players@, g, i)) by {
                    assert(listed(old_new, seat_name(games@, players@, g, i)));
                    let m = choose|m: int| 0 <= m < old_new.len() && old_new[m]@ == seat_name(games@, players@, g, i);
                    assert(new_players@[m] == old_new[m]);
                }
                assert forall|i: int|
                    0 <= i < j + 1 && 0 <= i < games@[k as int].results@.len() && id_for_name(
                        store@.players,
                        seat_name(games@, players@, k as int, i),
                    ) is None implies listed(new_players@, #[trigger] seat_name(games@, players@, k as int, i)) by {
                    if i < j {
                        assert(listed(old_new, seat_name(games@, players@, k as int, i)));
                        let m = choose|m: int| 0 <= m < old_new.len() && old_new[m]@ == seat_name(games@, players@, k as int, i);
                        assert(new_players@[m] == old_new[m]);
                    }
                }
                assert forall|m: int| 0 <= m < all_players@.len() implies name_used(
                    games@,
                    players@,
                    k as int,
                    j + 1,
                    #[trigger] all_players@[m]@,
                ) by {
                    if m < old_all.len() {
                        assert(all_players@[m] == old_all[m]);
                    }
                }
                assert forall|m: int| 0 <= m < new_players@.len() implies name_used(
                    games@,
                    players@,
                    k as int,
                    j + 1,
                    #[trigger] new_players@[m]@,
                ) && id_for_name(store@.players, new_players@[m]@) is None by {
                    if m < old_new.len() {
                        assert(new_players@[m] == old_new[m]);
                    }
                }
            }
            j = j + 1;
        }
        proof {
            lemma_next_game(games@, players@, store@.players, k as int, all_players@, new_players@);
        }
        let season = preview.season_num;
        let ghost old_seasons = seasons@;
        let slot = season_index(&seasons, season);
        let ghost at: int = match slot {
            Some(i) => i as int,
            None => old_seasons.len() as int,
        };
        match slot {
            Some(i) => {
                let entry = seasons[i];
                seasons.set(i, SeasonCount { season_num: season, games: entry.games + 1 });
            },
            None => {
                seasons.push(SeasonCount { season_num: season, games: 1 });
            },
        }
        proof {
            assert(seasons@[at].season_num == season_of(games@[k as int]));
            assert forall|m: int| 0 <= m < seasons@.len() implies #[trigger] seasons@[m].games as nat
                == season_count(games@, seasons@[m].season_num, k + 1) && seasons@[m].games <= k
                + 1 by {
                if m < old_seasons.len() {
                    assert(old_seasons[m].games as nat == season_count(
                        games@,
                        old_seasons[m].season_num,
                        k as int,
                    ));
                } else {
                    assert(season_count(games@, season, k as int) == 0) by {
                        lemma_season_count_absent(games@, season, k as int);
                    }
                }
            }
            assert forall|g: int| 0 <= g < k + 1 implies exists|m: int|
                0 <= m < seasons@.len() && seasons@[m].season_num == season_of(
                    #[trigger] games@[g],
                ) by {
                if g < k {
                    let m = choose|m: int|
                        0 <= m < old_seasons.len() && old_seasons[m].season_num == season_of(
                            games@[g],
                        );
                    assert(seasons@[m].season_num == season_of(games@[g]));
                } else {
                    assert(seasons@[at].season_num == season_of(games@[g]));
                }
            }
        }
        previews.push(preview);
        k = k + 1;
    }
    let ghost season_list = seasons@;
    let r = DryRunReport {
        total_games: games.len(),
        all_players,
        new_players,
        warnings,
        seasons,
        games: previews,
    };
    assert forall|g: int| 0 <= g < games@.len() implies exists|i: int|
        0 <= i < r.seasons@.len() && r.seasons@[i].season_num == season_of(
            #[trigger] games@[g],
        ) by {
        let m = choose|m: int|
            0 <= m < season_list.len() && season_list[m].season_num == season_of(games@[g]);
        assert(r.seasons@[m].season_num == season_of(games@[g]));
    }
    r
}

proof fn lemma_season_count_absent(games: Seq<SourceGame>, season: i32, n: int)
    requires
        forall|g: int| 0 <= g < n ==> season_of(#[trigger] games[g]) != season,
    ensures
        season_count(games, season, n) == 0,
    decreases n,
{
    if n > 0 {
        lemma_season_count_absent(games, season, n - 1);
    }
}

} // verus!
