//! The reconciliation engine: upserts one resolved match record into the store.
//!
//! A game is found by its natural key `(season_num, table_num)`; when it exists it is
//! overwritten in place under its surrogate id, otherwise it is created. Then every seat
//! with a resolved player is upserted as a result keyed by `(game id, player id)`.
//! Seats whose player could not be resolved carry no entry and are skipped; nothing is
//! ever deleted, so a result of a player who left the lineup stays in place.

use vstd::prelude::*;
use crate::model::{LeagueGame, LeagueResult, Points, Timestamp};
use crate::seat::Seat;
use crate::store::{
    has_game_key, has_result_key, same_game_key, same_result_key, LeagueStore, StoreError,
    StoreView,
};

verus! {

/// One seat of a record whose player has been resolved to an id.
#[derive(Clone, Copy, Debug, PartialEq, Eq, Structural)]
pub struct SeatEntry {
    pub seat: Seat,
    pub player_id: i32,
    pub score: Points,
    pub position: i32,
    pub uma: Points,
    pub penalty: Points,
    pub total: Points,
}

/// A match record whose players have been resolved: what the engine upserts.
#[derive(Debug)]
pub struct ResolvedRecord {
    pub season_num: i32,
    pub table_num: i32,
    pub game_time: Option<Timestamp>,
    pub processed: bool,
    pub entries: Vec<SeatEntry>,
}

/// How the game of a record was saved.
#[derive(Clone, Copy, Debug, PartialEq, Eq, Structural)]
pub struct GameUpsert {
    pub game_id: i32,
    /// The game was new and has been created; otherwise an existing one was overwritten.
    pub created: bool,
}

/// The player of the last entry for `seat`, or `0` when no entry has that seat.
pub open spec fn seat_player(entries: Seq<SeatEntry>, seat: Seat) -> i32
    decreases entries.len(),
{
    if entries.len() == 0 {
        0
    } else if entries.last().seat == seat {
        entries.last().player_id
    } else {
        seat_player(entries.drop_last(), seat)
    }
}

/// The last entry for `player_id`, if any.
pub open spec fn last_entry_for(entries: Seq<SeatEntry>, player_id: i32) -> Option<SeatEntry>
    decreases entries.len(),
{
    if entries.len() == 0 {
        None
    } else if entries.last().player_id == player_id {
        Some(entries.last())
    } else {
        last_entry_for(entries.drop_last(), player_id)
    }
}

/// The game row a record describes, under surrogate id `id`.
pub open spec fn planned_game(rec: ResolvedRecord, id: i32) -> LeagueGame {
    LeagueGame {
        game_time: rec.game_time,
        season_num: rec.season_num,
        table_num: rec.table_num,
        processed: rec.processed,
        id,
        e: seat_player(rec.entries@, Seat::East),
        s: seat_player(rec.entries@, Seat::South),
        w: seat_player(rec.entries@, Seat::West),
        n: seat_player(rec.entries@, Seat::North),
    }
}

/// The result row holds the points and the position of the entry.
pub open spec fn carries(r: LeagueResult, e: SeatEntry) -> bool {
    &&& r.result == e.score
    &&& r.position == e.position
    &&& r.uma == e.uma
    &&& r.penalty == e.penalty
    &&& r.total == e.total
}

/// The store has ids left for one new game and one new result per entry.
pub open spec fn has_room(v: StoreView, entries: int) -> bool {
    v.next_game_id <= i32::MAX && v.next_result_id + entries <= i32::MAX + 1
}

/// The game table after the record's game was upserted as `u` says.
pub open spec fn game_upserted(old: StoreView, new: StoreView, rec: ResolvedRecord, u: GameUpsert) -> bool {
    if has_game_key(old, rec.season_num, rec.table_num) {
        &&& !u.created
        &&& exists|i: int|
            0 <= i < old.games.len() && same_game_key(old.games[i], rec.season_num, rec.table_num)
                && old.games[i].id == u.game_id && new.games == old.games.update(
                i,
                planned_game(rec, u.game_id),
            )
        &&& new.next_game_id == old.next_game_id
    } else {
        &&& u.created
        &&& u.game_id == old.next_game_id
        &&& new.games == old.games.push(planned_game(rec, u.game_id))
        &&& new.next_game_id == old.next_game_id + 1
    }
}

/// The result table after every entry was upserted under game `game_id`: each entry's
/// player has exactly the row `(game_id, player)`, holding the last entry for that player;
/// rows of other keys are untouched; rows are only added for keys that were missing, under
/// consecutive fresh ids.
pub open spec fn results_upserted(
    old: StoreView,
    new: StoreView,
    game_id: i32,
    entries: Seq<SeatEntry>,
) -> bool {
    &&& old.results.len() <= new.results.len()
    &&& forall|i: int|
        0 <= i < old.results.len() ==> #[trigger] new.results[i].id == old.results[i].id
            && new.results[i].table_id == old.results[i].table_id && new.results[i].player_id
            == old.results[i].player_id
    &&& forall|i: int|
        0 <= i < old.results.len() && (old.results[i].table_id != game_id || last_entry_for(
            entries,
            old.results[i].player_id,
        ) is None) ==> #[trigger] new.results[i] == old.results[i]
    &&& forall|i: int|
        0 <= i < new.results.len() && new.results[i].table_id == game_id && last_entry_for(
            entries,
            new.results[i].player_id,
        ) is Some ==> carries(
            #[trigger] new.results[i],
            last_entry_for(entries, new.results[i].player_id)->0,
        )
    &&& forall|i: int|
        old.results.len() <= i < new.results.len() ==> (#[trigger] new.results[i]).table_id
            == game_id && last_entry_for(entries, new.results[i].player_id) is Some
            && new.results[i].id == old.next_result_id + (i - old.results.len())
    &&& forall|k: int|
        0 <= k < entries.len() ==> has_result_key(new, game_id, #[trigger] entries[k].player_id)
    &&& (forall|k: int|
        0 <= k < entries.len() ==> has_result_key(old, game_id, #[trigger] entries[k].player_id))
        ==> new.results.len() == old.results.len()
    &&& new.next_result_id == old.next_result_id + new.results.len() - old.results.len()
}

/// What reconciling a record does to the store, given how its game was saved.
pub open spec fn reconciled(
    old: StoreView,
    new: StoreView,
    rec: ResolvedRecord,
    r: Result<GameUpsert, StoreError>,
) -> bool {
    if has_room(old, rec.entries@.len() as int) {
        &&& r is Ok
        &&& new.players == old.players
        &&& new.next_player_id == old.next_player_id
        &&& game_upserted(old, new, rec, r->Ok_0)
        &&& results_upserted(old, new, r->Ok_0.game_id, rec.entries@)
    } else {
        &&& r == Err::<GameUpsert, StoreError>(StoreError::IdsExhausted)
        &&& new == old
    }
}

proof fn lemma_entries_step(entries: Seq<SeatEntry>, k: int)
    requires
        0 <= k < entries.len(),
    ensures
        forall|q: i32|
            #[trigger] last_entry_for(entries.take(k + 1), q) == if entries[k].player_id == q {
                Some(entries[k])
            } else {
                last_entry_for(entries.take(k), q)
            },
        forall|s: Seat|
            #[trigger] seat_player(entries.take(k + 1), s) == if entries[k].seat == s {
                entries[k].player_id
            } else {
                seat_player(entries.take(k), s)
            },
{
    assert(entries.take(k + 1).drop_last() =~= entries.take(k));
}

/// The player id of each seat, from the last entry for it.
fn seat_players(entries: &Vec<SeatEntry>) -> (r: (i32, i32, i32, i32))
    ensures
        r == (
            seat_player(entries@, Seat::East),
            seat_player(entries@, Seat::South),
            seat_player(entries@, Seat::West),
            seat_player(entries@, Seat::North),
        ),
{
    let mut e: i32 = 0;
    let mut s: i32 = 0;
    let mut w: i32 = 0;
    let mut n: i32 = 0;
    let mut k: usize = 0;
    while k < entries.len()
        invariant
            k <= entries@.len(),
            e == seat_player(entries@.take(k as int), Seat::East),
            s == seat_player(entries@.take(k as int), Seat::South),
            w == seat_player(entries@.take(k as int), Seat::West),
            n == seat_player(entries@.take(k as int), Seat::North),
        decreases entries@.len() - k,
    {
        proof {
            lemma_entries_step(entries@, k as int);
        }
        let entry = entries[k];
        match entry.seat {
            Seat::East => e = entry.player_id,
            Seat::South => s = entry.player_id,
            Seat::West => w = entry.player_id,
            Seat::North => n = entry.player_id,
        }
        k = k + 1;
    }
    assert(entries@.take(entries@.len() as int) =~= entries@);
    (e, s, w, n)
}

/// Looks the record's game up by its natural key and overwrites it in place, or creates it.
fn upsert_game(store: &mut LeagueStore, rec: &ResolvedRecord) -> (r: Result<GameUpsert, StoreError>)
    requires
        old(store)@.well_formed(),
        has_room(old(store)@, rec.entries@.len() as int),
    ensures
        final(store)@.well_formed(),
        r is Ok,
        game_upserted(old(store)@, final(store)@, *rec, r->Ok_0),
        final(store)@.players == old(store)@.players,
        final(store)@.results == old(store)@.results,
        final(store)@.next_player_id == old(store)@.next_player_id,
        final(store)@.next_result_id == old(store)@.next_result_id,
{
    let (e, s, w, n) = seat_players(&rec.entries);
    match store.get_game_by_season_and_table(rec.season_num, rec.table_num) {
        Some(existing) => {
            let game = LeagueGame::new(
                rec.game_time,
                rec.season_num,
                rec.table_num,
                rec.processed,
                existing.id,
                e,
                s,
                w,
                n,
            );
            let ghost i = choose|i: int|
                0 <= i < old(store)@.games.len() && old(store)@.games[i] == existing
                    && same_game_key(existing, rec.season_num, rec.table_num);
            assert(forall|j: int|
                0 <= j < old(store)@.games.len() && j != i ==> !same_game_key(
                    #[trigger] old(store)@.games[j],
                    rec.season_num,
                    rec.table_num,
                ));
            let res = store.update_game(&game);
            assert(old(store)@.games[i].id == game.id);
            assert(res is Ok);
            Ok(GameUpsert { game_id: existing.id, created: false })
        },
        None => {
            let game = LeagueGame::new(
                rec.game_time,
                rec.season_num,
                rec.table_num,
                rec.processed,
                0,
                e,
                s,
                w,
                n,
            );
            match store.create_game(&game) {
                Ok(id) => Ok(GameUpsert { game_id: id, created: true }),
                Err(err) => Err(err),
            }
        },
    }
}

/// Upserts one result row per entry under game `game_id`.
fn upsert_results(store: &mut LeagueStore, game_id: i32, entries: &Vec<SeatEntry>)
    requires
        old(store)@.well_formed(),
        old(store)@.next_result_id + entries@.len() <= i32::MAX + 1,
    ensures
        final(store)@.well_formed(),
        results_upserted(old(store)@, final(store)@, game_id, entries@),
        final(store)@.players == old(store)@.players,
        final(store)@.games == old(store)@.games,
        final(store)@.next_player_id == old(store)@.next_player_id,
        final(store)@.next_game_id == old(store)@.next_game_id,
{
    let ghost start = store@;
    let mut k: usize = 0;
    assert(entries@.take(0) =~= Seq::<SeatEntry>::empty());
    while k < entries.len()
        invariant
            k <= entries@.len(),
            start == old(store)@,
            start.well_formed(),
            store@.well_formed(),
            start.next_result_id + entries@.len() <= i32::MAX + 1,
            store@.next_result_id <= start.next_result_id + k,
            results_upserted(start, store@, game_id, entries@.take(k as int)),
            store@.players == start.players,
            store@.games == start.games,
            store@.next_player_id == start.next_player_id,
            store@.next_game_id == start.next_game_id,
        decreases entries@.len() - k,
    {
        let entry = entries[k];
        let ghost before = store@;
        let ghost done = entries@.take(k as int);
        let ghost next = entries@.take(k + 1);
        proof {
            lemma_entries_step(entries@, k as int);
            assert(forall|j: int| 0 <= j < k ==> next[j] == done[j]);
            assert(next[k as int] == entry);
        }
        match store.get_result_by_table_and_player(game_id, entry.player_id) {
            Some(existing) => {
                let updated = LeagueResult {
                    result: entry.score,
                    position: entry.position,
                    uma: entry.uma,
                    penalty: entry.penalty,
                    total: entry.total,
                    ..existing
                };
                let ghost i = choose|i: int|
                    0 <= i < before.results.len() && before.results[i] == existing
                        && same_result_key(existing, game_id, entry.player_id);
                assert(forall|j: int|
                    0 <= j < before.results.len() && j != i ==> !same_result_key(
                        #[trigger] before.results[j],
                        game_id,
                        entry.player_id,
                    ));
                proof {
                    if forall|kk: int|
                        0 <= kk < next.len() ==> has_result_key(
                            start,
                            game_id,
                            #[trigger] next[kk].player_id,
                        ) {
                        assert forall|kk: int| 0 <= kk < done.len() implies has_result_key(
                            start,
                            game_id,
                            #[trigger] done[kk].player_id,
                        ) by {
                            assert(next[kk] == done[kk]);
                            assert(has_result_key(start, game_id, next[kk].player_id));
                        }
                    }
                }
                let res = store.update_result(&updated);
                assert(before.results[i].id == updated.id);
                assert(res is Ok);
                assert(store@.results == before.results.update(i, updated));
                assert(has_result_key(store@, game_id, entry.player_id)) by {
                    assert(same_result_key(store@.results[i], game_id, entry.player_id));
                }
                assert forall|kk: int| 0 <= kk < k + 1 implies has_result_key(
                    store@,
                    game_id,
                    #[trigger] next[kk].player_id,
                ) by {
                    if kk < k {
                        assert(has_result_key(before, game_id, done[kk].player_id));
                        let m = choose|m: int|
                            0 <= m < before.results.len() && same_result_key(
                                before.results[m],
                                game_id,
                                done[kk].player_id,
                            );
                        assert(same_result_key(store@.results[m], game_id, done[kk].player_id));
                    }
                }
            },
            None => {
                let fresh = LeagueResult::new(
                    0,
                    game_id,
                    entry.player_id,
                    entry.score,
                    entry.position,
                    entry.uma,
                    entry.penalty,
                    entry.total,
                );
                proof {
                    if forall|kk: int|
                        0 <= kk < next.len() ==> has_result_key(
                            start,
                            game_id,
                            #[trigger] next[kk].player_id,
                        ) {
                        assert(has_result_key(start, game_id, next[k as int].player_id));
                        let m = choose|m: int|
                            0 <= m < start.results.len() && same_result_key(
                                start.results[m],
                                game_id,
                                entry.player_id,
                            );
                        assert(same_result_key(before.results[m], game_id, entry.player_id));
                        assert(false);
                    }
                }
                let res = store.create_result(&fresh);
                assert(res is Ok);
                let ghost last = before.results.len() as int;
                assert(store@.results == before.results.push(LeagueResult { id: res->Ok_0, ..fresh }));
                assert(has_result_key(store@, game_id, entry.player_id)) by {
                    assert(same_result_key(store@.results[last], game_id, entry.player_id));
                }
                assert forall|kk: int| 0 <= kk < k + 1 implies has_result_key(
                    store@,
                    game_id,
                    #[trigger] next[kk].player_id,
                ) by {
                    if kk < k {
                        assert(has_result_key(before, game_id, done[kk].player_id));
                        let m = choose|m: int|
                            0 <= m < before.results.len() && same_result_key(
                                before.results[m],
                                game_id,
                                done[kk].player_id,
                            );
                        assert(same_result_key(store@.results[m], game_id, done[kk].player_id));
                    }
                }
            },
        }
        k = k + 1;
    }
    assert(entries@.take(entries@.len() as int) =~= entries@);
}

/// Reconciles one resolved record into the store: the game is upserted by its natural
/// key, then one result per entry by `(game id, player id)`. When the store has no ids
/// left for a new game and a new result per entry, nothing is changed.
pub fn reconcile_record(store: &mut LeagueStore, rec: &ResolvedRecord) -> (r: Result<
    GameUpsert,
    StoreError,
>)
    requires
        old(store)@.well_formed(),
    ensures
        final(store)@.well_formed(),
        reconciled(old(store)@, final(store)@, *rec, r),
{
    if store.has_room_for(rec.entries.len()) {
        let upsert = upsert_game(store, rec);
        let u = match upsert {
            Ok(u) => u,
            Err(e) => return Err(e),
        };
        upsert_results(store, u.game_id, &rec.entries);
        Ok(u)
    } else {
        Err(StoreError::IdsExhausted)
    }
}

} // verus!
