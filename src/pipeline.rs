//! One record through the pipeline: identity resolution of its names, then the seat
//! entries that the reconciliation engine upserts.

use vstd::prelude::*;
use crate::identity::{first_named, id_for_name, lemma_first_named_unique, name_resolved, resolve_player};
use crate::model::{GameInfo, PlayerResult};
use crate::reconcile::{reconcile_record, reconciled, GameUpsert, ResolvedRecord, SeatEntry};
use crate::seat::{normalize_seat, normalized_seat};
use crate::store::{LeagueStore, PlayerRow, StoreError, StoreView};

verus! {

/// The entry a seat of a record gives: its label must name a seat and its player must
/// have an id; otherwise the seat is skipped.
pub open spec fn entry_of(row: PlayerResult, players: Seq<PlayerRow>) -> Option<SeatEntry> {
    match (normalized_seat(row.seat@), id_for_name(players, row.player_name@)) {
        (Some(seat), Some(player_id)) => Some(
            SeatEntry {
                seat,
                player_id,
                score: row.score,
                position: row.position,
                uma: row.uma,
                penalty: row.penalty,
                total: row.total,
            },
        ),
        _ => None,
    }
}

/// The entries of all seats of a record, in order.
pub open spec fn entries_of(rows: Seq<PlayerResult>, players: Seq<PlayerRow>) -> Seq<SeatEntry>
    decreases rows.len(),
{
    if rows.len() == 0 {
        Seq::empty()
    } else {
        let rest = entries_of(rows.drop_last(), players);
        match entry_of(rows.last(), players) {
            Some(e) => rest.push(e),
            None => rest,
        }
    }
}

/// The record the engine upserts for `info`, its names looked up in `players`.
pub open spec fn resolved_view(info: GameInfo, players: Seq<PlayerRow>, rec: ResolvedRecord) -> bool {
    &&& rec.season_num == info.season_num
    &&& rec.table_num == info.table_num
    &&& rec.game_time == info.registered
    &&& rec.processed == info.processed
    &&& rec.entries@ == entries_of(info.player_results@, players)
}

/// The record the engine upserts for `info`: one entry per seat whose label names a seat
/// and whose player is stored.
pub fn resolve_seats(store: &LeagueStore, info: &GameInfo) -> (r: ResolvedRecord)
    ensures
        resolved_view(*info, store@.players, r),
{
    let mut entries: Vec<SeatEntry> = Vec::new();
    let mut k: usize = 0;
    while k < info.player_results.len()
        invariant
            k <= info.player_results@.len(),
            entries@ == entries_of(info.player_results@.take(k as int), store@.players),
        decreases info.player_results@.len() - k,
    {
        let row = &info.player_results[k];
        assert(info.player_results@.take(k + 1).drop_last() =~= info.player_results@.take(
            k as int,
        ));
        let seat = normalize_seat(row.seat.as_str());
        let found = store.find_player_by_name(&row.player_name);
        proof {
            if let Some(i) = found {
                let c = choose|c: int| first_named(store@.players, row.player_name@, c);
                assert(first_named(store@.players, row.player_name@, i as int));
                lemma_first_named_unique(store@.players, row.player_name@, i as int, c);
            } else {
                assert(!exists|i: int| first_named(store@.players, row.player_name@, i));
            }
        }
        if let (Some(seat), Some(i)) = (seat, found) {
            entries.push(
                SeatEntry {
                    seat,
                    player_id: store.player_id_at(i),
                    score: row.score,
                    position: row.position,
                    uma: row.uma,
                    penalty: row.penalty,
                    total: row.total,
                },
            );
        }
        k = k + 1;
    }
    assert(info.player_results@.take(info.player_results@.len() as int) =~= info.player_results@);
    ResolvedRecord {
        season_num: info.season_num,
        table_num: info.table_num,
        game_time: info.registered,
        processed: info.processed,
        entries,
    }
}

/// The store after each name of `rows` was resolved in turn, by name alone.
pub open spec fn names_resolved(old: StoreView, new: StoreView, rows: Seq<PlayerResult>) -> bool
    decreases rows.len(),
{
    if rows.len() == 0 {
        new == old
    } else {
        exists|mid: StoreView, r: Result<i32, StoreError>|
            names_resolved(old, mid, rows.drop_last()) && #[trigger] name_resolved(
                mid,
                new,
                rows.last().player_name@,
                r,
            )
    }
}

/// Resolves every name of a record by name alone, creating the players that are new.
/// Returns how many names could not be given an id.
pub fn resolve_names(store: &mut LeagueStore, info: &GameInfo) -> (failures: usize)
    requires
        old(store)@.well_formed(),
    ensures
        final(store)@.well_formed(),
        names_resolved(old(store)@, final(store)@, info.player_results@),
        failures <= info.player_results@.len(),
        old(store)@.next_player_id + info.player_results@.len() <= i32::MAX + 1 ==> failures == 0,
{
    let mut failures: usize = 0;
    let mut k: usize = 0;
    while k < info.player_results.len()
        invariant
            k <= info.player_results@.len(),
            failures <= k,
            store@.well_formed(),
            names_resolved(old(store)@, store@, info.player_results@.take(k as int)),
            store@.next_player_id <= old(store)@.next_player_id + k,
            old(store)@.next_player_id + info.player_results@.len() <= i32::MAX + 1 ==> failures == 0,
        decreases info.player_results@.len() - k,
    {
        let ghost before = store@;
        let r = resolve_player(store, &info.player_results[k].player_name);
        if r.is_err() {
            failures = failures + 1;
        }
        proof {
            let rows = info.player_results@.take(k + 1);
            assert(rows.drop_last() =~= info.player_results@.take(k as int));
            assert(name_resolved(before, store@, rows.last().player_name@, r));
        }
        k = k + 1;
    }
    assert(info.player_results@.take(info.player_results@.len() as int) =~= info.player_results@);
    failures
}

/// Runs one record of a source without player ids through the pipeline: its names are
/// resolved, then its game and results are reconciled with the store.
pub fn sync_record(store: &mut LeagueStore, info: &GameInfo) -> (r: Result<GameUpsert, StoreError>)
    requires
        old(store)@.well_formed(),
    ensures
        final(store)@.well_formed(),
        exists|mid: StoreView, rec: ResolvedRecord|
            names_resolved(old(store)@, mid, info.player_results@) && mid.well_formed()
                && resolved_view(*info, mid.players, rec) && reconciled(mid, final(store)@, rec, r),
{
    resolve_names(store, info);
    let ghost mid = store@;
    let rec = resolve_seats(store, info);
    let r = reconcile_record(store, &rec);
    assert(names_resolved(old(store)@, mid, info.player_results@) && mid.well_formed()
        && resolved_view(*info, mid.players, rec) && reconciled(mid, store@, rec, r));
    r
}

} // verus!
