//! Properties of reconciliation and identity resolution that hold across calls.

use vstd::prelude::*;
use crate::identity::{first_named, id_for_name, lemma_first_named_unique, name_resolved, roster_synced, source_resolved, IdentityStrategy, RosterChange};
use crate::reconcile::{has_room, planned_game, reconciled, ResolvedRecord, GameUpsert};
use crate::sync::{trigger_outcome, GuardView, SyncProgress};
use crate::store::{has_game_key, has_player_id, has_result_key, same_game_key, same_result_key, PlayerRow, StoreError, StoreView};

verus! {

/// Exactly one result row has the natural key `(table_id, player_id)`.
pub open spec fn exactly_one_result(v: StoreView, table_id: i32, player_id: i32) -> bool {
    &&& has_result_key(v, table_id, player_id)
    &&& forall|i: int, j: int|
        0 <= i < v.results.len() && 0 <= j < v.results.len() && same_result_key(
            #[trigger] v.results[i],
            table_id,
            player_id,
        ) && same_result_key(#[trigger] v.results[j], table_id, player_id) ==> i == j
}

/// In a well-formed store no two games share a season and a table number, and no two
/// results share a game and a player; every store operation keeps the store well-formed.
pub proof fn lemma_natural_keys_unique(v: StoreView)
    requires
        v.well_formed(),
    ensures
        forall|i: int, j: int|
            0 <= i < v.games.len() && 0 <= j < v.games.len() && #[trigger] v.games[i].season_num
                == #[trigger] v.games[j].season_num && v.games[i].table_num == v.games[j].table_num
                ==> i == j,
        forall|i: int, j: int|
            0 <= i < v.results.len() && 0 <= j < v.results.len() && #[trigger] v.results[i].table_id
                == #[trigger] v.results[j].table_id && v.results[i].player_id
                == v.results[j].player_id ==> i == j,
{
    assert forall|i: int, j: int|
        0 <= i < v.games.len() && 0 <= j < v.games.len() && #[trigger] v.games[i].season_num
            == #[trigger] v.games[j].season_num && v.games[i].table_num
            == v.games[j].table_num implies i == j by {
        assert(same_game_key(v.games[i], v.games[j].season_num, v.games[j].table_num));
    }
    assert forall|i: int, j: int|
        0 <= i < v.results.len() && 0 <= j < v.results.len() && #[trigger] v.results[i].table_id
            == #[trigger] v.results[j].table_id && v.results[i].player_id
            == v.results[j].player_id implies i == j by {
        assert(same_result_key(v.results[i], v.results[j].table_id, v.results[j].player_id));
    }
}

/// Reconciling the same record twice into a store that holds no games and no results
/// (and has ids left for the record) leaves, after each run, exactly one game, with the
/// record's season and table, and exactly one result for each resolved seat's player;
/// the second run keeps the game's id and adds no row.
pub proof fn lemma_reconcile_twice(
    s0: StoreView,
    s1: StoreView,
    s2: StoreView,
    rec: ResolvedRecord,
    r1: Result<GameUpsert, StoreError>,
    r2: Result<GameUpsert, StoreError>,
)
    requires
        s0.well_formed(),
        s0.games.len() == 0,
        s0.results.len() == 0,
        has_room(s0, rec.entries@.len() as int),
        reconciled(s0, s1, rec, r1),
        s1.well_formed(),
        reconciled(s1, s2, rec, r2),
        s2.well_formed(),
    ensures
        r1 is Ok,
        s1.games.len() == 1,
        s2.games.len() == 1,
        same_game_key(s1.games[0], rec.season_num, rec.table_num),
        same_game_key(s2.games[0], rec.season_num, rec.table_num),
        s2.games[0].id == s1.games[0].id,
        s2.results.len() == s1.results.len(),
        forall|k: int|
            0 <= k < rec.entries@.len() ==> exactly_one_result(
                s1,
                s1.games[0].id,
                #[trigger] rec.entries@[k].player_id,
            ) && exactly_one_result(s2, s1.games[0].id, rec.entries@[k].player_id),
{
    let gid = r1->Ok_0.game_id;
    assert(!has_game_key(s0, rec.season_num, rec.table_num));
    assert(s1.games == seq![planned_game(rec, gid)]);
    assert(same_game_key(s1.games[0], rec.season_num, rec.table_num));
    assert(has_game_key(s1, rec.season_num, rec.table_num));
    if r2 is Ok {
        let i = choose|i: int|
            0 <= i < s1.games.len() && same_game_key(s1.games[i], rec.season_num, rec.table_num)
                && s1.games[i].id == r2->Ok_0.game_id && s2.games == s1.games.update(
                i,
                planned_game(rec, r2->Ok_0.game_id),
            );
        assert(i == 0);
        assert(r2->Ok_0.game_id == gid);
        assert(forall|k: int|
            0 <= k < rec.entries@.len() ==> has_result_key(
                s1,
                gid,
                #[trigger] rec.entries@[k].player_id,
            ));
    }
    assert forall|k: int| 0 <= k < rec.entries@.len() implies exactly_one_result(
        s1,
        s1.games[0].id,
        #[trigger] rec.entries@[k].player_id,
    ) && exactly_one_result(s2, s1.games[0].id, rec.entries@[k].player_id) by {
        let p = rec.entries@[k].player_id;
        assert(has_result_key(s1, gid, p));
        assert(has_result_key(s2, gid, p));
        assert forall|i: int, j: int|
            0 <= i < s1.results.len() && 0 <= j < s1.results.len() && same_result_key(
                #[trigger] s1.results[i],
                gid,
                p,
            ) && same_result_key(#[trigger] s1.results[j], gid, p) implies i == j by {
            assert(same_result_key(s1.results[i], s1.results[j].table_id, s1.results[j].player_id));
        }
        assert forall|i: int, j: int|
            0 <= i < s2.results.len() && 0 <= j < s2.results.len() && same_result_key(
                #[trigger] s2.results[i],
                gid,
                p,
            ) && same_result_key(#[trigger] s2.results[j], gid, p) implies i == j by {
            assert(same_result_key(s2.results[i], s2.results[j].table_id, s2.results[j].player_id));
        }
    }
}

/// Once a name has an id, resolving the same name again, by name alone, returns the same
/// id and creates nothing.
pub proof fn lemma_name_keeps_its_id(
    s0: StoreView,
    s1: StoreView,
    s2: StoreView,
    name: Seq<char>,
    r1: Result<i32, StoreError>,
    r2: Result<i32, StoreError>,
)
    requires
        s0.well_formed(),
        name_resolved(s0, s1, name, r1),
        r1 is Ok,
        name_resolved(s1, s2, name, r2),
    ensures
        r2 == r1,
        s2 == s1,
{
    if id_for_name(s0.players, name) is None {
        lemma_unnamed(s0.players, name);
        let last = s0.players.len() as int;
        assert(first_named(s1.players, name, last));
        lemma_first_named_is_chosen(s1.players, name, last);
    }
}

/// A name without a first index is held by no player.
proof fn lemma_unnamed(players: Seq<PlayerRow>, name: Seq<char>)
    requires
        id_for_name(players, name) is None,
    ensures
        forall|k: int| 0 <= k < players.len() ==> players[k].name != name,
{
    assert forall|k: int| 0 <= k < players.len() implies players[k].name != name by {
        if players[k].name == name {
            lemma_some_named_has_first(players, name, k);
        }
    }
}

proof fn lemma_first_named_is_chosen(players: Seq<PlayerRow>, name: Seq<char>, i: int)
    requires
        first_named(players, name, i),
    ensures
        id_for_name(players, name) == Some(players[i].id),
{
    let c = choose|c: int| first_named(players, name, c);
    lemma_first_named_unique(players, name, i, c);
}

/// Once a name has an id, resolving it again, whatever id the source gives for it this
/// time, reuses that id and changes nothing.
pub proof fn lemma_source_name_keeps_its_id(
    s0: StoreView,
    s1: StoreView,
    s2: StoreView,
    name: Seq<char>,
    first_id: Option<i32>,
    second_id: Option<i32>,
    r1: Result<(i32, IdentityStrategy), StoreError>,
    r2: Result<(i32, IdentityStrategy), StoreError>,
)
    requires
        s0.well_formed(),
        source_resolved(s0, s1, name, first_id, r1),
        r1 is Ok,
        source_resolved(s1, s2, name, second_id, r2),
    ensures
        r2 == Ok::<(i32, IdentityStrategy), StoreError>((r1->Ok_0.0, IdentityStrategy::ReuseExisting)),
        s2 == s1,
{
    if id_for_name(s0.players, name) is None {
        lemma_unnamed(s0.players, name);
        match first_id {
            Some(sid) => {
                if has_player_id(s0, sid) {
                    let i = choose|i: int|
                        0 <= i < s0.players.len() && s0.players[i].id == sid && s1 == (StoreView {
                            players: s0.players.update(i, PlayerRow { id: sid, name }),
                            ..s0
                        });
                    assert(first_named(s1.players, name, i));
                    lemma_first_named_is_chosen(s1.players, name, i);
                } else {
                    let last = s0.players.len() as int;
                    assert(first_named(s1.players, name, last));
                    lemma_first_named_is_chosen(s1.players, name, last);
                }
            },
            None => {
                let last = s0.players.len() as int;
                assert(first_named(s1.players, name, last));
                lemma_first_named_is_chosen(s1.players, name, last);
            },
        }
    }
}

/// A player called `name` at index `k` means some first index of `name` exists.
proof fn lemma_some_named_has_first(players: Seq<PlayerRow>, name: Seq<char>, k: int)
    requires
        0 <= k < players.len(),
        players[k].name == name,
    ensures
        exists|i: int| first_named(players, name, i),
    decreases k,
{
    if forall|j: int| 0 <= j < k ==> players[j].name != name {
        assert(first_named(players, name, k));
    } else {
        let j = choose|j: int| 0 <= j < k && players[j].name == name;
        lemma_some_named_has_first(players, name, j);
    }
}

/// When a source player's id is already stored under another name, reconciling it
/// renames that player: the id keeps its place, now under the source's name, and no
/// player is added and no other id changes.
pub proof fn lemma_rename_keeps_id(
    s0: StoreView,
    s1: StoreView,
    id: i32,
    name: Seq<char>,
    r: Result<RosterChange, StoreError>,
)
    requires
        s0.well_formed(),
        has_player_id(s0, id),
        roster_synced(s0, s1, id, name, r),
    ensures
        s1.players.len() == s0.players.len(),
        forall|i: int| 0 <= i < s0.players.len() ==> #[trigger] s1.players[i].id == s0.players[i].id,
        forall|i: int|
            0 <= i < s1.players.len() && s1.players[i].id == id ==> #[trigger] s1.players[i].name
                == name,
        forall|i: int|
            0 <= i < s1.players.len() && s1.players[i].id != id ==> #[trigger] s1.players[i].name
                == s0.players[i].name,
{
    let i = choose|i: int| 0 <= i < s0.players.len() && s0.players[i].id == id;
    assert(forall|j: int| 0 <= j < s0.players.len() && s0.players[j].id == id ==> j == i);
}

/// When a new name comes with a source id that another player holds, that player is
/// renamed: the id keeps its place, now under the new name, and no player is added.
pub proof fn lemma_source_rename_keeps_id(
    s0: StoreView,
    s1: StoreView,
    name: Seq<char>,
    id: i32,
    r: Result<(i32, IdentityStrategy), StoreError>,
)
    requires
        s0.well_formed(),
        id_for_name(s0.players, name) is None,
        has_player_id(s0, id),
        source_resolved(s0, s1, name, Some(id), r),
    ensures
        r == Ok::<(i32, IdentityStrategy), StoreError>((id, IdentityStrategy::RenameExisting)),
        s1.players.len() == s0.players.len(),
        forall|i: int| 0 <= i < s0.players.len() ==> #[trigger] s1.players[i].id == s0.players[i].id,
        forall|i: int|
            0 <= i < s1.players.len() && s1.players[i].id == id ==> #[trigger] s1.players[i].name
                == name,
{
    let i = choose|i: int|
        0 <= i < s0.players.len() && s0.players[i].id == id && s1 == (StoreView {
            players: s0.players.update(i, PlayerRow { id, name }),
            ..s0
        });
    assert(forall|j: int| 0 <= j < s0.players.len() && s0.players[j].id == id ==> j == i);
}

/// While a run is in progress, a second trigger never starts another run: it gets the
/// progress the run last recorded, and the guard stays as it was.
pub proof fn lemma_single_flight(
    g0: GuardView,
    g1: GuardView,
    g2: GuardView,
    g3: GuardView,
    progress: SyncProgress,
    r1: Result<(), SyncProgress>,
    r2: Result<(), SyncProgress>,
)
    requires
        trigger_outcome(g0, g1, r1),
        r1 is Ok,
        g2 == (GuardView { progress, ..g1 }),
        trigger_outcome(g2, g3, r2),
    ensures
        r2 == Err::<(), SyncProgress>(progress),
        g3 == g2,
        g3.running,
{
}

} // verus!
