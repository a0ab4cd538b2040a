//! The identity resolver: maps player names to stable player ids, creating or renaming
//! players in the store as needed.
//!
//! Names are matched against the store itself, which is the one cache of a pass: once a
//! name has an id, every later lookup of that name in the pass finds the same id.

use vstd::prelude::*;
use crate::store::{has_player_id, LeagueStore, PlayerRow, StoreError, StoreView};

verus! {

/// `i` is the first index of a player called `name`.
pub open spec fn first_named(players: Seq<PlayerRow>, name: Seq<char>, i: int) -> bool {
    &&& 0 <= i < players.len()
    &&& players[i].name == name
    &&& forall|k: int| 0 <= k < i ==> players[k].name != name
}

/// The id of the first player called `name`, if any.
pub open spec fn id_for_name(players: Seq<PlayerRow>, name: Seq<char>) -> Option<i32> {
    if exists|i: int| first_named(players, name, i) {
        Some(players[choose|i: int| first_named(players, name, i)].id)
    } else {
        None
    }
}

pub proof fn lemma_first_named_unique(players: Seq<PlayerRow>, name: Seq<char>, i: int, j: int)
    requires
        first_named(players, name, i),
        first_named(players, name, j),
    ensures
        i == j,
{
}

/// The index of the first player called `name`, by its definition.
fn index_for_name(store: &LeagueStore, name: &String) -> (r: Option<usize>)
    ensures
        match r {
            Some(i) => first_named(store@.players, name@, i as int) && id_for_name(
                store@.players,
                name@,
            ) == Some(store@.players[i as int].id),
            None => id_for_name(store@.players, name@) is None,
        },
{
    let r = store.find_player_by_name(name);
    proof {
        match r {
            Some(i) => {
                assert(first_named(store@.players, name@, i as int));
                let c = choose|c: int| first_named(store@.players, name@, c);
                lemma_first_named_unique(store@.players, name@, i as int, c);
            },
            None => {
                assert(!exists|i: int| first_named(store@.players, name@, i));
            },
        }
    }
    r
}

/// The store after an unknown name was given the next free id, or left as it was when
/// no id is left.
pub open spec fn auto_assigned(old: StoreView, new: StoreView, name: Seq<char>, r: Result<
    i32,
    StoreError,
>) -> bool {
    if old.next_player_id <= i32::MAX {
        &&& r == Ok::<i32, StoreError>(old.next_player_id as i32)
        &&& new == (StoreView {
            players: old.players.push(PlayerRow { id: old.next_player_id as i32, name }),
            next_player_id: old.next_player_id + 1,
            ..old
        })
    } else {
        &&& r == Err::<i32, StoreError>(StoreError::IdsExhausted)
        &&& new == old
    }
}

/// Matching by name alone: a known name keeps its id and the store is unchanged; an
/// unknown name is given the next free id.
pub open spec fn name_resolved(old: StoreView, new: StoreView, name: Seq<char>, r: Result<
    i32,
    StoreError,
>) -> bool {
    match id_for_name(old.players, name) {
        Some(id) => r == Ok::<i32, StoreError>(id) && new == old,
        None => auto_assigned(old, new, name, r),
    }
}

/// Resolves a name when the source gives no player ids: by name, creating the player
/// under a store-assigned id when the name is new.
pub fn resolve_player(store: &mut LeagueStore, name: &String) -> (r: Result<i32, StoreError>)
    requires
        old(store)@.well_formed(),
    ensures
        final(store)@.well_formed(),
        name_resolved(old(store)@, final(store)@, name@, r),
{
    match index_for_name(store, name) {
        Some(i) => Ok(store.player_id_at(i)),
        None => store.create_player(name.clone()),
    }
}

/// What reconciling a player of the source roster did.
#[derive(Clone, Copy, Debug, PartialEq, Eq, Structural)]
pub enum RosterChange {
    /// The id was stored under the same name.
    Unchanged,
    /// The id was stored under another name, which now is the source's.
    Renamed,
    /// The id was new and the player was created under it.
    Created,
}

/// The store after the source's player `(id, name)` was reconciled into it.
pub open spec fn roster_synced(old: StoreView, new: StoreView, id: i32, name: Seq<char>, r: Result<
    RosterChange,
    StoreError,
>) -> bool {
    if has_player_id(old, id) {
        forall|i: int|
            0 <= i < old.players.len() && old.players[i].id == id ==> if old.players[i].name
                == name {
                r == Ok::<RosterChange, StoreError>(RosterChange::Unchanged) && new == old
            } else {
                &&& r == Ok::<RosterChange, StoreError>(RosterChange::Renamed)
                &&& new == (StoreView {
                    players: old.players.update(i, PlayerRow { id, name }),
                    ..old
                })
            }
    } else {
        &&& r == Ok::<RosterChange, StoreError>(RosterChange::Created)
        &&& new == (StoreView {
            players: old.players.push(PlayerRow { id, name }),
            next_player_id: if id + 1 > old.next_player_id {
                id + 1
            } else {
                old.next_player_id
            },
            ..old
        })
    }
}

/// Reconciles one player of a source that carries its own ids: the same id under the
/// same name is kept, under another name it is renamed to the source's, and an unknown
/// id is created as it is.
pub fn sync_roster_player(store: &mut LeagueStore, id: i32, name: &String) -> (r: Result<
    RosterChange,
    StoreError,
>)
    requires
        old(store)@.well_formed(),
    ensures
        final(store)@.well_formed(),
        roster_synced(old(store)@, final(store)@, id, name@, r),
{
    match store.player_name(id) {
        Some(stored) => {
            if *stored == *name {
                Ok(RosterChange::Unchanged)
            } else {
                match store.update_player(id, name.clone()) {
                    Ok(()) => Ok(RosterChange::Renamed),
                    Err(e) => Err(e),
                }
            }
        },
        None => match store.create_player_with_id(id, name.clone()) {
            Ok(_) => Ok(RosterChange::Created),
            Err(e) => Err(e),
        },
    }
}

/// The ways a name can come to an id, tried in this order.
#[derive(Clone, Copy, Debug, PartialEq, Eq, Structural)]
pub enum IdentityStrategy {
    /// The name is already stored; its id is reused.
    ReuseExisting,
    /// The source's id is taken by another name, which is renamed to this one.
    RenameExisting,
    /// The player is created under the source's id.
    InsertWithId,
    /// The player is created under a store-assigned id.
    AutoAssign,
}

/// Resolution of a name whose source may carry an id for it.
pub open spec fn source_resolved(
    old: StoreView,
    new: StoreView,
    name: Seq<char>,
    source_id: Option<i32>,
    r: Result<(i32, IdentityStrategy), StoreError>,
) -> bool {
    match id_for_name(old.players, name) {
        Some(id) => r == Ok::<(i32, IdentityStrategy), StoreError>(
            (id, IdentityStrategy::ReuseExisting),
        ) && new == old,
        None => match source_id {
            Some(sid) => if has_player_id(old, sid) {
                &&& r == Ok::<(i32, IdentityStrategy), StoreError>(
                    (sid, IdentityStrategy::RenameExisting),
                )
                &&& exists|i: int|
                    0 <= i < old.players.len() && old.players[i].id == sid && new == (StoreView {
                        players: old.players.update(i, PlayerRow { id: sid, name }),
                        ..old
                    })
            } else {
                &&& r == Ok::<(i32, IdentityStrategy), StoreError>(
                    (sid, IdentityStrategy::InsertWithId),
                )
                &&& new == (StoreView {
                    players: old.players.push(PlayerRow { id: sid, name }),
                    next_player_id: if sid + 1 > old.next_player_id {
                        sid + 1
                    } else {
                        old.next_player_id
                    },
                    ..old
                })
            },
            None => {
                &&& r is Ok ==> r->Ok_0.1 == IdentityStrategy::AutoAssign
                &&& auto_assigned(
                    old,
                    new,
                    name,
                    match r {
                        Ok(p) => Ok::<i32, StoreError>(p.0),
                        Err(e) => Err::<i32, StoreError>(e),
                    },
                )
            },
        },
    }
}

/// Resolves a name whose source may carry an id for it. A stored name keeps its id.
/// Otherwise the player is created under the source's id; when that id is taken, the
/// player holding it is renamed to this name; when that fails too, or the source has no
/// id, the player is created under a store-assigned id.
pub fn resolve_with_source_id(store: &mut LeagueStore, name: &String, source_id: Option<i32>) -> (r:
    Result<(i32, IdentityStrategy), StoreError>)
    requires
        old(store)@.well_formed(),
    ensures
        final(store)@.well_formed(),
        source_resolved(old(store)@, final(store)@, name@, source_id, r),
{
    if let Some(i) = index_for_name(store, name) {
        return Ok((store.player_id_at(i), IdentityStrategy::ReuseExisting));
    }
    if let Some(sid) = source_id {
        match store.create_player_with_id(sid, name.clone()) {
            Ok(id) => {
                return Ok((id, IdentityStrategy::InsertWithId));
            },
            Err(StoreError::DuplicateKey) => {
                if let Ok(()) = store.update_player(sid, name.clone()) {
                    return Ok((sid, IdentityStrategy::RenameExisting));
                }
            },
            Err(_) => {},
        }
    }
    match store.create_player(name.clone()) {
        Ok(id) => Ok((id, IdentityStrategy::AutoAssign)),
        Err(e) => Err(e),
    }
}

} // verus!
