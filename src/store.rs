//! The store of players, games and results that reconciliation reads and writes.
//!
//! `LeagueStore` holds a snapshot of the three tables in memory and keeps a journal of
//! every change made to it, in order, so that the same changes can be issued to a
//! persistent database afterwards. Ids it assigns are fresh: above every id it holds.

use vstd::prelude::*;
use crate::model::{LeagueGame, LeaguePlayer, LeagueResult};

verus! {

/// Why a store operation did not take place.
#[derive(Clone, Copy, Debug, PartialEq, Eq, Structural)]
pub enum StoreError {
    /// No row has the id that was given.
    NotFound,
    /// The id or the natural key is already taken by another row.
    DuplicateKey,
    /// No fresh id is left in the `i32` range.
    IdsExhausted,
}

/// One change to the store, as recorded in its journal.
#[derive(Debug)]
pub enum StoreChange {
    PlayerCreated { id: i32, name: String },
    PlayerRenamed { id: i32, name: String },
    GameCreated(LeagueGame),
    GameUpdated(LeagueGame),
    ResultCreated(LeagueResult),
    ResultUpdated(LeagueResult),
}

/// A player as the store's contracts see it.
pub struct PlayerRow {
    pub id: i32,
    pub name: Seq<char>,
}

/// The store's tables, and the next id it would assign in each.
pub struct StoreView {
    pub players: Seq<PlayerRow>,
    pub games: Seq<LeagueGame>,
    pub results: Seq<LeagueResult>,
    pub next_player_id: int,
    pub next_game_id: int,
    pub next_result_id: int,
}

pub open spec fn player_row(p: LeaguePlayer) -> PlayerRow {
    PlayerRow { id: p.id, name: p.name@ }
}

pub open spec fn same_game_key(a: LeagueGame, season_num: i32, table_num: i32) -> bool {
    a.season_num == season_num && a.table_num == table_num
}

pub open spec fn same_result_key(a: LeagueResult, table_id: i32, player_id: i32) -> bool {
    a.table_id == table_id && a.player_id == player_id
}

pub open spec fn has_player_id(v: StoreView, id: i32) -> bool {
    exists|i: int| 0 <= i < v.players.len() && #[trigger] v.players[i].id == id
}

pub open spec fn has_game_key(v: StoreView, season_num: i32, table_num: i32) -> bool {
    exists|i: int|
        0 <= i < v.games.len() && #[trigger] same_game_key(v.games[i], season_num, table_num)
}

pub open spec fn has_result_key(v: StoreView, table_id: i32, player_id: i32) -> bool {
    exists|i: int|
        0 <= i < v.results.len() && #[trigger] same_result_key(v.results[i], table_id, player_id)
}

impl StoreView {
    /// Ids are unique in each table, natural keys are unique among games and among
    /// results, and every id held is below the next one to be assigned.
    pub open spec fn well_formed(self) -> bool {
        &&& 1 <= self.next_player_id <= i32::MAX + 1
        &&& 1 <= self.next_game_id <= i32::MAX + 1
        &&& 1 <= self.next_result_id <= i32::MAX + 1
        &&& forall|i: int, j: int|
            #![trigger self.players[i], self.players[j]]
            0 <= i < self.players.len() && 0 <= j < self.players.len() && self.players[i].id
                == self.players[j].id ==> i == j
        &&& forall|i: int|
            0 <= i < self.players.len() ==> #[trigger] self.players[i].id < self.next_player_id
        &&& forall|i: int, j: int|
            #![trigger self.games[i], self.games[j]]
            0 <= i < self.games.len() && 0 <= j < self.games.len() && self.games[i].id
                == self.games[j].id ==> i == j
        &&& forall|i: int, j: int|
            #![trigger self.games[i], self.games[j]]
            0 <= i < self.games.len() && 0 <= j < self.games.len() && same_game_key(
                self.games[i],
                self.games[j].season_num,
                self.games[j].table_num,
            ) ==> i == j
        &&& forall|i: int|
            0 <= i < self.games.len() ==> #[trigger] self.games[i].id < self.next_game_id
        &&& forall|i: int, j: int|
            #![trigger self.results[i], self.results[j]]
            0 <= i < self.results.len() && 0 <= j < self.results.len() && self.results[i].id
                == self.results[j].id ==> i == j
        &&& forall|i: int, j: int|
            #![trigger self.results[i], self.results[j]]
            0 <= i < self.results.len() && 0 <= j < self.results.len() && same_result_key(
                self.results[i],
                self.results[j].table_id,
                self.results[j].player_id,
            ) ==> i == j
        &&& forall|i: int|
            0 <= i < self.results.len() ==> #[trigger] self.results[i].id < self.next_result_id
    }
}

/// The players, games and results of the league, with a journal of changes.
pub struct LeagueStore {
    players: Vec<LeaguePlayer>,
    games: Vec<LeagueGame>,
    results: Vec<LeagueResult>,
    next_player_id: i64,
    next_game_id: i64,
    next_result_id: i64,
    changes: Vec<StoreChange>,
}

impl View for LeagueStore {
    type V = StoreView;

    closed spec fn view(&self) -> StoreView {
        StoreView {
            players: self.players@.map_values(|p: LeaguePlayer| player_row(p)),
            games: self.games@,
            results: self.results@,
            next_player_id: self.next_player_id as int,
            next_game_id: self.next_game_id as int,
            next_result_id: self.next_result_id as int,
        }
    }
}

impl LeagueStore {
    /// The journal: every change made so far, oldest first.
    pub closed spec fn journal(&self) -> Seq<StoreChange> {
        self.changes@
    }

    /// An empty store whose first assigned ids are 1.
    pub fn new() -> (r: LeagueStore)
        ensures
            r@.well_formed(),
            r@.players.len() == 0,
            r@.games.len() == 0,
            r@.results.len() == 0,
            r@.next_player_id == 1,
            r@.next_game_id == 1,
            r@.next_result_id == 1,
            r.journal().len() == 0,
    {
        let r = LeagueStore {
            players: Vec::new(),
            games: Vec::new(),
            results: Vec::new(),
            next_player_id: 1,
            next_game_id: 1,
            next_result_id: 1,
            changes: Vec::new(),
        };
        assert(r@.players =~= Seq::<PlayerRow>::empty());
        r
    }

    /// Hands out the journal and leaves it empty; the tables are unchanged.
    pub fn take_changes(&mut self) -> (r: Vec<StoreChange>)
        ensures
            final(self)@ == old(self)@,
            r@ == old(self).journal(),
            final(self).journal().len() == 0,
    {
        let mut taken: Vec<StoreChange> = Vec::new();
        std::mem::swap(&mut taken, &mut self.changes);
        taken
    }

    /// All players, in the order they were added.
    pub fn list_players(&self) -> (r: &Vec<LeaguePlayer>)
        ensures
            r@.map_values(|p: LeaguePlayer| player_row(p)) == self@.players,
    {
        &self.players
    }

    /// All games, in the order they were added.
    pub fn list_games(&self) -> (r: &Vec<LeagueGame>)
        ensures
            r@ == self@.games,
    {
        &self.games
    }

    /// All results, in the order they were added.
    pub fn list_results(&self) -> (r: &Vec<LeagueResult>)
        ensures
            r@ == self@.results,
    {
        &self.results
    }

    fn player_index(&self, id: i32) -> (r: Option<usize>)
        ensures
            match r {
                Some(i) => i < self@.players.len() && self@.players[i as int].id == id,
                None => !has_player_id(self@, id),
            },
    {
        let mut i: usize = 0;
        while i < self.players.len()
            invariant
                i <= self.players@.len(),
                forall|k: int| 0 <= k < i ==> self@.players[k].id != id,
            decreases self.players@.len() - i,
        {
            if self.players[i].id == id {
                return Some(i);
            }
            i = i + 1;
        }
        None
    }

    /// The index of the first player called `name`.
    pub fn find_player_by_name(&self, name: &String) -> (r: Option<usize>)
        ensures
            match r {
                Some(i) => i < self@.players.len() && self@.players[i as int].name == name@
                    && forall|k: int| 0 <= k < i ==> self@.players[k].name != name@,
                None => forall|k: int|
                    0 <= k < self@.players.len() ==> self@.players[k].name != name@,
            },
    {
        let mut i: usize = 0;
        while i < self.players.len()
            invariant
                i <= self.players@.len(),
                forall|k: int| 0 <= k < i ==> self@.players[k].name != name@,
            decreases self.players@.len() - i,
        {
            if self.players[i].name == *name {
                return Some(i);
            }
            i = i + 1;
        }
        None
    }

    /// The id of the player at index `i`.
    pub fn player_id_at(&self, i: usize) -> (r: i32)
        requires
            i < self@.players.len(),
        ensures
            r == self@.players[i as int].id,
    {
        self.players[i].id
    }

    /// Adds a player called `name` under the next free id.
    pub fn create_player(&mut self, name: String) -> (r: Result<i32, StoreError>)
        requires
            old(self)@.well_formed(),
        ensures
            final(self)@.well_formed(),
            old(self)@.next_player_id <= i32::MAX ==> {
                &&& r == Ok::<i32, StoreError>(old(self)@.next_player_id as i32)
                &&& final(self)@ == (StoreView {
                    players: old(self)@.players.push(PlayerRow { id: r->Ok_0, name: name@ }),
                    next_player_id: old(self)@.next_player_id + 1,
                    ..old(self)@
                })
                &&& final(self).journal() == old(self).journal().push(
                    StoreChange::PlayerCreated { id: r->Ok_0, name },
                )
            },
            old(self)@.next_player_id > i32::MAX ==> r == Err::<i32, StoreError>(
                StoreError::IdsExhausted,
            ) && final(self)@ == old(self)@ && final(self).journal() == old(self).journal(),
    {
        if self.next_player_id > i32::MAX as i64 {
            return Err(StoreError::IdsExhausted);
        }
        let id = self.next_player_id as i32;
        let logged = name.clone();
        let ghost before = self.players@;
        self.players.push(LeaguePlayer { id, name });
        self.next_player_id = self.next_player_id + 1;
        self.changes.push(StoreChange::PlayerCreated { id, name: logged });
        assert(self.players@.map_values(|p: LeaguePlayer| player_row(p)) =~= before.map_values(
            |p: LeaguePlayer| player_row(p),
        ).push(PlayerRow { id, name: logged@ }));
        Ok(id)
    }

    /// Adds a player under the given id, unless a player already has it.
    pub fn create_player_with_id(&mut self, id: i32, name: String) -> (r: Result<i32, StoreError>)
        requires
            old(self)@.well_formed(),
        ensures
            final(self)@.well_formed(),
            has_player_id(old(self)@, id) ==> r == Err::<i32, StoreError>(StoreError::DuplicateKey)
                && final(self)@ == old(self)@ && final(self).journal() == old(self).journal(),
            !has_player_id(old(self)@, id) ==> {
                &&& r == Ok::<i32, StoreError>(id)
                &&& final(self)@ == (StoreView {
                    players: old(self)@.players.push(PlayerRow { id, name: name@ }),
                    next_player_id: if id + 1 > old(self)@.next_player_id {
                        id + 1
                    } else {
                        old(self)@.next_player_id
                    },
                    ..old(self)@
                })
                &&& final(self).journal() == old(self).journal().push(
                    StoreChange::PlayerCreated { id, name },
                )
            },
    {
        if self.player_index(id).is_some() {
            return Err(StoreError::DuplicateKey);
        }
        let logged = name.clone();
        let ghost before = self.players@;
        self.players.push(LeaguePlayer { id, name });
        if id as i64 + 1 > self.next_player_id {
            self.next_player_id = id as i64 + 1;
        }
        self.changes.push(StoreChange::PlayerCreated { id, name: logged });
        assert(self.players@.map_values(|p: LeaguePlayer| player_row(p)) =~= before.map_values(
            |p: LeaguePlayer| player_row(p),
        ).push(PlayerRow { id, name: logged@ }));
        Ok(id)
    }

    /// Gives the player with id `id` the name `name`.
    pub fn update_player(&mut self, id: i32, name: String) -> (r: Result<(), StoreError>)
        requires
            old(self)@.well_formed(),
        ensures
            final(self)@.well_formed(),
            !has_player_id(old(self)@, id) ==> r == Err::<(), StoreError>(StoreError::NotFound)
                && final(self)@ == old(self)@ && final(self).journal() == old(self).journal(),
            has_player_id(old(self)@, id) ==> {
                &&& r == Ok::<(), StoreError>(())
                &&& exists|i: int|
                    0 <= i < old(self)@.players.len() && old(self)@.players[i].id == id
                        && final(self)@ == (StoreView {
                        players: old(self)@.players.update(i, PlayerRow { id, name: name@ }),
                        ..old(self)@
                    })
                &&& final(self).journal() == old(self).journal().push(
                    StoreChange::PlayerRenamed { id, name },
                )
            },
    {
        match self.player_index(id) {
            None => Err(StoreError::NotFound),
            Some(i) => {
                let logged = name.clone();
                let ghost before = self.players@;
                self.players.set(i, LeaguePlayer { id, name });
                self.changes.push(StoreChange::PlayerRenamed { id, name: logged });
                assert(self.players@.map_values(|p: LeaguePlayer| player_row(p)) =~= before.map_values(
                    |p: LeaguePlayer| player_row(p),
                ).update(i as int, PlayerRow { id, name: logged@ }));
                assert(forall|k: int|
                    0 <= k < self@.players.len() ==> #[trigger] self@.players[k].id
                        == old(self)@.players[k].id);
                assert(self@.results == old(self)@.results);
                Ok(())
            },
        }
    }

    /// The name of the player with id `id`.
    pub fn player_name(&self, id: i32) -> (r: Option<&String>)
        ensures
            match r {
                Some(n) => exists|i: int|
                    0 <= i < self@.players.len() && self@.players[i].id == id
                        && self@.players[i].name == n@,
                None => !has_player_id(self@, id),
            },
    {
        match self.player_index(id) {
            Some(i) => {
                let n = &self.players[i].name;
                assert(self@.players[i as int].name == n@);
                Some(n)
            },
            None => None,
        }
    }

    fn game_index_by_key(&self, season_num: i32, table_num: i32) -> (r: Option<usize>)
        ensures
            match r {
                Some(i) => i < self@.games.len() && same_game_key(
                    self@.games[i as int],
                    season_num,
                    table_num,
                ),
                None => !has_game_key(self@, season_num, table_num),
            },
    {
        let mut i: usize = 0;
        while i < self.games.len()
            invariant
                i <= self.games@.len(),
                forall|k: int| 0 <= k < i ==> !same_game_key(self@.games[k], season_num, table_num),
            decreases self.games@.len() - i,
        {
            if self.games[i].season_num == season_num && self.games[i].table_num == table_num {
                return Some(i);
            }
            i = i + 1;
        }
        None
    }

    fn game_index_by_id(&self, id: i32) -> (r: Option<usize>)
        ensures
            match r {
                Some(i) => i < self@.games.len() && self@.games[i as int].id == id,
                None => forall|k: int| 0 <= k < self@.games.len() ==> self@.games[k].id != id,
            },
    {
        let mut i: usize = 0;
        while i < self.games.len()
            invariant
                i <= self.games@.len(),
                forall|k: int| 0 <= k < i ==> self@.games[k].id != id,
            decreases self.games@.len() - i,
        {
            if self.games[i].id == id {
                return Some(i);
            }
            i = i + 1;
        }
        None
    }

    /// The game whose natural key is `(season_num, table_num)`.
    pub fn get_game_by_season_and_table(&self, season_num: i32, table_num: i32) -> (r: Option<
        LeagueGame,
    >)
        ensures
            match r {
                Some(g) => exists|i: int|
                    0 <= i < self@.games.len() && self@.games[i] == g && same_game_key(
                        g,
                        season_num,
                        table_num,
                    ),
                None => !has_game_key(self@, season_num, table_num),
            },
    {
        match self.game_index_by_key(season_num, table_num) {
            Some(i) => Some(self.games[i]),
            None => None,
        }
    }

    /// Adds `game` under the next free id, unless a game already has its natural key.
    pub fn create_game(&mut self, game: &LeagueGame) -> (r: Result<i32, StoreError>)
        requires
            old(self)@.well_formed(),
        ensures
            final(self)@.well_formed(),
            has_game_key(old(self)@, game.season_num, game.table_num) ==> r == Err::<
                i32,
                StoreError,
            >(StoreError::DuplicateKey) && final(self)@ == old(self)@ && final(self).journal()
                == old(self).journal(),
            !has_game_key(old(self)@, game.season_num, game.table_num) && old(self)@.next_game_id
                > i32::MAX ==> r == Err::<i32, StoreError>(StoreError::IdsExhausted) && final(self)@ == old(self)@ && final(self).journal() == old(self).journal(),
            !has_game_key(old(self)@, game.season_num, game.table_num) && old(self)@.next_game_id
                <= i32::MAX ==> {
                &&& r == Ok::<i32, StoreError>(old(self)@.next_game_id as i32)
                &&& final(self)@ == (StoreView {
                    games: old(self)@.games.push(LeagueGame { id: r->Ok_0, ..*game }),
                    next_game_id: old(self)@.next_game_id + 1,
                    ..old(self)@
                })
                &&& final(self).journal() == old(self).journal().push(
                    StoreChange::GameCreated(LeagueGame { id: r->Ok_0, ..*game }),
                )
            },
    {
        if self.game_index_by_key(game.season_num, game.table_num).is_some() {
            return Err(StoreError::DuplicateKey);
        }
        if self.next_game_id > i32::MAX as i64 {
            return Err(StoreError::IdsExhausted);
        }
        let id = self.next_game_id as i32;
        let stored = LeagueGame { id, ..*game };
        self.games.push(stored);
        self.next_game_id = self.next_game_id + 1;
        self.changes.push(StoreChange::GameCreated(stored));
        assert(forall|k: int|
            0 <= k < self@.games.len() - 1 ==> !same_game_key(
                #[trigger] self@.games[k],
                game.season_num,
                game.table_num,
            ));
        assert(self@.players == old(self)@.players);
        assert(self@.results == old(self)@.results);
        Ok(id)
    }

    /// Adds `game` under its own id, as when a snapshot is loaded, unless its id or its
    /// natural key is taken.
    pub fn create_game_with_id(&mut self, game: &LeagueGame) -> (r: Result<i32, StoreError>)
        requires
            old(self)@.well_formed(),
        ensures
            final(self)@.well_formed(),
            (has_game_key(old(self)@, game.season_num, game.table_num) || exists|i: int|
                0 <= i < old(self)@.games.len() && old(self)@.games[i].id == game.id) ==> r
                == Err::<i32, StoreError>(StoreError::DuplicateKey) && final(self)@ == old(self)@
                && final(self).journal() == old(self).journal(),
            !(has_game_key(old(self)@, game.season_num, game.table_num) || exists|i: int|
                0 <= i < old(self)@.games.len() && old(self)@.games[i].id == game.id) ==> {
                &&& r == Ok::<i32, StoreError>(game.id)
                &&& final(self)@ == (StoreView {
                    games: old(self)@.games.push(*game),
                    next_game_id: if game.id + 1 > old(self)@.next_game_id {
                        game.id + 1
                    } else {
                        old(self)@.next_game_id
                    },
                    ..old(self)@
                })
                &&& final(self).journal() == old(self).journal().push(
                    StoreChange::GameCreated(*game),
                )
            },
    {
        if self.game_index_by_key(game.season_num, game.table_num).is_some()
            || self.game_index_by_id(game.id).is_some() {
            return Err(StoreError::DuplicateKey);
        }
        self.games.push(*game);
        if game.id as i64 + 1 > self.next_game_id {
            self.next_game_id = game.id as i64 + 1;
        }
        self.changes.push(StoreChange::GameCreated(*game));
        assert(forall|k: int|
            0 <= k < self@.games.len() - 1 ==> !same_game_key(
                #[trigger] self@.games[k],
                game.season_num,
                game.table_num,
            ));
        assert(self@.players == old(self)@.players);
        assert(self@.results == old(self)@.results);
        Ok(game.id)
    }

    /// Overwrites the game with id `game.id`, unless another game has `game`'s natural key.
    pub fn update_game(&mut self, game: &LeagueGame) -> (r: Result<(), StoreError>)
        requires
            old(self)@.well_formed(),
        ensures
            final(self)@.well_formed(),
            (forall|i: int| 0 <= i < old(self)@.games.len() ==> old(self)@.games[i].id != game.id)
                ==> r == Err::<(), StoreError>(StoreError::NotFound) && final(self)@ == old(self)@ && final(self).journal() == old(self).journal(),
            forall|i: int|
                0 <= i < old(self)@.games.len() && old(self)@.games[i].id == game.id ==> {
                    if exists|j: int|
                        0 <= j < old(self)@.games.len() && j != i && same_game_key(
                            old(self)@.games[j],
                            game.season_num,
                            game.table_num,
                        ) {
                        &&& r == Err::<(), StoreError>(StoreError::DuplicateKey)
                        &&& final(self)@ == old(self)@
                        &&& final(self).journal() == old(self).journal()
                    } else {
                        &&& r == Ok::<(), StoreError>(())
                        &&& final(self)@ == (StoreView {
                            games: old(self)@.games.update(i, *game),
                            ..old(self)@
                        })
                        &&& final(self).journal() == old(self).journal().push(
                            StoreChange::GameUpdated(*game),
                        )
                    }
                },
    {
        let i = match self.game_index_by_id(game.id) {
            Some(i) => i,
            None => return Err(StoreError::NotFound),
        };
        let mut j: usize = 0;
        while j < self.games.len()
            invariant
                self@ == old(self)@,
                self.journal() == old(self).journal(),
                old(self)@.well_formed(),
                i < self@.games.len(),
                self@.games[i as int].id == game.id,
                j <= self@.games.len(),
                forall|k: int|
                    0 <= k < j && k != i ==> !same_game_key(
                        self@.games[k],
                        game.season_num,
                        game.table_num,
                    ),
            decreases self@.games.len() - j,
        {
            if j != i && self.games[j].season_num == game.season_num && self.games[j].table_num
                == game.table_num {
                return Err(StoreError::DuplicateKey);
            }
            j = j + 1;
        }
        self.games.set(i, *game);
        self.changes.push(StoreChange::GameUpdated(*game));
        assert(self@.players == old(self)@.players);
        assert(self@.results == old(self)@.results);
        Ok(())
    }

    fn result_index_by_key(&self, table_id: i32, player_id: i32) -> (r: Option<usize>)
        ensures
            match r {
                Some(i) => i < self@.results.len() && same_result_key(
                    self@.results[i as int],
                    table_id,
                    player_id,
                ),
                None => !has_result_key(self@, table_id, player_id),
            },
    {
        let mut i: usize = 0;
        while i < self.results.len()
            invariant
                i <= self.results@.len(),
                forall|k: int|
                    0 <= k < i ==> !same_result_key(self@.results[k], table_id, player_id),
            decreases self.results@.len() - i,
        {
            if self.results[i].table_id == table_id && self.results[i].player_id == player_id {
                return Some(i);
            }
            i = i + 1;
        }
        None
    }

    fn result_index_by_id(&self, id: i32) -> (r: Option<usize>)
        ensures
            match r {
                Some(i) => i < self@.results.len() && self@.results[i as int].id == id,
                None => forall|k: int| 0 <= k < self@.results.len() ==> self@.results[k].id != id,
            },
    {
        let mut i: usize = 0;
        while i < self.results.len()
            invariant
                i <= self.results@.len(),
                forall|k: int| 0 <= k < i ==> self@.results[k].id != id,
            decreases self.results@.len() - i,
        {
            if self.results[i].id == id {
                return Some(i);
            }
            i = i + 1;
        }
        None
    }

    /// The result whose natural key is `(table_id, player_id)`.
    pub fn get_result_by_table_and_player(&self, table_id: i32, player_id: i32) -> (r: Option<
        LeagueResult,
    >)
        ensures
            match r {
                Some(x) => exists|i: int|
                    0 <= i < self@.results.len() && self@.results[i] == x && same_result_key(
                        x,
                        table_id,
                        player_id,
                    ),
                None => !has_result_key(self@, table_id, player_id),
            },
    {
        match self.result_index_by_key(table_id, player_id) {
            Some(i) => Some(self.results[i]),
            None => None,
        }
    }

    /// Adds `result` under the next free id, unless a result already has its natural key.
    pub fn create_result(&mut self, result: &LeagueResult) -> (r: Result<i32, StoreError>)
        requires
            old(self)@.well_formed(),
        ensures
            final(self)@.well_formed(),
            has_result_key(old(self)@, result.table_id, result.player_id) ==> r == Err::<
                i32,
                StoreError,
            >(StoreError::DuplicateKey) && final(self)@ == old(self)@ && final(self).journal()
                == old(self).journal(),
            !has_result_key(old(self)@, result.table_id, result.player_id)
                && old(self)@.next_result_id > i32::MAX ==> r == Err::<i32, StoreError>(
                StoreError::IdsExhausted,
            ) && final(self)@ == old(self)@ && final(self).journal() == old(self).journal(),
            !has_result_key(old(self)@, result.table_id, result.player_id)
                && old(self)@.next_result_id <= i32::MAX ==> {
                &&& r == Ok::<i32, StoreError>(old(self)@.next_result_id as i32)
                &&& final(self)@ == (StoreView {
                    results: old(self)@.results.push(LeagueResult { id: r->Ok_0, ..*result }),
                    next_result_id: old(self)@.next_result_id + 1,
                    ..old(self)@
                })
                &&& final(self).journal() == old(self).journal().push(
                    StoreChange::ResultCreated(LeagueResult { id: r->Ok_0, ..*result }),
                )
            },
    {
        if self.result_index_by_key(result.table_id, result.player_id).is_some() {
            return Err(StoreError::DuplicateKey);
        }
        if self.next_result_id > i32::MAX as i64 {
            return Err(StoreError::IdsExhausted);
        }
        let id = self.next_result_id as i32;
        let stored = LeagueResult { id, ..*result };
        self.results.push(stored);
        self.next_result_id = self.next_result_id + 1;
        self.changes.push(StoreChange::ResultCreated(stored));
        assert(forall|k: int|
            0 <= k < self@.results.len() - 1 ==> !same_result_key(
                #[trigger] self@.results[k],
                result.table_id,
                result.player_id,
            ));
        assert(self@.players == old(self)@.players);
        assert(self@.games == old(self)@.games);
        Ok(id)
    }

    /// Adds `result` under its own id, as when a snapshot is loaded, unless its id or its
    /// natural key is taken.
    pub fn create_result_with_id(&mut self, result: &LeagueResult) -> (r: Result<i32, StoreError>)
        requires
            old(self)@.well_formed(),
        ensures
            final(self)@.well_formed(),
            (has_result_key(old(self)@, result.table_id, result.player_id) || exists|i: int|
                0 <= i < old(self)@.results.len() && old(self)@.results[i].id == result.id) ==> r
                == Err::<i32, StoreError>(StoreError::DuplicateKey) && final(self)@ == old(self)@
                && final(self).journal() == old(self).journal(),
            !(has_result_key(old(self)@, result.table_id, result.player_id) || exists|i: int|
                0 <= i < old(self)@.results.len() && old(self)@.results[i].id == result.id) ==> {
                &&& r == Ok::<i32, StoreError>(result.id)
                &&& final(self)@ == (StoreView {
                    results: old(self)@.results.push(*result),
                    next_result_id: if result.id + 1 > old(self)@.next_result_id {
                        result.id + 1
                    } else {
                        old(self)@.next_result_id
                    },
                    ..old(self)@
                })
                &&& final(self).journal() == old(self).journal().push(
                    StoreChange::ResultCreated(*result),
                )
            },
    {
        if self.result_index_by_key(result.table_id, result.player_id).is_some()
            || self.result_index_by_id(result.id).is_some() {
            return Err(StoreError::DuplicateKey);
        }
        self.results.push(*result);
        if result.id as i64 + 1 > self.next_result_id {
            self.next_result_id = result.id as i64 + 1;
        }
        self.changes.push(StoreChange::ResultCreated(*result));
        assert(forall|k: int|
            0 <= k < self@.results.len() - 1 ==> !same_result_key(
                #[trigger] self@.results[k],
                result.table_id,
                result.player_id,
            ));
        assert(self@.players == old(self)@.players);
        assert(self@.games == old(self)@.games);
        Ok(result.id)
    }

    /// Overwrites the result with id `result.id`, unless another result has `result`'s
    /// natural key.
    pub fn update_result(&mut self, result: &LeagueResult) -> (r: Result<(), StoreError>)
        requires
            old(self)@.well_formed(),
        ensures
            final(self)@.well_formed(),
            (forall|i: int|
                0 <= i < old(self)@.results.len() ==> old(self)@.results[i].id != result.id) ==> r
                == Err::<(), StoreError>(StoreError::NotFound) && final(self)@ == old(self)@
                && final(self).journal() == old(self).journal(),
            forall|i: int|
                0 <= i < old(self)@.results.len() && old(self)@.results[i].id == result.id ==> {
                    if exists|j: int|
                        0 <= j < old(self)@.results.len() && j != i && same_result_key(
                            old(self)@.results[j],
                            result.table_id,
                            result.player_id,
                        ) {
                        &&& r == Err::<(), StoreError>(StoreError::DuplicateKey)
                        &&& final(self)@ == old(self)@
                        &&& final(self).journal() == old(self).journal()
                    } else {
                        &&& r == Ok::<(), StoreError>(())
                        &&& final(self)@ == (StoreView {
                            results: old(self)@.results.update(i, *result),
                            ..old(self)@
                        })
                        &&& final(self).journal() == old(self).journal().push(
                            StoreChange::ResultUpdated(*result),
                        )
                    }
                },
    {
        let i = match self.result_index_by_id(result.id) {
            Some(i) => i,
            None => return Err(StoreError::NotFound),
        };
        let mut j: usize = 0;
        while j < self.results.len()
            invariant
                self@ == old(self)@,
                self.journal() == old(self).journal(),
                old(self)@.well_formed(),
                i < self@.results.len(),
                self@.results[i as int].id == result.id,
                j <= self@.results.len(),
                forall|k: int|
                    0 <= k < j && k != i ==> !same_result_key(
                        self@.results[k],
                        result.table_id,
                        result.player_id,
                    ),
            decreases self@.results.len() - j,
        {
            if j != i && self.results[j].table_id == result.table_id && self.results[j].player_id
                == result.player_id {
                return Err(StoreError::DuplicateKey);
            }
            j = j + 1;
        }
        self.results.set(i, *result);
        self.changes.push(StoreChange::ResultUpdated(*result));
        assert(self@.players == old(self)@.players);
        assert(self@.games == old(self)@.games);
        Ok(())
    }

    /// Whether ids are left for one new game and `results` new results.
    pub fn has_room_for(&self, results: usize) -> (r: bool)
        requires
            self@.well_formed(),
        ensures
            r == (self@.next_game_id <= i32::MAX && self@.next_result_id + results <= i32::MAX
                + 1),
    {
        self.next_game_id <= i32::MAX as i64 && (results as u64) <= (i32::MAX as i64 + 1
            - self.next_result_id) as u64
    }
}

} // verus!
