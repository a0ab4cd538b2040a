use league_sync::identity::{resolve_player, resolve_with_source_id, sync_roster_player, IdentityStrategy, RosterChange};
use league_sync::model::{GameInfo, LeagueGame, LeagueResult, PlayerResult, Points};
use league_sync::pipeline::{resolve_names, resolve_seats, sync_record};
use league_sync::reconcile::{reconcile_record, ResolvedRecord, SeatEntry};
use league_sync::seat::Seat;
use league_sync::store::{LeagueStore, StoreChange, StoreError};

fn pts(v: f64) -> Points {
    Points { bits: v.to_bits() }
}

fn row(seat: &str, name: &str, score: f64, position: i32, uma: f64, penalty: f64, total: f64) -> PlayerResult {
    PlayerResult {
        seat: seat.to_string(),
        player_name: name.to_string(),
        score: pts(score),
        position,
        uma: pts(uma),
        penalty: pts(penalty),
        total: pts(total),
    }
}

fn record(season: i32, table: i32, rows: Vec<PlayerResult>) -> GameInfo {
    GameInfo {
        game_id: 1,
        played_date: 738887,
        registered: None,
        description: format!("Season {}: Table {}", season, table),
        processed: true,
        player_results: rows,
        season_num: season,
        table_num: table,
    }
}

fn four_rows() -> Vec<PlayerResult> {
    vec![
        row("[E]", "Aki", 42000.0, 1, 30.0, 0.0, 52.0),
        row("[S]", "Bo", 31000.0, 2, 10.0, 0.0, 11.0),
        row("[W]", "Chen", 18000.0, 3, -10.0, -2.0, -24.0),
        row("[N]", "Dana", 9000.0, 4, -30.0, 0.0, -51.0),
    ]
}

fn store_with(names: &[&str]) -> LeagueStore {
    let mut store = LeagueStore::new();
    for n in names {
        store.create_player(n.to_string()).unwrap();
    }
    store
}

fn results_of(store: &LeagueStore, table_id: i32) -> Vec<LeagueResult> {
    store.list_results().iter().filter(|r| r.table_id == table_id).copied().collect()
}

#[test]
fn store_assigns_fresh_ids() {
    let mut store = LeagueStore::new();
    assert_eq!(store.create_player("Aki".to_string()), Ok(1));
    assert_eq!(store.create_player_with_id(10, "Bo".to_string()), Ok(10));
    assert_eq!(store.create_player("Chen".to_string()), Ok(11));
    assert_eq!(store.create_player_with_id(10, "Dup".to_string()), Err(StoreError::DuplicateKey));
    assert_eq!(store.update_player(99, "Nobody".to_string()), Err(StoreError::NotFound));
    assert_eq!(store.update_player(10, "Bea".to_string()), Ok(()));
    assert_eq!(store.player_name(10).map(|s| s.as_str()), Some("Bea"));
    assert_eq!(store.list_players().len(), 3);
}

#[test]
fn store_keeps_game_keys_unique() {
    let mut store = LeagueStore::new();
    let g = LeagueGame::new(None, 1, 2, true, 0, 1, 2, 3, 4);
    assert_eq!(store.create_game(&g), Ok(1));
    assert_eq!(store.create_game(&g), Err(StoreError::DuplicateKey));
    let other = LeagueGame::new(None, 1, 3, false, 0, 0, 0, 0, 0);
    assert_eq!(store.create_game(&other), Ok(2));
    let clash = LeagueGame::new(None, 1, 2, false, 2, 0, 0, 0, 0);
    assert_eq!(store.update_game(&clash), Err(StoreError::DuplicateKey));
    let missing = LeagueGame::new(None, 7, 7, false, 42, 0, 0, 0, 0);
    assert_eq!(store.update_game(&missing), Err(StoreError::NotFound));
    assert_eq!(store.get_game_by_season_and_table(1, 3).map(|g| g.id), Some(2));
    assert_eq!(store.get_game_by_season_and_table(5, 5), None);
}

#[test]
fn store_keeps_result_keys_unique() {
    let mut store = LeagueStore::new();
    let r = LeagueResult::new(0, 1, 2, pts(1.0), 1, pts(0.0), pts(0.0), pts(1.0));
    assert_eq!(store.create_result(&r), Ok(1));
    assert_eq!(store.create_result(&r), Err(StoreError::DuplicateKey));
    let loaded = LeagueResult::new(7, 1, 3, pts(2.0), 2, pts(0.0), pts(0.0), pts(2.0));
    assert_eq!(store.create_result_with_id(&loaded), Ok(7));
    assert_eq!(store.create_result(&LeagueResult::new(0, 2, 2, pts(0.0), 1, pts(0.0), pts(0.0), pts(0.0))), Ok(8));
    let mut changed = store.get_result_by_table_and_player(1, 2).unwrap();
    changed.total = pts(5.0);
    assert_eq!(store.update_result(&changed), Ok(()));
    assert_eq!(store.get_result_by_table_and_player(1, 2).unwrap().total, pts(5.0));
}

#[test]
fn journal_records_changes_in_order() {
    let mut store = LeagueStore::new();
    store.create_player("Aki".to_string()).unwrap();
    store.update_player(1, "Akiko".to_string()).unwrap();
    let changes = store.take_changes();
    assert_eq!(changes.len(), 2);
    assert!(matches!(&changes[0], StoreChange::PlayerCreated { id: 1, name } if name == "Aki"));
    assert!(matches!(&changes[1], StoreChange::PlayerRenamed { id: 1, name } if name == "Akiko"));
    assert!(store.take_changes().is_empty());
}

#[test]
fn end_to_end_record_gives_one_game_and_four_results() {
    let mut store = store_with(&["Aki", "Bo", "Chen", "Dana"]);
    let info = record(3, 7, four_rows());
    let upsert = sync_record(&mut store, &info).unwrap();
    assert!(upsert.created);
    assert_eq!(store.list_games().len(), 1);
    let game = store.get_game_by_season_and_table(3, 7).unwrap();
    assert_eq!((game.season_num, game.table_num), (3, 7));
    assert_eq!((game.e, game.s, game.w, game.n), (1, 2, 3, 4));
    let results = results_of(&store, game.id);
    assert_eq!(results.len(), 4);
    for (i, r) in results.iter().enumerate() {
        for other in &results[i + 1..] {
            assert_ne!((r.table_id, r.player_id), (other.table_id, other.player_id));
        }
    }
    let chen = store.get_result_by_table_and_player(game.id, 3).unwrap();
    assert_eq!(chen.result, pts(18000.0));
    assert_eq!(chen.position, 3);
    assert_eq!(chen.uma, pts(-10.0));
    assert_eq!(chen.penalty, pts(-2.0));
    assert_eq!(chen.total, pts(-24.0));
}

#[test]
fn reconciling_twice_adds_nothing_the_second_time() {
    let mut store = store_with(&["Aki", "Bo", "Chen", "Dana"]);
    let info = record(2, 5, four_rows());
    let first = sync_record(&mut store, &info).unwrap();
    assert_eq!(store.list_games().len(), 1);
    assert_eq!(store.list_results().len(), 4);
    let second = sync_record(&mut store, &info).unwrap();
    assert!(!second.created);
    assert_eq!(second.game_id, first.game_id);
    assert_eq!(store.list_games().len(), 1);
    assert_eq!(store.list_results().len(), 4);
}

#[test]
fn changed_record_overwrites_in_place() {
    let mut store = store_with(&["Aki", "Bo", "Chen", "Dana"]);
    sync_record(&mut store, &record(2, 5, four_rows())).unwrap();
    let mut rows = four_rows();
    rows[0].total = pts(60.0);
    let again = sync_record(&mut store, &record(2, 5, rows)).unwrap();
    assert!(!again.created);
    assert_eq!(store.list_results().len(), 4);
    assert_eq!(store.get_result_by_table_and_player(again.game_id, 1).unwrap().total, pts(60.0));
}

#[test]
fn malformed_seat_is_skipped_and_the_rest_is_kept() {
    let mut store = store_with(&["Aki", "Bo", "Chen", "Dana"]);
    let mut rows = four_rows();
    rows[3].seat = "[?]".to_string();
    let upsert = sync_record(&mut store, &record(1, 1, rows)).unwrap();
    assert_eq!(store.list_games().len(), 1);
    assert_eq!(results_of(&store, upsert.game_id).len(), 3);
    let game = store.get_game_by_season_and_table(1, 1).unwrap();
    assert_eq!(game.n, 0);
}

#[test]
fn new_names_are_created_once() {
    let mut store = LeagueStore::new();
    let info = record(1, 1, four_rows());
    assert_eq!(resolve_names(&mut store, &info), 0);
    assert_eq!(store.list_players().len(), 4);
    assert_eq!(resolve_names(&mut store, &info), 0);
    assert_eq!(store.list_players().len(), 4);
    let rec = resolve_seats(&store, &info);
    assert_eq!(rec.entries.len(), 4);
}

#[test]
fn a_name_keeps_its_id() {
    let mut store = store_with(&["Aki"]);
    let first = resolve_player(&mut store, &"Eve".to_string()).unwrap();
    let second = resolve_player(&mut store, &"Eve".to_string()).unwrap();
    assert_eq!(first, second);
    assert_eq!(store.list_players().len(), 2);
    assert_eq!(resolve_player(&mut store, &"Aki".to_string()), Ok(1));
}

#[test]
fn roster_rename_keeps_the_id() {
    let mut store = LeagueStore::new();
    assert_eq!(sync_roster_player(&mut store, 5, &"Old".to_string()), Ok(RosterChange::Created));
    assert_eq!(sync_roster_player(&mut store, 5, &"Old".to_string()), Ok(RosterChange::Unchanged));
    assert_eq!(sync_roster_player(&mut store, 5, &"New".to_string()), Ok(RosterChange::Renamed));
    assert_eq!(store.list_players().len(), 1);
    assert_eq!(store.player_name(5).map(|s| s.as_str()), Some("New"));
}

#[test]
fn source_ids_follow_the_strategy_order() {
    let mut store = LeagueStore::new();
    store.create_player_with_id(3, "Taken".to_string()).unwrap();
    assert_eq!(resolve_with_source_id(&mut store, &"Taken".to_string(), Some(9)), Ok((3, IdentityStrategy::ReuseExisting)));
    assert_eq!(resolve_with_source_id(&mut store, &"Fresh".to_string(), Some(8)), Ok((8, IdentityStrategy::InsertWithId)));
    assert_eq!(resolve_with_source_id(&mut store, &"Renamed".to_string(), Some(3)), Ok((3, IdentityStrategy::RenameExisting)));
    assert_eq!(store.player_name(3).map(|s| s.as_str()), Some("Renamed"));
    assert_eq!(resolve_with_source_id(&mut store, &"Nobody".to_string(), None), Ok((9, IdentityStrategy::AutoAssign)));
}

#[test]
fn full_store_refuses_without_changing_anything() {
    let mut store = LeagueStore::new();
    store.create_game(&LeagueGame::new(None, 0, 0, false, 0, 0, 0, 0, 0)).unwrap();
    store.create_game_with_id(&LeagueGame::new(None, 0, 1, false, i32::MAX, 0, 0, 0, 0)).unwrap();
    let rec = ResolvedRecord {
        season_num: 9,
        table_num: 9,
        game_time: None,
        processed: true,
        entries: vec![SeatEntry { seat: Seat::East, player_id: 1, score: pts(1.0), position: 1, uma: pts(0.0), penalty: pts(0.0), total: pts(1.0) }],
    };
    assert_eq!(reconcile_record(&mut store, &rec), Err(StoreError::IdsExhausted));
    assert_eq!(store.list_games().len(), 2);
    assert!(store.list_results().is_empty());
}

#[test]
fn names_fail_when_ids_run_out() {
    let mut store = LeagueStore::new();
    store.create_player_with_id(i32::MAX, "Last".to_string()).unwrap();
    assert_eq!(resolve_player(&mut store, &"Late".to_string()), Err(StoreError::IdsExhausted));
    assert_eq!(resolve_names(&mut store, &record(1, 1, four_rows())), 4);
    assert_eq!(store.list_players().len(), 1);
    assert_eq!(resolve_player(&mut store, &"Last".to_string()), Ok(i32::MAX));
}
