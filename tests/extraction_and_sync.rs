use league_sync::dry_run::{dry_run, DryRunWarning};
use league_sync::extract::{
    extract_table_document, game_info_from_source, name_for_pid, source_id_for_name, ExtractionError,
    Field, PointsCell, SourceGame, SourcePlayer, SourceResult, TableDocument, TableRow, EPOCH_DAY,
};
use league_sync::model::{Points, Timestamp};
use league_sync::seat::Seat;
use league_sync::store::LeagueStore;
use league_sync::sync::{
    page_step, sync_export, FetchOutcome, PageCursor, PageStep, SyncGuard, SyncParams, SyncProgress,
};

fn pts(v: f64) -> Points {
    Points { bits: v.to_bits() }
}

fn table_row(seat: &str, name: &str, score: f64) -> TableRow {
    TableRow {
        seat: Some(seat.to_string()),
        name: Some(name.to_string()),
        score: PointsCell::Read(pts(score)),
        position: Some("1".to_string()),
        uma: PointsCell::Read(pts(15.0)),
        penalty: PointsCell::Read(pts(0.0)),
        total: PointsCell::Read(pts(40.0)),
    }
}

fn page(description: &str) -> TableDocument {
    TableDocument {
        game_id: Some("17".to_string()),
        played_date: Some("2024-01-02".to_string()),
        registered: Some("2024-01-02 03:04:05.5 UTC".to_string()),
        description: Some(description.to_string()),
        processed: Some("true".to_string()),
        rows: vec![
            table_row("[E]", "Aki", 42000.0),
            table_row("[S]", "Bo", 31000.0),
            table_row("[W]", "Chen", 18000.0),
            table_row("[N]", "Dana", 9000.0),
        ],
    }
}

#[test]
fn table_page_becomes_a_record() {
    let info = extract_table_document(&page("Season 3: Table 7")).unwrap();
    assert_eq!(info.game_id, 17);
    assert_eq!(info.played_date, 738887);
    assert_eq!(info.registered, Some(Timestamp { seconds: 1704164645, nanos: 500000000 }));
    assert_eq!((info.season_num, info.table_num), (3, 7));
    assert!(info.processed);
    assert_eq!(info.player_results.len(), 4);
    assert_eq!(info.player_results[2].player_name, "Chen");
    assert_eq!(info.player_results[2].score, pts(18000.0));
}

#[test]
fn table_page_without_table_number_uses_its_game_id() {
    let info = extract_table_document(&page("Season 2 friendly")).unwrap();
    assert_eq!((info.season_num, info.table_num), (2, 17));
}

#[test]
fn unreadable_registration_time_is_left_out() {
    let mut doc = page("Season 3: Table 7");
    doc.registered = Some("soon".to_string());
    assert_eq!(extract_table_document(&doc).unwrap().registered, None);
}

#[test]
fn unreadable_penalty_reads_as_zero() {
    let mut doc = page("Season 3: Table 7");
    doc.rows[1].penalty = PointsCell::Unreadable;
    assert_eq!(extract_table_document(&doc).unwrap().player_results[1].penalty, pts(0.0));
}

#[test]
fn each_problem_drops_the_page() {
    let mut doc = page("Season 3: Table 7");
    doc.game_id = Some("x".to_string());
    assert_eq!(extract_table_document(&doc).unwrap_err(), ExtractionError::Malformed(Field::GameId));
    let mut doc = page("Season 3: Table 7");
    doc.played_date = Some("02/01/2024".to_string());
    assert_eq!(extract_table_document(&doc).unwrap_err(), ExtractionError::Malformed(Field::PlayedDate));
    let mut doc = page("Season 3: Table 7");
    doc.description = None;
    assert_eq!(extract_table_document(&doc).unwrap_err(), ExtractionError::Missing(Field::Description));
    let mut doc = page("Season 3: Table 7");
    doc.rows[2].seat = None;
    assert_eq!(extract_table_document(&doc).unwrap_err(), ExtractionError::Missing(Field::Seat));
    let mut doc = page("Season 3: Table 7");
    doc.rows[1].score = PointsCell::Unreadable;
    doc.rows[3].position = Some("first".to_string());
    assert_eq!(extract_table_document(&doc).unwrap_err(), ExtractionError::Malformed(Field::Score));
    let mut doc = page("Season 3: Table 7");
    doc.rows[3].position = Some("first".to_string());
    assert_eq!(extract_table_document(&doc).unwrap_err(), ExtractionError::Malformed(Field::Position));
    let mut doc = page("Season 3: Table 7");
    doc.rows[0].penalty = PointsCell::Missing;
    assert_eq!(extract_table_document(&doc).unwrap_err(), ExtractionError::Missing(Field::Penalty));
}

fn roster() -> Vec<SourcePlayer> {
    vec![
        SourcePlayer { pid: 1, name: "Aki".to_string() },
        SourcePlayer { pid: 2, name: "Bo".to_string() },
        SourcePlayer { pid: 3, name: "Chen".to_string() },
        SourcePlayer { pid: 4, name: "Dana".to_string() },
    ]
}

fn seat_result(player: u64, seat: &str) -> SourceResult {
    SourceResult {
        player,
        result: pts(25000.0),
        seat: seat.to_string(),
        uma: Some(pts(5.0)),
        position: Some(2),
        penalty: None,
        total: Some(pts(5.0)),
    }
}

fn export_game(gid: u64, description: &str, seats: Vec<SourceResult>) -> SourceGame {
    SourceGame { gid, played: "2024-01-02".to_string(), description: description.to_string(), results: seats }
}

fn full_table(gid: u64, description: &str) -> SourceGame {
    export_game(gid, description, vec![seat_result(1, "E"), seat_result(2, "S"), seat_result(3, "W"), seat_result(4, "N")])
}

#[test]
fn export_game_becomes_a_record() {
    let g = export_game(30, "Season 1: Table 4", vec![seat_result(2, "[S]"), seat_result(77, "E")]);
    let info = game_info_from_source(&g, &roster());
    assert_eq!(info.game_id, 30);
    assert_eq!((info.season_num, info.table_num), (1, 4));
    assert_eq!(info.played_date, 738887);
    assert_eq!(info.player_results[0].player_name, "Bo");
    assert_eq!(info.player_results[1].player_name, "Unknown");
    assert_eq!(info.player_results[0].penalty, pts(0.0));
    assert_eq!(info.player_results[0].position, 2);
}

#[test]
fn export_game_with_bad_date_and_description() {
    let mut g = export_game(30, "Casual", vec![]);
    g.played = "yesterday".to_string();
    let info = game_info_from_source(&g, &roster());
    assert_eq!(info.played_date, EPOCH_DAY);
    assert_eq!((info.season_num, info.table_num), (0, 30));
}

#[test]
fn roster_lookups() {
    let mut players = roster();
    players.push(SourcePlayer { pid: 2, name: "Bea".to_string() });
    assert_eq!(name_for_pid(&players, 2), "Bea");
    assert_eq!(name_for_pid(&players, 9), "Unknown");
    assert_eq!(source_id_for_name(&players, &"Chen".to_string()), Some(3));
    assert_eq!(source_id_for_name(&players, &"Zed".to_string()), None);
}

#[test]
fn export_run_saves_each_new_game_once() {
    let mut store = LeagueStore::new();
    let mut guard = SyncGuard::new();
    guard.try_begin().unwrap();
    let games = vec![full_table(1, "Season 1: Table 1"), full_table(2, "Season 1: Table 2")];
    let summary = sync_export(&mut store, &mut guard, &roster(), &games);
    assert_eq!((summary.processed, summary.saved, summary.failed), (2, 2, 0));
    assert_eq!(summary.players_created, 4);
    assert_eq!(store.list_results().len(), 8);
    assert_eq!(guard.progress(), SyncProgress { current_id: 2, success_count: 2 });
    let again = sync_export(&mut store, &mut guard, &roster(), &games);
    assert_eq!((again.processed, again.saved), (2, 0));
    assert_eq!(store.list_games().len(), 2);
    assert_eq!(store.list_results().len(), 8);
}

#[test]
fn export_run_renames_players_and_keeps_ids() {
    let mut store = LeagueStore::new();
    store.create_player_with_id(1, "Akira".to_string()).unwrap();
    let mut guard = SyncGuard::new();
    let summary = sync_export(&mut store, &mut guard, &roster(), &vec![]);
    assert_eq!((summary.players_created, summary.players_renamed), (3, 1));
    assert_eq!(store.player_name(1).map(|s| s.as_str()), Some("Aki"));
}

#[test]
fn second_trigger_during_a_run_reports_progress() {
    let mut guard = SyncGuard::new();
    assert_eq!(guard.try_begin(), Ok(()));
    guard.record(SyncProgress { current_id: 12, success_count: 5 });
    assert_eq!(guard.try_begin(), Err(SyncProgress { current_id: 12, success_count: 5 }));
    assert!(guard.is_running());
    guard.finish();
    assert!(!guard.is_running());
    assert_eq!(guard.try_begin(), Ok(()));
    assert_eq!(guard.progress(), SyncProgress { current_id: 0, success_count: 0 });
}

#[test]
fn only_force_true_asks_for_a_run() {
    assert!(SyncParams { force: Some("true".to_string()) }.wants_full_sync());
    assert!(!SyncParams { force: Some("yes".to_string()) }.wants_full_sync());
    assert!(!SyncParams { force: None }.wants_full_sync());
}

#[test]
fn fetch_outcomes_decide_the_next_step() {
    assert_eq!(page_step(FetchOutcome::Status(502)), PageStep::Finish);
    assert_eq!(page_step(FetchOutcome::Status(200)), PageStep::Process);
    assert_eq!(page_step(FetchOutcome::Status(404)), PageStep::Skip);
    assert_eq!(page_step(FetchOutcome::TimedOut), PageStep::RetryAfterPause);
    assert_eq!(page_step(FetchOutcome::ConnectFailed), PageStep::RetryAfterPause);
    assert_eq!(page_step(FetchOutcome::Failed), PageStep::Abort);
}

#[test]
fn cursor_moves_only_past_handled_pages() {
    let mut c = PageCursor::new();
    c.advance(PageStep::Process, true);
    c.advance(PageStep::Process, false);
    c.advance(PageStep::RetryAfterPause, false);
    c.advance(PageStep::Skip, false);
    assert_eq!(c, PageCursor { id: 3, success_count: 2, saved_count: 1 });
    assert_eq!(c.progress(), SyncProgress { current_id: 3, success_count: 2 });
}

#[test]
fn dry_run_reports_without_writing() {
    let mut store = LeagueStore::new();
    store.create_player("Aki".to_string()).unwrap();
    let games = vec![
        full_table(1, "Season 1: Table 1"),
        export_game(2, "Season 2: Table 1", vec![seat_result(1, "E"), seat_result(9, "E"), seat_result(2, "X")]),
    ];
    let report = dry_run(&store, &roster(), &games);
    assert_eq!(store.list_players().len(), 1);
    assert_eq!(report.total_games, 2);
    assert_eq!(report.all_players, vec!["Aki", "Bo", "Chen", "Dana", "Unknown_9"]);
    assert_eq!(report.new_players, vec!["Bo", "Chen", "Dana", "Unknown_9"]);
    assert_eq!(report.seasons.len(), 2);
    assert_eq!(report.seasons[0].games, 1);
    assert_eq!(report.games[1].table_num, 1);
    assert_eq!(report.games[1].players[1].name, "Unknown_9");
    assert_eq!(report.games[1].seat_assignment[0], (Some(Seat::East), "Unknown_9".to_string()));
    let w: Vec<String> = report.warnings.iter().map(|w| format!("{:?}", w)).collect();
    assert_eq!(w.len(), 7);
    assert!(matches!(report.warnings[0], DryRunWarning::UnknownPlayer { gid: 2, pid: 9 }));
    assert!(matches!(report.warnings[1], DryRunWarning::DuplicateSeat { gid: 2, seat: Some(Seat::East) }));
    assert!(matches!(&report.warnings[2], DryRunWarning::UnrecognizedSeat { gid: 2, player, seat } if player == "Bo" && seat == "X"));
    assert!(matches!(report.warnings[3], DryRunWarning::WrongPlayerCount { gid: 2, count: 3 }));
    assert!(matches!(report.warnings[4], DryRunWarning::MissingSeat { gid: 2, seat: Seat::South }));
    assert!(matches!(report.warnings[5], DryRunWarning::MissingSeat { gid: 2, seat: Seat::West }));
    assert!(matches!(report.warnings[6], DryRunWarning::MissingSeat { gid: 2, seat: Seat::North }));
}

#[test]
fn table_page_end_to_end() {
    let mut store = LeagueStore::new();
    for name in ["Aki", "Bo", "Chen", "Dana"] {
        store.create_player(name.to_string()).unwrap();
    }
    let mut doc = page("Season 3: Table 7");
    doc.rows[1].uma = PointsCell::Read(pts(-5.5));
    doc.rows[1].position = Some("2".to_string());
    let info = extract_table_document(&doc).unwrap();
    let upsert = league_sync::pipeline::sync_record(&mut store, &info).unwrap();
    assert_eq!(store.list_games().len(), 1);
    let game = store.get_game_by_season_and_table(3, 7).unwrap();
    assert_eq!(game.id, upsert.game_id);
    let results: Vec<_> = store.list_results().iter().filter(|r| r.table_id == game.id).copied().collect();
    assert_eq!(results.len(), 4);
    let mut keys: Vec<(i32, i32)> = results.iter().map(|r| (r.table_id, r.player_id)).collect();
    keys.sort();
    keys.dedup();
    assert_eq!(keys.len(), 4);
    let bo = store.get_result_by_table_and_player(game.id, 2).unwrap();
    assert_eq!(bo.result, pts(31000.0));
    assert_eq!(bo.position, 2);
    assert_eq!(bo.uma, pts(-5.5));
    assert_eq!(bo.penalty, pts(0.0));
    assert_eq!(bo.total, pts(40.0));
}
