//! The sync orchestrator: the single-flight guard of runs, the decisions of the paginated
//! fetch loop, and a full run over the bulk export.

use vstd::prelude::*;
use crate::extract::{game_info_from_source, roster_id_for_name, source_id_for_name, source_record, SourceGame, SourcePlayer};
use crate::identity::{resolve_with_source_id, roster_synced, source_resolved, sync_roster_player, IdentityStrategy, RosterChange};
use crate::model::{GameInfo, PlayerResult};
use crate::pipeline::{resolve_seats, resolved_view};
use crate::reconcile::{planned_game, reconcile_record, reconciled, GameUpsert, ResolvedRecord};
use crate::description::description_numbers;
use crate::text::chars_equal;
use crate::store::{has_game_key, same_game_key, LeagueStore, StoreError, StoreView};

verus! {

/// The query of a sync trigger.
#[derive(Debug)]
pub struct SyncParams {
    pub force: Option<String>,
}

impl SyncParams {
    /// A run is asked for only with `force=true`; any other trigger is acknowledged only.
    pub fn wants_full_sync(&self) -> (r: bool)
        ensures
            r == (self.force is Some && self.force->0@ == seq!['t', 'r', 'u', 'e']),
    {
        proof {
            reveal_strlit("true");
        }
        assert("true"@ =~= seq!['t', 'r', 'u', 'e']);
        match &self.force {
            Some(f) => chars_equal(f.as_str(), "true"),
            None => false,
        }
    }
}

/// Where a run stands: the source id last handled and how many records went through.
#[derive(Clone, Copy, Debug, PartialEq, Eq, Structural)]
pub struct SyncProgress {
    pub current_id: u64,
    pub success_count: u64,
}

/// The single-flight state of sync runs. At most one run is in progress; a trigger
/// during a run gets that run's progress instead of a second run.
#[derive(Debug)]
pub struct SyncGuard {
    running: bool,
    progress: SyncProgress,
}

/// What a guard holds: whether a run is in progress, and its last recorded progress.
pub struct GuardView {
    pub running: bool,
    pub progress: SyncProgress,
}

impl View for SyncGuard {
    type V = GuardView;

    closed spec fn view(&self) -> GuardView {
        GuardView { running: self.running, progress: self.progress }
    }
}

/// A trigger's effect on the guard: during a run it is refused with the run's progress
/// and changes nothing; otherwise a run starts from zero.
pub open spec fn trigger_outcome(old: GuardView, new: GuardView, r: Result<(), SyncProgress>) -> bool {
    if old.running {
        r == Err::<(), SyncProgress>(old.progress) && new == old
    } else {
        &&& r == Ok::<(), SyncProgress>(())
        &&& new == (GuardView { running: true, progress: SyncProgress { current_id: 0, success_count: 0 } })
    }
}

impl SyncGuard {
    /// No run in progress.
    pub fn new() -> (r: SyncGuard)
        ensures
            r@ == (GuardView { running: false, progress: SyncProgress { current_id: 0, success_count: 0 } }),
    {
        SyncGuard { running: false, progress: SyncProgress { current_id: 0, success_count: 0 } }
    }

    pub fn is_running(&self) -> (r: bool)
        ensures
            r == self@.running,
    {
        self.running
    }

    pub fn progress(&self) -> (r: SyncProgress)
        ensures
            r == self@.progress,
    {
        self.progress
    }

    /// Starts a run when none is in progress; otherwise hands back the progress of the
    /// run in progress and changes nothing.
    pub fn try_begin(&mut self) -> (r: Result<(), SyncProgress>)
        ensures
            trigger_outcome(old(self)@, final(self)@, r),
    {
        if self.running {
            Err(self.progress)
        } else {
            self.running = true;
            self.progress = SyncProgress { current_id: 0, success_count: 0 };
            Ok(())
        }
    }

    /// Records the progress of the run in progress.
    pub fn record(&mut self, progress: SyncProgress)
        ensures
            final(self)@ == (GuardView { progress, ..old(self)@ }),
    {
        self.progress = progress;
    }

    /// Ends the run, however it ended, so that a later trigger can start a new one.
    pub fn finish(&mut self)
        ensures
            final(self)@ == (GuardView { running: false, ..old(self)@ }),
    {
        self.running = false;
    }
}

/// How a fetch of one page ended.
#[derive(Clone, Copy, Debug, PartialEq, Eq, Structural)]
pub enum FetchOutcome {
    /// The source answered with this HTTP status.
    Status(u16),
    /// The request timed out.
    TimedOut,
    /// No connection could be made.
    ConnectFailed,
    /// Any other transport failure.
    Failed,
}

/// What the paginated loop does after a fetch.
#[derive(Clone, Copy, Debug, PartialEq, Eq, Structural)]
pub enum PageStep {
    /// The source has no more pages (it answers "bad gateway"): the run ends normally.
    Finish,
    /// The page came: extract and reconcile it, then go on with the next id.
    Process,
    /// Any other status: go on with the next id.
    Skip,
    /// A transient network failure: pause, then fetch the same id again.
    RetryAfterPause,
    /// Any other transport failure ends the run.
    Abort,
}

/// The status with which the source says that it has no more pages.
pub const END_OF_DATA_STATUS: u16 = 502;

pub open spec fn page_step_of(o: FetchOutcome) -> PageStep {
    match o {
        FetchOutcome::Status(s) => if s == END_OF_DATA_STATUS {
            PageStep::Finish
        } else if 200 <= s <= 299 {
            PageStep::Process
        } else {
            PageStep::Skip
        },
        FetchOutcome::TimedOut => PageStep::RetryAfterPause,
        FetchOutcome::ConnectFailed => PageStep::RetryAfterPause,
        FetchOutcome::Failed => PageStep::Abort,
    }
}

/// Classifies the outcome of a page fetch.
pub fn page_step(o: FetchOutcome) -> (r: PageStep)
    ensures
        r == page_step_of(o),
{
    match o {
        FetchOutcome::Status(s) => if s == END_OF_DATA_STATUS {
            PageStep::Finish
        } else if 200 <= s && s <= 299 {
            PageStep::Process
        } else {
            PageStep::Skip
        },
        FetchOutcome::TimedOut => PageStep::RetryAfterPause,
        FetchOutcome::ConnectFailed => PageStep::RetryAfterPause,
        FetchOutcome::Failed => PageStep::Abort,
    }
}

/// The position of the paginated loop: the next id to fetch, the pages that came, and
/// the games that were newly saved. Counts stop at `u64::MAX`.
#[derive(Clone, Copy, Debug, PartialEq, Eq, Structural)]
pub struct PageCursor {
    pub id: u64,
    pub success_count: u64,
    pub saved_count: u64,
}

pub open spec fn bumped(x: u64) -> u64 {
    if x == u64::MAX {
        x
    } else {
        (x + 1) as u64
    }
}

impl PageCursor {
    /// The cursor at the start of a run: id 0, nothing counted.
    pub fn new() -> (r: PageCursor)
        ensures
            r == (PageCursor { id: 0, success_count: 0, saved_count: 0 }),
    {
        PageCursor { id: 0, success_count: 0, saved_count: 0 }
    }

    /// Moves on after a step: a processed page counts as a success, and as saved when its
    /// game was created; a processed or skipped page moves to the next id; a retry stays.
    pub fn advance(&mut self, step: PageStep, created: bool)
        ensures
            step == PageStep::Process ==> *final(self) == (PageCursor {
                id: bumped(old(self).id),
                success_count: bumped(old(self).success_count),
                saved_count: if created {
                    bumped(old(self).saved_count)
                } else {
                    old(self).saved_count
                },
            }),
            step == PageStep::Skip ==> *final(self) == (PageCursor {
                id: bumped(old(self).id),
                ..*old(self)
            }),
            step != PageStep::Process && step != PageStep::Skip ==> *final(self) == *old(self),
    {
        match step {
            PageStep::Process => {
                self.id = self.id.saturating_add(1);
                self.success_count = self.success_count.saturating_add(1);
                if created {
                    self.saved_count = self.saved_count.saturating_add(1);
                }
            },
            PageStep::Skip => {
                self.id = self.id.saturating_add(1);
            },
            _ => {},
        }
    }

    /// The progress a trigger during the run reports.
    pub fn progress(&self) -> (r: SyncProgress)
        ensures
            r == (SyncProgress { current_id: self.id, success_count: self.success_count }),
    {
        SyncProgress { current_id: self.id, success_count: self.success_count }
    }
}

/// The counts a full run over the bulk export reports.
#[derive(Clone, Copy, Debug, PartialEq, Eq, Structural)]
pub struct SyncSummary {
    /// Games of the export that went through the pipeline.
    pub processed: u64,
    /// Games that were new and have been created.
    pub saved: u64,
    /// Games that could not be reconciled, for want of ids.
    pub failed: u64,
    /// Roster players created under the export's id.
    pub players_created: u64,
    /// Roster players whose stored name was replaced by the export's.
    pub players_renamed: u64,
}

/// The store after each player of the roster was reconciled in turn.
pub open spec fn roster_applied(old: StoreView, new: StoreView, players: Seq<SourcePlayer>) -> bool
    decreases players.len(),
{
    if players.len() == 0 {
        new == old
    } else {
        exists|mid: StoreView, r: Result<RosterChange, StoreError>|
            roster_applied(old, mid, players.drop_last()) && #[trigger] roster_synced(
                mid,
                new,
                players.last().pid as i32,
                players.last().name@,
                r,
            )
    }
}

/// The store after each name of `rows` was resolved in turn, with the roster's id for it.
pub open spec fn source_names_applied(
    old: StoreView,
    new: StoreView,
    rows: Seq<PlayerResult>,
    roster: Seq<SourcePlayer>,
) -> bool
    decreases rows.len(),
{
    if rows.len() == 0 {
        new == old
    } else {
        exists|mid: StoreView, r: Result<(i32, IdentityStrategy), StoreError>|
            source_names_applied(old, mid, rows.drop_last(), roster) && #[trigger] source_resolved(
                mid,
                new,
                rows.last().player_name@,
                roster_id_for_name(roster, rows.last().player_name@),
                r,
            )
    }
}

/// One game of the export through the pipeline: extracted, its names resolved, its
/// seats looked up, its game and results reconciled, with outcome `r`.
pub open spec fn export_game_synced(
    old: StoreView,
    new: StoreView,
    game: SourceGame,
    roster: Seq<SourcePlayer>,
    r: Result<GameUpsert, StoreError>,
) -> bool {
    exists|info: GameInfo, mid: StoreView, rec: ResolvedRecord|
        #![trigger source_record(game, roster, info), reconciled(mid, new, rec, r)]
        source_record(game, roster, info) && source_names_applied(
            old,
            mid,
            info.player_results@,
            roster,
        ) && mid.well_formed() && resolved_view(info, mid.players, rec) && reconciled(mid, new, rec, r)
}

/// The store after each game of the export went through the pipeline in turn.
pub open spec fn export_applied(
    old: StoreView,
    new: StoreView,
    games: Seq<SourceGame>,
    roster: Seq<SourcePlayer>,
) -> bool
    decreases games.len(),
{
    if games.len() == 0 {
        new == old
    } else {
        exists|mid: StoreView, r: Result<GameUpsert, StoreError>|
            export_applied(old, mid, games.drop_last(), roster) && #[trigger] export_game_synced(
                mid,
                new,
                games.last(),
                roster,
                r,
            )
    }
}

/// Reconciles the export's roster: each player's id is kept, renamed or created.
fn sync_roster(store: &mut LeagueStore, players: &Vec<SourcePlayer>) -> (r: (u64, u64))
    requires
        old(store)@.well_formed(),
    ensures
        final(store)@.well_formed(),
        roster_applied(old(store)@, final(store)@, players@),
        final(store)@.games == old(store)@.games,
        final(store)@.results == old(store)@.results,
        final(store)@.next_game_id == old(store)@.next_game_id,
        final(store)@.next_result_id == old(store)@.next_result_id,
{
    let mut created: u64 = 0;
    let mut renamed: u64 = 0;
    let mut k: usize = 0;
    while k < players.len()
        invariant
            k <= players@.len(),
            store@.well_formed(),
            roster_applied(old(store)@, store@, players@.take(k as int)),
            store@.games == old(store)@.games,
            store@.results == old(store)@.results,
            store@.next_game_id == old(store)@.next_game_id,
            store@.next_result_id == old(store)@.next_result_id,
        decreases players@.len() - k,
    {
        let p = &players[k];
        let ghost before = store@;
        let r = sync_roster_player(store, p.pid as i32, &p.name);
        proof {
            let done = players@.take(k + 1);
            assert(done.drop_last() =~= players@.take(k as int));
            assert(roster_synced(before, store@, done.last().pid as i32, done.last().name@, r));
        }
        match r {
            Ok(RosterChange::Created) => created = created.saturating_add(1),
            Ok(RosterChange::Renamed) => renamed = renamed.saturating_add(1),
            _ => {},
        }
        k = k + 1;
    }
    assert(players@.take(players@.len() as int) =~= players@);
    (created, renamed)
}

/// Resolves every name of a record, with the id the roster gives the name, if any.
fn resolve_source_names(store: &mut LeagueStore, info: &GameInfo, players: &Vec<SourcePlayer>)
    requires
        old(store)@.well_formed(),
    ensures
        final(store)@.well_formed(),
        source_names_applied(old(store)@, final(store)@, info.player_results@, players@),
        final(store)@.games == old(store)@.games,
        final(store)@.results == old(store)@.results,
        final(store)@.next_game_id == old(store)@.next_game_id,
        final(store)@.next_result_id == old(store)@.next_result_id,
{
    let mut k: usize = 0;
    while k < info.player_results.len()
        invariant
            k <= info.player_results@.len(),
            store@.well_formed(),
            source_names_applied(old(store)@, store@, info.player_results@.take(k as int), players@),
            store@.games == old(store)@.games,
            store@.results == old(store)@.results,
            store@.next_game_id == old(store)@.next_game_id,
            store@.next_result_id == old(store)@.next_result_id,
        decreases info.player_results@.len() - k,
    {
        let name = &info.player_results[k].player_name;
        let source_id = source_id_for_name(players, name);
        let ghost before = store@;
        let r = resolve_with_source_id(store, name, source_id);
        proof {
            let done = info.player_results@.take(k + 1);
            assert(done.drop_last() =~= info.player_results@.take(k as int));
            assert(source_resolved(
                before,
                store@,
                done.last().player_name@,
                roster_id_for_name(players@, done.last().player_name@),
                r,
            ));
        }
        k = k + 1;
    }
    assert(info.player_results@.take(info.player_results@.len() as int) =~= info.player_results@);
}

/// Games are only added or overwritten under the same key, so every key stays.
proof fn lemma_game_keys_stay(old: StoreView, new: StoreView, rec: ResolvedRecord, r: Result<GameUpsert, StoreError>)
    requires
        reconciled(old, new, rec, r),
    ensures
        forall|s: i32, t: i32| has_game_key(old, s, t) ==> #[trigger] has_game_key(new, s, t),
        has_game_key(new, rec.season_num, rec.table_num) || r is Err,
        r is Ok ==> new.games.len() == old.games.len() + if r->Ok_0.created {
            1int
        } else {
            0int
        },
        r is Err ==> new == old,
{
    if r is Ok {
        assert forall|s: i32, t: i32| has_game_key(old, s, t) implies #[trigger] has_game_key(new, s, t) by {
            let i = choose|i: int| 0 <= i < old.games.len() && same_game_key(old.games[i], s, t);
            if new.games.len() > old.games.len() {
                assert(same_game_key(new.games[i], s, t));
            } else {
                let j = choose|j: int|
                    0 <= j < old.games.len() && same_game_key(old.games[j], rec.season_num, rec.table_num)
                        && old.games[j].id == r->Ok_0.game_id && new.games == old.games.update(
                        j,
                        planned_game(rec, r->Ok_0.game_id),
                    );
                assert(same_game_key(new.games[i], s, t));
            }
        }
        if new.games.len() > old.games.len() {
            assert(same_game_key(new.games[old.games.len() as int], rec.season_num, rec.table_num));
        } else {
            let j = choose|j: int|
                0 <= j < old.games.len() && same_game_key(old.games[j], rec.season_num, rec.table_num)
                    && old.games[j].id == r->Ok_0.game_id && new.games == old.games.update(
                    j,
                    planned_game(rec, r->Ok_0.game_id),
                );
            assert(same_game_key(new.games[j], rec.season_num, rec.table_num));
        }
    }
}

/// A full run over the bulk export, one game at a time and in order: the roster is
/// reconciled first, then each game is extracted, its names resolved and its game and
/// results reconciled. A game that fails does not stop the run. The guard records the
/// progress after each game.
pub fn sync_export(
    store: &mut LeagueStore,
    guard: &mut SyncGuard,
    players: &Vec<SourcePlayer>,
    games: &Vec<SourceGame>,
) -> (r: SyncSummary)
    requires
        old(store)@.well_formed(),
    ensures
        final(store)@.well_formed(),
        final(guard)@.running == old(guard)@.running,
        exists|rostered: StoreView|
            roster_applied(old(store)@, rostered, players@) && export_applied(
                rostered,
                final(store)@,
                games@,
                players@,
            ),
        r.processed == games@.len(),
        r.saved + old(store)@.games.len() == final(store)@.games.len(),
        r.failed <= r.processed,
        r.failed == 0 ==> forall|k: int|
            0 <= k < games@.len() ==> {
                let (s, t) = description_numbers(
                    #[trigger] games@[k].description@,
                    games@[k].gid as i32,
                );
                has_game_key(final(store)@, s, t)
            },
{
    let (players_created, players_renamed) = sync_roster(store, players);
    let ghost start = store@;
    let mut processed: u64 = 0;
    let mut saved: u64 = 0;
    let mut failed: u64 = 0;
    let mut k: usize = 0;
    while k < games.len()
        invariant
            k <= games@.len(),
            processed == k,
            failed <= processed,
            store@.well_formed(),
            old(store)@.games.len() + saved == store@.games.len(),
            start.games == old(store)@.games,
            roster_applied(old(store)@, start, players@),
            export_applied(start, store@, games@.take(k as int), players@),
            saved <= k,
            guard@.running == old(guard)@.running,
            failed == 0 ==> forall|j: int|
                0 <= j < k ==> {
                    let (s, t) = description_numbers(
                        #[trigger] games@[j].description@,
                        games@[j].gid as i32,
                    );
                    has_game_key(store@, s, t)
                },
        decreases games@.len() - k,
    {
        let game = &games[k];
        let ghost entry = store@;
        let info = game_info_from_source(game, players);
        resolve_source_names(store, &info, players);
        let ghost before = store@;
        let rec = resolve_seats(store, &info);
        let r = reconcile_record(store, &rec);
        proof {
            lemma_game_keys_stay(before, store@, rec, r);
            assert(export_game_synced(entry, store@, games@[k as int], players@, r));
            let done = games@.take(k + 1);
            assert(done.drop_last() =~= games@.take(k as int));
            assert(done.last() == games@[k as int]);
        }
        match r {
            Ok(u) => {
                if u.created {
                    saved = saved + 1;
                }
            },
            Err(_) => {
                failed = failed + 1;
            },
        }
        processed = processed + 1;
        guard.record(SyncProgress { current_id: game.gid, success_count: processed });
        k = k + 1;
    }
    assert(games@.take(games@.len() as int) =~= games@);
    SyncSummary { processed, saved, failed, players_created, players_renamed }
}

} // verus!
