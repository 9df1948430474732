//! The decisions of the snapshot reload cycle.
//!
//! The pipeline is a state machine. Its caller owns the timer, the file, the
//! store and the lock: it performs the action that a step hands out and
//! reports what came of it as the next event. The pipeline owns the refresh
//! state and decides.
//!
//! The swap drops the live table and renames the shadow table inside one
//! transaction. A reader that does not see the store through that
//! transaction's isolation may find the table missing for the moment
//! between the two statements; that window is inherent to a swap by rename.

use vstd::prelude::*;

verus! {

/// The value of `RefreshState::last_update` before any snapshot was applied.
pub const NEVER: i128 = 0;

/// Nanoseconds in one second.
pub const NANOS_PER_SECOND: i128 = 1_000_000_000;

/// When the last snapshot was applied: the modification time of its file, in
/// nanoseconds since the Unix epoch, or `NEVER`.
#[derive(Clone, Copy, Debug, PartialEq, Eq, Structural)]
pub struct RefreshState {
    pub last_update: i128,
}

/// The statements of one import, in the order in which they run.
#[derive(Clone, Copy, Debug, PartialEq, Eq, Structural)]
pub enum Statement {
    /// Drop a shadow table that an earlier failed attempt left behind.
    DropShadow,
    /// Create the shadow table with the schema of the live table.
    CreateShadow,
    /// Load the rows of the snapshot file into the shadow table.
    LoadSnapshot,
    /// Drop the live table.
    DropLive,
    /// Give the shadow table the name of the live table.
    RenameShadow,
}

/// Where a reload cycle stands, and with it which event comes next.
#[derive(Clone, Copy, Debug, PartialEq, Eq, Structural)]
pub enum Phase {
    /// Between cycles; awaits `Tick`.
    Idle,
    /// Holds the lock; awaits `Probed`.
    Checking,
    /// Awaits `Stat`.
    Comparing,
    /// Awaits `Begun`; `modified` is the modification time of the file.
    Opening { modified: i128 },
    /// Awaits `Executed` for the statement `next`; `failed` tells whether an
    /// earlier statement of this import failed.
    Importing { modified: i128, next: Statement, failed: bool },
    /// Awaits `Committed`.
    Committing { modified: i128 },
    /// The swap is committed; awaits `Maintained`.
    Committed { modified: i128 },
    /// The import failed; awaits `RolledBack`.
    Failed,
    /// Awaits `Rested`.
    Cooling,
}

/// What the caller reports.
#[derive(Clone, Copy, Debug, PartialEq, Eq, Structural)]
pub enum ReloadEvent {
    /// The timer fired.
    Tick,
    /// Whether the snapshot file exists, and the time by the clock.
    Probed { exists: bool, now: i128 },
    /// The modification time of the snapshot file.
    Stat { modified: i128 },
    /// Whether a transaction was opened.
    Begun { ok: bool },
    /// Whether the statement last handed out succeeded.
    Executed { ok: bool },
    /// Whether the transaction was committed.
    Committed { ok: bool },
    /// Whether the maintenance pass succeeded.
    Maintained { ok: bool },
    /// Whether the transaction was rolled back.
    RolledBack { ok: bool },
    /// The cooldown is over.
    Rested,
}

/// What the caller is to do next.
#[derive(Clone, Copy, Debug, PartialEq, Eq, Structural)]
pub enum ReloadAction {
    /// Release the lock and wait for the next tick.
    AwaitTick,
    /// Take the lock, look whether the snapshot file exists, read the clock.
    Probe,
    /// Read the modification time of the snapshot file.
    StatFile,
    /// Open a transaction.
    Begin,
    /// Run one statement inside the transaction.
    Execute { statement: Statement },
    /// Commit the transaction.
    Commit,
    /// Roll the transaction back.
    Rollback,
    /// Run the maintenance pass on the live table, outside any transaction.
    Maintain,
    /// Sleep for this many seconds.
    Cooldown { seconds: u64 },
    /// The event is not the one that the phase awaits; nothing was changed.
    Unexpected,
}

/// The reload pipeline: the refresh state, the phase of the cycle in flight
/// and the least time between two looks at the snapshot file.
#[derive(Clone, Copy, Debug, PartialEq, Eq, Structural)]
pub struct ReloadPipeline {
    pub refresh: RefreshState,
    pub phase: Phase,
    pub recheck_seconds: u64,
}

/// The time that has passed at `now` since `last`, in nanoseconds; none
/// where `now` is not later than `last`.
pub open spec fn elapsed_since(last: int, now: int) -> int {
    if now > last {
        now - last
    } else {
        0
    }
}

/// Whether at least `seconds` have passed at `now` since `last`.
pub open spec fn recheck_is_due(last: int, now: int, seconds: int) -> bool {
    elapsed_since(last, now) >= seconds * NANOS_PER_SECOND
}

/// Whether a look at the snapshot file is in order: the file exists, and no
/// snapshot was applied yet or the last one was applied long enough ago.
pub open spec fn should_check(refresh: RefreshState, exists: bool, now: int, seconds: int) -> bool {
    exists && (refresh.last_update == NEVER || recheck_is_due(
        refresh.last_update as int,
        now,
        seconds,
    ))
}

/// Whether the snapshot file is to be imported: no snapshot was applied yet,
/// or the file is newer than the one applied last.
pub open spec fn should_import(refresh: RefreshState, modified: int) -> bool {
    refresh.last_update == NEVER || modified > refresh.last_update
}

/// The statement that runs after `statement`, if one does.
pub open spec fn following(statement: Statement) -> Option<Statement> {
    match statement {
        Statement::DropShadow => Some(Statement::CreateShadow),
        Statement::CreateShadow => Some(Statement::LoadSnapshot),
        Statement::LoadSnapshot => Some(Statement::DropLive),
        Statement::DropLive => Some(Statement::RenameShadow),
        Statement::RenameShadow => None,
    }
}

/// The pipeline and the action after one event.
pub open spec fn step_of(pipeline: ReloadPipeline, event: ReloadEvent) -> (
    ReloadPipeline,
    ReloadAction,
) {
    match (pipeline.phase, event) {
        (Phase::Idle, ReloadEvent::Tick) => (
            ReloadPipeline { phase: Phase::Checking, ..pipeline },
            ReloadAction::Probe,
        ),
        (Phase::Checking, ReloadEvent::Probed { exists, now }) => if should_check(
            pipeline.refresh,
            exists,
            now as int,
            pipeline.recheck_seconds as int,
        ) {
            (ReloadPipeline { phase: Phase::Comparing, ..pipeline }, ReloadAction::StatFile)
        } else {
            (ReloadPipeline { phase: Phase::Idle, ..pipeline }, ReloadAction::AwaitTick)
        },
        (Phase::Comparing, ReloadEvent::Stat { modified }) => if should_import(
            pipeline.refresh,
            modified as int,
        ) {
            (ReloadPipeline { phase: Phase::Opening { modified }, ..pipeline }, ReloadAction::Begin)
        } else {
            (ReloadPipeline { phase: Phase::Idle, ..pipeline }, ReloadAction::AwaitTick)
        },
        (Phase::Opening { modified }, ReloadEvent::Begun { ok }) => if ok {
            (
                ReloadPipeline {
                    phase: Phase::Importing {
                        modified,
                        next: Statement::DropShadow,
                        failed: false,
                    },
                    ..pipeline
                },
                ReloadAction::Execute { statement: Statement::DropShadow },
            )
        } else {
            (ReloadPipeline { phase: Phase::Idle, ..pipeline }, ReloadAction::AwaitTick)
        },
        (Phase::Importing { modified, next, failed }, ReloadEvent::Executed { ok }) => match following(
            next,
        ) {
            Some(statement) => (
                ReloadPipeline {
                    phase: Phase::Importing { modified, next: statement, failed: failed || !ok },
                    ..pipeline
                },
                ReloadAction::Execute { statement },
            ),
            None => if failed || !ok {
                (ReloadPipeline { phase: Phase::Failed, ..pipeline }, ReloadAction::Rollback)
            } else {
                (
                    ReloadPipeline { phase: Phase::Committing { modified }, ..pipeline },
                    ReloadAction::Commit,
                )
            },
        },
        (Phase::Committing { modified }, ReloadEvent::Committed { ok }) => if ok {
            (
                ReloadPipeline { phase: Phase::Committed { modified }, ..pipeline },
                ReloadAction::Maintain,
            )
        } else {
            (ReloadPipeline { phase: Phase::Idle, ..pipeline }, ReloadAction::AwaitTick)
        },
        (Phase::Committed { modified }, ReloadEvent::Maintained { ok }) => (
            ReloadPipeline {
                phase: Phase::Cooling,
                refresh: RefreshState { last_update: modified },
                ..pipeline
            },
            ReloadAction::Cooldown { seconds: pipeline.recheck_seconds },
        ),
        (Phase::Failed, ReloadEvent::RolledBack { ok }) => (
            ReloadPipeline { phase: Phase::Idle, ..pipeline },
            ReloadAction::AwaitTick,
        ),
        (Phase::Cooling, ReloadEvent::Rested) => (
            ReloadPipeline { phase: Phase::Idle, ..pipeline },
            ReloadAction::AwaitTick,
        ),
        _ => (pipeline, ReloadAction::Unexpected),
    }
}

impl RefreshState {
    /// The state before any snapshot was applied.
    pub fn new() -> (state: RefreshState)
        ensures
            state.last_update == NEVER,
    {
        RefreshState { last_update: NEVER }
    }

    /// Decides whether a look at the snapshot file is in order.
    pub fn due_for_check(&self, exists: bool, now: i128, recheck_seconds: u64) -> (due: bool)
        ensures
            due == should_check(*self, exists, now as int, recheck_seconds as int),
    {
        if !exists {
            return false;
        }
        if self.last_update == NEVER {
            return true;
        }
        if now <= self.last_update {
            return recheck_seconds == 0;
        }
        let interval: i128 = (recheck_seconds as i128) * NANOS_PER_SECOND;
        match now.checked_sub(self.last_update) {
            Some(elapsed) => elapsed >= interval,
            None => true,
        }
    }

    /// Decides whether a snapshot file modified at `modified` is to be
    /// imported.
    pub fn due_for_import(&self, modified: i128) -> (due: bool)
        ensures
            due == should_import(*self, modified as int),
    {
        self.last_update == NEVER || modified > self.last_update
    }
}

/// The statement that runs after `statement`, if one does.
pub fn next_statement(statement: Statement) -> (next: Option<Statement>)
    ensures
        next == following(statement),
{
    match statement {
        Statement::DropShadow => Some(Statement::CreateShadow),
        Statement::CreateShadow => Some(Statement::LoadSnapshot),
        Statement::LoadSnapshot => Some(Statement::DropLive),
        Statement::DropLive => Some(Statement::RenameShadow),
        Statement::RenameShadow => None,
    }
}

impl ReloadPipeline {
    /// A pipeline between cycles, around the given refresh state.
    pub fn new(refresh: RefreshState, recheck_seconds: u64) -> (pipeline: ReloadPipeline)
        ensures
            pipeline.refresh == refresh,
            pipeline.phase == Phase::Idle,
            pipeline.recheck_seconds == recheck_seconds,
    {
        ReloadPipeline { refresh, phase: Phase::Idle, recheck_seconds }
    }

    /// Takes one event, moves to the next phase and hands out the next
    /// action.
    pub fn step(&mut self, event: ReloadEvent) -> (action: ReloadAction)
        ensures
            (*final(self), action) == step_of(*old(self), event),
    {
        match (self.phase, event) {
            (Phase::Idle, ReloadEvent::Tick) => {
                self.phase = Phase::Checking;
                ReloadAction::Probe
            },
            (Phase::Checking, ReloadEvent::Probed { exists, now }) => {
                if self.refresh.due_for_check(exists, now, self.recheck_seconds) {
                    self.phase = Phase::Comparing;
                    ReloadAction::StatFile
                } else {
                    self.phase = Phase::Idle;
                    ReloadAction::AwaitTick
                }
            },
            (Phase::Comparing, ReloadEvent::Stat { modified }) => {
                if self.refresh.due_for_import(modified) {
                    self.phase = Phase::Opening { modified };
                    ReloadAction::Begin
                } else {
                    self.phase = Phase::Idle;
                    ReloadAction::AwaitTick
                }
            },
            (Phase::Opening { modified }, ReloadEvent::Begun { ok }) => {
                if ok {
                    self.phase =
                    Phase::Importing { modified, next: Statement::DropShadow, failed: false };
                    ReloadAction::Execute { statement: Statement::DropShadow }
                } else {
                    self.phase = Phase::Idle;
                    ReloadAction::AwaitTick
                }
            },
            (Phase::Importing { modified, next, failed }, ReloadEvent::Executed { ok }) => {
                match next_statement(next) {
                    Some(statement) => {
                        self.phase =
                        Phase::Importing { modified, next: statement, failed: failed || !ok };
                        ReloadAction::Execute { statement }
                    },
                    None => {
                        if failed || !ok {
                            self.phase = Phase::Failed;
                            ReloadAction::Rollback
                        } else {
                            self.phase = Phase::Committing { modified };
                            ReloadAction::Commit
                        }
                    },
                }
            },
            (Phase::Committing { modified }, ReloadEvent::Committed { ok }) => {
                if ok {
                    self.phase = Phase::Committed { modified };
                    ReloadAction::Maintain
                } else {
                    self.phase = Phase::Idle;
                    ReloadAction::AwaitTick
                }
            },
            (Phase::Committed { modified }, ReloadEvent::Maintained { ok: _ }) => {
                self.refresh = RefreshState { last_update: modified };
                self.phase = Phase::Cooling;
                ReloadAction::Cooldown { seconds: self.recheck_seconds }
            },
            (Phase::Failed, ReloadEvent::RolledBack { ok: _ }) => {
                self.phase = Phase::Idle;
                ReloadAction::AwaitTick
            },
            (Phase::Cooling, ReloadEvent::Rested) => {
                self.phase = Phase::Idle;
                ReloadAction::AwaitTick
            },
            _ => ReloadAction::Unexpected,
        }
    }
}

/// The text of one statement of the import; `csv_path` is the path of the
/// snapshot file as the store is to read it.
pub open spec fn statement_text(statement: Statement, csv_path: Seq<char>) -> Seq<char> {
    match statement {
        Statement::DropShadow => "DROP TABLE IF EXISTS \"sponsorTimesTemp\""@,
        Statement::CreateShadow => "CREATE UNLOGGED TABLE \"sponsorTimesTemp\"(LIKE \"sponsorTimes\" INCLUDING defaults INCLUDING constraints INCLUDING indexes)"@,
        Statement::LoadSnapshot => "COPY \"sponsorTimesTemp\" FROM '"@ + csv_path
            + "' DELIMITER ',' CSV HEADER"@,
        Statement::DropLive => "DROP TABLE \"sponsorTimes\""@,
        Statement::RenameShadow => "ALTER TABLE \"sponsorTimesTemp\" RENAME TO \"sponsorTimes\""@,
    }
}

/// The text of the maintenance pass on the live table.
pub open spec fn maintenance_text() -> Seq<char> {
    "VACUUM \"sponsorTimes\""@
}

/// Writes out one statement of the import. The snapshot file is comma
/// separated and begins with a header row.
pub fn statement_sql(statement: Statement, csv_path: &str) -> (sql: String)
    ensures
        sql@ == statement_text(statement, csv_path@),
{
    match statement {
        Statement::DropShadow => String::from_str("DROP TABLE IF EXISTS \"sponsorTimesTemp\""),
        Statement::CreateShadow => String::from_str(
            "CREATE UNLOGGED TABLE \"sponsorTimesTemp\"(LIKE \"sponsorTimes\" INCLUDING defaults INCLUDING constraints INCLUDING indexes)",
        ),
        Statement::LoadSnapshot => {
            let mut sql = String::from_str("COPY \"sponsorTimesTemp\" FROM '");
            sql.append(csv_path);
            sql.append("' DELIMITER ',' CSV HEADER");
            sql
        },
        Statement::DropLive => String::from_str("DROP TABLE \"sponsorTimes\""),
        Statement::RenameShadow => String::from_str(
            "ALTER TABLE \"sponsorTimesTemp\" RENAME TO \"sponsorTimes\"",
        ),
    }
}

/// Writes out the maintenance pass on the live table.
pub fn maintenance_sql() -> (sql: String)
    ensures
        sql@ == maintenance_text(),
{
    String::from_str("VACUUM \"sponsorTimes\"")
}

/// The pipeline after a run of events.
pub open spec fn run(pipeline: ReloadPipeline, events: Seq<ReloadEvent>) -> ReloadPipeline
    decreases events.len(),
{
    if events.len() == 0 {
        pipeline
    } else {
        step_of(run(pipeline, events.drop_last()), events.last()).0
    }
}

/// The action that event `i` of a run of events brings.
pub open spec fn action_at(pipeline: ReloadPipeline, events: Seq<ReloadEvent>, i: int) -> ReloadAction {
    step_of(run(pipeline, events.take(i)), events[i]).1
}

/// Whether the pipeline stays out of `Idle` through the first `i` events of
/// a run, the start included.
pub open spec fn in_flight_through(
    pipeline: ReloadPipeline,
    events: Seq<ReloadEvent>,
    i: int,
) -> bool {
    forall|j: int| 0 <= j <= i ==> (#[trigger] run(pipeline, events.take(j))).phase != Phase::Idle
}

/// Whether the import in flight has a failed statement behind it.
pub open spec fn import_has_failed(phase: Phase) -> bool {
    match phase {
        Phase::Importing { failed, .. } => failed,
        Phase::Failed => true,
        _ => false,
    }
}

/// A snapshot file that is not newer than the one applied last is left
/// alone: no transaction is opened, the refresh state stays as it is, and the
/// cycle is over.
pub proof fn unchanged_snapshot_is_left_alone(pipeline: ReloadPipeline, modified: i128)
    requires
        pipeline.phase == Phase::Comparing,
        pipeline.refresh.last_update != NEVER,
        modified <= pipeline.refresh.last_update,
    ensures
        step_of(pipeline, ReloadEvent::Stat { modified }) == (
            ReloadPipeline { phase: Phase::Idle, ..pipeline },
            ReloadAction::AwaitTick,
        ),
{
}

/// A transaction is opened only for a snapshot file that is to be imported:
/// the first one, or one newer than the one applied last.
pub proof fn transaction_needs_newer_snapshot(pipeline: ReloadPipeline, event: ReloadEvent)
    requires
        step_of(pipeline, event).1 == ReloadAction::Begin,
    ensures
        pipeline.phase == Phase::Comparing,
        event is Stat,
        should_import(pipeline.refresh, event->modified as int),
{
}

/// The transaction is committed only behind the last statement, when that
/// one and all before it succeeded.
pub proof fn commit_needs_every_statement(pipeline: ReloadPipeline, event: ReloadEvent)
    requires
        step_of(pipeline, event).1 == ReloadAction::Commit,
    ensures
        pipeline.phase is Importing,
        pipeline.phase->next == Statement::RenameShadow,
        !pipeline.phase->failed,
        event == (ReloadEvent::Executed { ok: true }),
{
}

/// The refresh state changes only when the maintenance pass behind a
/// committed swap is over, and then to the modification time of the file
/// that was imported.
pub proof fn refresh_follows_committed_swap(pipeline: ReloadPipeline, event: ReloadEvent)
    requires
        step_of(pipeline, event).0.refresh != pipeline.refresh,
    ensures
        pipeline.phase is Committed,
        event is Maintained,
        step_of(pipeline, event).0.refresh.last_update == pipeline.phase->Committed_modified,
{
}

/// While a cycle is in flight a tick changes nothing: no second cycle
/// begins.
pub proof fn tick_in_flight_changes_nothing(pipeline: ReloadPipeline)
    requires
        pipeline.phase != Phase::Idle,
    ensures
        step_of(pipeline, ReloadEvent::Tick) == (pipeline, ReloadAction::Unexpected),
{
}

/// A failed statement dooms its import: the statement's step and every step
/// after it bring neither a commit nor the maintenance pass and leave the
/// refresh state as it was.
pub proof fn failed_statement_dooms_import(pipeline: ReloadPipeline, event: ReloadEvent)
    requires
        import_has_failed(pipeline.phase) || (pipeline.phase is Importing && event
            == (ReloadEvent::Executed { ok: false })),
    ensures
        step_of(pipeline, event).1 != ReloadAction::Commit,
        step_of(pipeline, event).1 != ReloadAction::Maintain,
        step_of(pipeline, event).0.refresh == pipeline.refresh,
        import_has_failed(step_of(pipeline, event).0.phase) || step_of(pipeline, event).0.phase
            == Phase::Idle,
{
}

/// Whatever events follow a failed statement, until the pipeline is idle
/// again no step brings a commit or the maintenance pass, and the refresh
/// state stays as it was.
pub proof fn failed_import_leaves_refresh_untouched(
    pipeline: ReloadPipeline,
    events: Seq<ReloadEvent>,
    i: int,
)
    requires
        import_has_failed(pipeline.phase),
        0 <= i < events.len(),
        in_flight_through(pipeline, events, i),
    ensures
        action_at(pipeline, events, i) != ReloadAction::Commit,
        action_at(pipeline, events, i) != ReloadAction::Maintain,
        run(pipeline, events.take(i + 1)).refresh == pipeline.refresh,
        import_has_failed(run(pipeline, events.take(i)).phase),
    decreases i,
{
    let here = run(pipeline, events.take(i));
    assert(events.take(i + 1).drop_last() =~= events.take(i));
    assert(events.take(i + 1).last() == events[i]);
    assert(run(pipeline, events.take(i + 1)) == step_of(here, events[i]).0);
    assert(here.phase != Phase::Idle);
    if i == 0 {
        assert(here == pipeline);
    } else {
        assert(in_flight_through(pipeline, events, i - 1));
        failed_import_leaves_refresh_untouched(pipeline, events, i - 1);
        let before = run(pipeline, events.take(i - 1));
        assert(events.take(i).drop_last() =~= events.take(i - 1));
        assert(events.take(i).last() == events[i - 1]);
        assert(here == step_of(before, events[i - 1]).0);
        assert(here.refresh == pipeline.refresh);
    }
}

/// A run goes on by one step with each event.
pub proof fn run_goes_on(pipeline: ReloadPipeline, events: Seq<ReloadEvent>, k: int)
    requires
        0 <= k < events.len(),
    ensures
        run(pipeline, events.take(0)) == pipeline,
        run(pipeline, events.take(k + 1)) == step_of(run(pipeline, events.take(k)), events[k]).0,
        run(pipeline, events.take(events.len() as int)) == run(pipeline, events),
{
    assert(events.take(k + 1).drop_last() =~= events.take(k));
    assert(events.take(k + 1).last() == events[k]);
    assert(events.take(events.len() as int) =~= events);
}

/// The events of a cycle in which everything succeeds, from the tick to the
/// end of the cooldown; `maintained` tells how the maintenance pass came
/// out.
pub open spec fn clean_cycle(now: i128, modified: i128, maintained: bool) -> Seq<ReloadEvent> {
    seq![
        ReloadEvent::Tick,
        ReloadEvent::Probed { exists: true, now },
        ReloadEvent::Stat { modified },
        ReloadEvent::Begun { ok: true },
        ReloadEvent::Executed { ok: true },
        ReloadEvent::Executed { ok: true },
        ReloadEvent::Executed { ok: true },
        ReloadEvent::Executed { ok: true },
        ReloadEvent::Executed { ok: true },
        ReloadEvent::Committed { ok: true },
        ReloadEvent::Maintained { ok: maintained },
        ReloadEvent::Rested,
    ]
}

/// A cycle in which the file is due and every step up to the commit
/// succeeds runs the five statements in order, commits, and leaves the
/// pipeline idle with the modification time of the file as its refresh
/// state, however the maintenance pass came out.
pub proof fn clean_cycle_records_the_file(
    pipeline: ReloadPipeline,
    now: i128,
    modified: i128,
    maintained: bool,
)
    requires
        pipeline.phase == Phase::Idle,
        should_check(pipeline.refresh, true, now as int, pipeline.recheck_seconds as int),
        should_import(pipeline.refresh, modified as int),
    ensures
        run(pipeline, clean_cycle(now, modified, maintained)) == (ReloadPipeline {
            phase: Phase::Idle,
            refresh: RefreshState { last_update: modified },
            ..pipeline
        }),
        action_at(pipeline, clean_cycle(now, modified, maintained), 3) == (ReloadAction::Execute {
            statement: Statement::DropShadow,
        }),
        action_at(pipeline, clean_cycle(now, modified, maintained), 4) == (ReloadAction::Execute {
            statement: Statement::CreateShadow,
        }),
        action_at(pipeline, clean_cycle(now, modified, maintained), 5) == (ReloadAction::Execute {
            statement: Statement::LoadSnapshot,
        }),
        action_at(pipeline, clean_cycle(now, modified, maintained), 6) == (ReloadAction::Execute {
            statement: Statement::DropLive,
        }),
        action_at(pipeline, clean_cycle(now, modified, maintained), 7) == (ReloadAction::Execute {
            statement: Statement::RenameShadow,
        }),
        action_at(pipeline, clean_cycle(now, modified, maintained), 8) == ReloadAction::Commit,
        action_at(pipeline, clean_cycle(now, modified, maintained), 9) == ReloadAction::Maintain,
{
    let events = clean_cycle(now, modified, maintained);
    run_goes_on(pipeline, events, 0);
    run_goes_on(pipeline, events, 1);
    run_goes_on(pipeline, events, 2);
    run_goes_on(pipeline, events, 3);
    run_goes_on(pipeline, events, 4);
    run_goes_on(pipeline, events, 5);
    run_goes_on(pipeline, events, 6);
    run_goes_on(pipeline, events, 7);
    run_goes_on(pipeline, events, 8);
    run_goes_on(pipeline, events, 9);
    run_goes_on(pipeline, events, 10);
    run_goes_on(pipeline, events, 11);
    assert(run(pipeline, events.take(1)).phase == Phase::Checking);
    assert(run(pipeline, events.take(2)).phase == Phase::Comparing);
    assert(run(pipeline, events.take(3)).phase == Phase::Opening { modified });
    assert(run(pipeline, events.take(4)).phase == Phase::Importing {
        modified,
        next: Statement::DropShadow,
        failed: false,
    });
    assert(run(pipeline, events.take(5)).phase == Phase::Importing {
        modified,
        next: Statement::CreateShadow,
        failed: false,
    });
    assert(run(pipeline, events.take(6)).phase == Phase::Importing {
        modified,
        next: Statement::LoadSnapshot,
        failed: false,
    });
    assert(run(pipeline, events.take(7)).phase == Phase::Importing {
        modified,
        next: Statement::DropLive,
        failed: false,
    });
    assert(run(pipeline, events.take(8)).phase == Phase::Importing {
        modified,
        next: Statement::RenameShadow,
        failed: false,
    });
    assert(run(pipeline, events.take(9)).phase == Phase::Committing { modified });
    assert(run(pipeline, events.take(10)).phase == Phase::Committed { modified });
    assert(run(pipeline, events.take(11)).phase == Phase::Cooling);
    assert(run(pipeline, events.take(12)).phase == Phase::Idle);
}

} // verus!
