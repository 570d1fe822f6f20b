//! A migration run, one store operation at a time.
//!
//! A run never touches the store or the units itself. [`begin`] and
//! [`resume`] say what to do next, the caller does it and reports how it
//! went, and so on until the run is [`MigrationStep::Done`]. The order of
//! operations, what counts as fatal and what does not are all decided here.
//!
//! A unit is applied as one piece of work: its batch and its entry on the
//! ledger are asked for together, and the caller makes them one transaction,
//! so that the store keeps both or neither.

use crate::metadata::plan::{
    lemma_plan_exists, names_view, plan_of, plan_units, plan_view, theorem_plan_unique,
    PendingUnit, PlannedUnit,
};
use vstd::prelude::*;

verus! {

/// Counts the ledger tables: one when the ledger is there, none when the
/// store has never been migrated.
pub const LEDGER_EXISTS: &'static str =
    "SELECT COUNT(*) FROM sqlite_master WHERE type = 'table' AND name = 'metadata_migrations'";

/// Reads the highest version on the ledger.
pub const LEDGER_MAX: &'static str = "SELECT MAX(version) FROM metadata_migrations";

/// Puts a version on the ledger.
pub const RECORD_VERSION: &'static str =
    "INSERT INTO metadata_migrations (version) VALUES (:version)";

/// Something for the caller to do.
#[derive(Debug, PartialEq, Eq)]
pub enum MigrationRequest {
    /// List the names of the units on offer, in any order.
    ListUnits,
    /// Find out with [`LEDGER_EXISTS`] whether the store has a ledger.
    FindLedger,
    /// Read the highest version on the ledger with [`LEDGER_MAX`].
    ReadLedgerMax,
    /// Read the text of the unit called `name`.
    ReadUnit { name: String },
    /// Apply the unit: in one transaction, run `sql` against the store as
    /// one batch and then put `version` on the ledger with
    /// [`RECORD_VERSION`]. If either fails the transaction is rolled back,
    /// so that nothing of the unit stays.
    ApplyUnit { version: i64, sql: String },
}

/// How it went.
#[derive(Debug, PartialEq, Eq)]
pub enum MigrationReply {
    /// The names of the units on offer.
    Units(Vec<String>),
    /// Whether the store has a ledger.
    LedgerFound(bool),
    /// The highest version on the ledger; `None` when the ledger is empty.
    LedgerMax(Option<i64>),
    /// The text of the unit asked for.
    UnitText(String),
    /// The unit is applied: its batch ran and its version is recorded.
    Succeeded,
    /// The operation failed. Of a unit that was to be applied nothing stays.
    Failed,
}

/// Why a run was given up. Each failure is fatal: a store that is only
/// partly migrated must not be served from.
#[derive(Clone, Copy, Debug, PartialEq, Eq, Structural)]
pub enum MigrationError {
    /// The units could not be listed.
    DiscoveryFailed,
    /// The store could not say whether it has a ledger, or the ledger could
    /// not be read.
    LedgerUnreadable,
    /// The text of the unit of this version could not be read.
    UnitUnreadable { version: i64 },
    /// The unit of this version could not be applied: its batch failed, or
    /// the ledger could not record it. Nothing of the unit stays.
    UnitFailed { version: i64 },
}

/// What a run is waiting for while it works on a unit.
#[derive(Clone, Copy, Debug, PartialEq, Eq, Structural)]
pub enum Phase {
    /// The text of the unit.
    Reading,
    /// The outcome of applying it.
    Applying,
}

/// A run that waits for the caller. It is made by [`begin`], moved on by
/// [`resume`], and cannot be put together by hand.
#[derive(Debug, PartialEq, Eq)]
pub struct MigrationRun {
    stage: Stage,
}

/// How far a run has come.
#[derive(Debug, PartialEq, Eq)]
enum Stage {
    /// Waiting for the names of the units.
    Listing,
    /// Waiting to hear whether there is a ledger.
    FindingLedger { names: Vec<String> },
    /// Waiting for the highest version on the ledger.
    ReadingLedger { names: Vec<String> },
    /// Working on `plan[next]`; the units before it are applied.
    Working { plan: Vec<PendingUnit>, next: usize, phase: Phase },
}

/// Where a run stands after a decision.
#[derive(Debug, PartialEq, Eq)]
pub enum MigrationStep {
    /// Do this and come back with the outcome.
    Ask(MigrationRun, MigrationRequest),
    /// The run is over. `Ok` also when nothing was due.
    Done(Result<(), MigrationError>),
}

/// A [`MigrationRequest`] as plain values.
pub enum RequestView {
    ListUnits,
    FindLedger,
    ReadLedgerMax,
    ReadUnit { name: Seq<char> },
    ApplyUnit { version: i64, sql: Seq<char> },
}

/// A [`MigrationReply`] as plain values.
pub enum ReplyView {
    Units(Seq<Seq<char>>),
    LedgerFound(bool),
    LedgerMax(Option<i64>),
    UnitText(Seq<char>),
    Succeeded,
    Failed,
}

/// How far a run has come, as plain values.
pub enum RunView {
    /// Waiting for the names of the units.
    Listing,
    /// Waiting to hear whether there is a ledger.
    FindingLedger { names: Seq<Seq<char>> },
    /// Waiting for the highest version on the ledger.
    ReadingLedger { names: Seq<Seq<char>> },
    /// Working on `plan[next]`; the units before it are applied.
    Working { plan: Seq<PlannedUnit>, next: int, phase: Phase },
}

/// A [`MigrationStep`] as plain values.
pub enum StepView {
    Ask(RunView, RequestView),
    Done(Result<(), MigrationError>),
}

impl View for MigrationRequest {
    type V = RequestView;

    open spec fn view(&self) -> RequestView {
        match *self {
            MigrationRequest::ListUnits => RequestView::ListUnits,
            MigrationRequest::FindLedger => RequestView::FindLedger,
            MigrationRequest::ReadLedgerMax => RequestView::ReadLedgerMax,
            MigrationRequest::ReadUnit { name } => RequestView::ReadUnit { name: name@ },
            MigrationRequest::ApplyUnit { version, sql } => RequestView::ApplyUnit {
                version,
                sql: sql@,
            },
        }
    }
}

impl View for MigrationReply {
    type V = ReplyView;

    open spec fn view(&self) -> ReplyView {
        match *self {
            MigrationReply::Units(names) => ReplyView::Units(names_view(names@)),
            MigrationReply::LedgerFound(found) => ReplyView::LedgerFound(found),
            MigrationReply::LedgerMax(latest) => ReplyView::LedgerMax(latest),
            MigrationReply::UnitText(sql) => ReplyView::UnitText(sql@),
            MigrationReply::Succeeded => ReplyView::Succeeded,
            MigrationReply::Failed => ReplyView::Failed,
        }
    }
}

impl View for MigrationRun {
    type V = RunView;

    closed spec fn view(&self) -> RunView {
        match self.stage {
            Stage::Listing => RunView::Listing,
            Stage::FindingLedger { names } => RunView::FindingLedger { names: names_view(names@) },
            Stage::ReadingLedger { names } => RunView::ReadingLedger { names: names_view(names@) },
            Stage::Working { plan, next, phase } => RunView::Working {
                plan: plan_view(plan@),
                next: next as int,
                phase,
            },
        }
    }
}

impl View for MigrationStep {
    type V = StepView;

    open spec fn view(&self) -> StepView {
        match *self {
            MigrationStep::Ask(run, request) => StepView::Ask(run@, request@),
            MigrationStep::Done(result) => StepView::Done(result),
        }
    }
}

/// The step that takes up `plan[next]`, or ends the run when the plan is
/// worked off.
pub open spec fn walk(plan: Seq<PlannedUnit>, next: int) -> StepView {
    if 0 <= next < plan.len() {
        StepView::Ask(
            RunView::Working { plan, next, phase: Phase::Reading },
            RequestView::ReadUnit { name: plan[next].name },
        )
    } else {
        StepView::Done(Ok(()))
    }
}

/// First decision of a run: find out what units there are.
pub open spec fn begin_spec() -> StepView {
    StepView::Ask(RunView::Listing, RequestView::ListUnits)
}

/// Every later decision of a run, given how the last operation went.
///
/// The units are listed, then the ledger is looked for and, if it is there,
/// read. A store without a ledger has never been migrated: every unit is
/// due, and that is no failure. A ledger that is there and cannot be read
/// is one: the run ends. Then each unit of the plan is read and applied,
/// and only then is the next one taken up. When a unit cannot be read or
/// applied the run ends there, and no later unit is touched.
pub open spec fn resume_spec(run: RunView, reply: ReplyView) -> StepView {
    match run {
        RunView::Listing => match reply {
            ReplyView::Units(names) => StepView::Ask(
                RunView::FindingLedger { names },
                RequestView::FindLedger,
            ),
            _ => StepView::Done(Err(MigrationError::DiscoveryFailed)),
        },
        RunView::FindingLedger { names } => match reply {
            ReplyView::LedgerFound(true) => StepView::Ask(
                RunView::ReadingLedger { names },
                RequestView::ReadLedgerMax,
            ),
            ReplyView::LedgerFound(false) => walk(plan_of(names, None), 0),
            _ => StepView::Done(Err(MigrationError::LedgerUnreadable)),
        },
        RunView::ReadingLedger { names } => match reply {
            ReplyView::LedgerMax(latest) => walk(plan_of(names, latest), 0),
            _ => StepView::Done(Err(MigrationError::LedgerUnreadable)),
        },
        RunView::Working { plan, next, phase } => if 0 <= next < plan.len() {
            let version = plan[next].version;
            match phase {
                Phase::Reading => match reply {
                    ReplyView::UnitText(sql) => StepView::Ask(
                        RunView::Working { plan, next, phase: Phase::Applying },
                        RequestView::ApplyUnit { version, sql },
                    ),
                    _ => StepView::Done(Err(MigrationError::UnitUnreadable { version })),
                },
                Phase::Applying => match reply {
                    ReplyView::Succeeded => walk(plan, next + 1),
                    _ => StepView::Done(Err(MigrationError::UnitFailed { version })),
                },
            }
        } else {
            StepView::Done(Ok(()))
        },
    }
}

/// Starts a run.
pub fn begin() -> (step: MigrationStep)
    ensures
        step@ == begin_spec(),
{
    MigrationStep::Ask(MigrationRun { stage: Stage::Listing }, MigrationRequest::ListUnits)
}

/// Takes up `plan[next]`, or ends the run when the plan is worked off.
fn take_up(plan: Vec<PendingUnit>, next: usize) -> (step: MigrationStep)
    ensures
        step@ == walk(plan_view(plan@), next as int),
{
    if next < plan.len() {
        let name = plan[next].name.clone();
        MigrationStep::Ask(
            MigrationRun { stage: Stage::Working { plan, next, phase: Phase::Reading } },
            MigrationRequest::ReadUnit { name },
        )
    } else {
        MigrationStep::Done(Ok(()))
    }
}

/// Lines up the units that are due and takes up the first of them.
fn start(names: Vec<String>, latest: Option<i64>) -> (step: MigrationStep)
    ensures
        step@ == walk(plan_of(names_view(names@), latest), 0),
{
    let plan = plan_units(&names, latest);
    proof {
        lemma_plan_exists(names_view(names@), latest);
        theorem_plan_unique(
            plan_view(plan@),
            plan_of(names_view(names@), latest),
            names_view(names@),
            latest,
        );
    }
    take_up(plan, 0)
}

/// Takes the next decision of `run`, given how the last operation went.
pub fn resume(run: MigrationRun, reply: MigrationReply) -> (step: MigrationStep)
    ensures
        step@ == resume_spec(run@, reply@),
{
    match run.stage {
        Stage::Listing => match reply {
            MigrationReply::Units(names) => MigrationStep::Ask(
                MigrationRun { stage: Stage::FindingLedger { names } },
                MigrationRequest::FindLedger,
            ),
            _ => MigrationStep::Done(Err(MigrationError::DiscoveryFailed)),
        },
        Stage::FindingLedger { names } => match reply {
            MigrationReply::LedgerFound(true) => MigrationStep::Ask(
                MigrationRun { stage: Stage::ReadingLedger { names } },
                MigrationRequest::ReadLedgerMax,
            ),
            MigrationReply::LedgerFound(false) => start(names, None),
            _ => MigrationStep::Done(Err(MigrationError::LedgerUnreadable)),
        },
        Stage::ReadingLedger { names } => match reply {
            MigrationReply::LedgerMax(latest) => start(names, latest),
            _ => MigrationStep::Done(Err(MigrationError::LedgerUnreadable)),
        },
        Stage::Working { plan, next, phase } => {
            if next >= plan.len() {
                return MigrationStep::Done(Ok(()));
            }
            let version = plan[next].version;
            match phase {
                Phase::Reading => match reply {
                    MigrationReply::UnitText(sql) => MigrationStep::Ask(
                        MigrationRun {
                            stage: Stage::Working { plan, next, phase: Phase::Applying },
                        },
                        MigrationRequest::ApplyUnit { version, sql },
                    ),
                    _ => MigrationStep::Done(Err(MigrationError::UnitUnreadable { version })),
                },
                Phase::Applying => match reply {
                    MigrationReply::Succeeded => take_up(plan, next + 1),
                    _ => MigrationStep::Done(Err(MigrationError::UnitFailed { version })),
                },
            }
        },
    }
}

} // verus!
