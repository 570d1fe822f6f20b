//! The store as a run sees it, and what a run guarantees.
//!
//! The model keeps the two things a run changes: the ledger of recorded
//! versions and the batches that ran. A unit is one piece of work, so the
//! two change together or not at all. [`effect`] says what each operation
//! does to them, [`run_trace`] plays a run against any sequence of outcomes,
//! and the theorems say where the store can stand afterwards.

use crate::metadata::engine::{
    begin_spec, resume_spec, walk, MigrationError, Phase, ReplyView, RequestView, RunView,
    StepView,
};
use crate::metadata::name::unit_version;
use crate::metadata::plan::{
    has_distinct_versions, has_source, is_ascending, is_due, is_plan, is_source,
    lemma_plan_exists, plan_of, plans_version, theorem_order_independent, theorem_plan_unique,
    PlannedUnit,
};
use vstd::prelude::*;

verus! {

/// A batch that ran.
pub struct Batch {
    pub version: i64,
    pub sql: Seq<char>,
}

/// What a run changes in the store.
pub struct StoreModel {
    /// The versions on the ledger.
    pub ledger: Set<int>,
    /// The batches that ran, oldest first.
    pub batches: Seq<Batch>,
}

/// Whether `latest` is what the ledger reports as its highest version:
/// `None` for an empty ledger, else the greatest version on it.
pub open spec fn is_latest(ledger: Set<int>, latest: Option<i64>) -> bool {
    match latest {
        None => forall|v: int| !ledger.contains(v),
        Some(top) => ledger.contains(top as int) && forall|v: int| ledger.contains(v) ==> v <= top,
    }
}

/// What an operation does to the store, given how it went. A unit that is
/// applied leaves its batch and its version on the ledger; a unit that
/// could not be applied leaves nothing, whether it was the batch or the
/// ledger entry that failed. Reading changes nothing.
pub open spec fn effect(store: StoreModel, request: RequestView, reply: ReplyView) -> StoreModel {
    match (request, reply) {
        (RequestView::ApplyUnit { version, sql }, ReplyView::Succeeded) => StoreModel {
            ledger: store.ledger.insert(version as int),
            batches: store.batches.push(Batch { version, sql }),
        },
        _ => store,
    }
}

/// Plays a run from `step` on: each reply in turn answers the request that
/// is open, until the run is done or the replies are used up.
pub open spec fn run_trace(step: StepView, store: StoreModel, replies: Seq<ReplyView>) -> (
    StepView,
    StoreModel,
)
    decreases replies.len(),
{
    match step {
        StepView::Done(_) => (step, store),
        StepView::Ask(run, request) => if replies.len() == 0 {
            (step, store)
        } else {
            run_trace(
                resume_spec(run, replies[0]),
                effect(store, request, replies[0]),
                replies.drop_first(),
            )
        },
    }
}

/// A whole run over `names` against a store that has a ledger, which
/// stands at `latest`, for as long as `replies` last.
pub open spec fn migrate(
    names: Seq<Seq<char>>,
    latest: Option<i64>,
    store: StoreModel,
    replies: Seq<ReplyView>,
) -> (StepView, StoreModel) {
    run_trace(
        begin_spec(),
        store,
        seq![ReplyView::Units(names), ReplyView::LedgerFound(true), ReplyView::LedgerMax(latest)]
            + replies,
    )
}

/// A whole run over `names` against a store that has no ledger yet, for
/// as long as `replies` last.
pub open spec fn migrate_fresh(
    names: Seq<Seq<char>>,
    store: StoreModel,
    replies: Seq<ReplyView>,
) -> (StepView, StoreModel) {
    run_trace(
        begin_spec(),
        store,
        seq![ReplyView::Units(names), ReplyView::LedgerFound(false)] + replies,
    )
}

/// The ledger once the first `count` units of `plan` are recorded.
pub open spec fn ledger_after(ledger: Set<int>, plan: Seq<PlannedUnit>, count: int) -> Set<int> {
    Set::new(|v: int| ledger.contains(v) || plans_version(plan.take(count), v))
}

/// The versions of `batches`, in order.
pub open spec fn batch_versions(batches: Seq<Batch>) -> Seq<i64> {
    batches.map_values(|batch: Batch| batch.version)
}

/// The versions of `plan`, in order.
pub open spec fn plan_versions(plan: Seq<PlannedUnit>) -> Seq<i64> {
    plan.map_values(|unit: PlannedUnit| unit.version)
}

/// Whether `store` is `start` with the first `count` units of `plan`
/// applied and nothing else: their versions are on the ledger and their
/// batches ran, in plan order.
pub open spec fn has_applied(
    store: StoreModel,
    start: StoreModel,
    plan: Seq<PlannedUnit>,
    count: int,
) -> bool {
    &&& 0 <= count <= plan.len()
    &&& store.ledger == ledger_after(start.ledger, plan, count)
    &&& batch_versions(store.batches) == batch_versions(start.batches) + plan_versions(
        plan.take(count),
    )
}

/// The version that a failure names, if it names one.
pub open spec fn failed_version(error: MigrationError) -> Option<i64> {
    match error {
        MigrationError::DiscoveryFailed => None,
        MigrationError::LedgerUnreadable => None,
        MigrationError::UnitUnreadable { version } => Some(version),
        MigrationError::UnitFailed { version } => Some(version),
    }
}

/// Whether `request` is what a run asks for while it works on `unit` in
/// `phase`.
pub open spec fn asks_for(request: RequestView, unit: PlannedUnit, phase: Phase) -> bool {
    match phase {
        Phase::Reading => request == (RequestView::ReadUnit { name: unit.name }),
        Phase::Applying => request matches RequestView::ApplyUnit { version, .. } && version
            == unit.version,
    }
}

/// Where a run over `plan` can stand, and the store with it.
///
/// While the run works on unit `next`, the units before it are applied and
/// nothing of unit `next` or of a later one is. A run that ended well has
/// applied the whole plan. A run that failed on a unit has applied the
/// units before it and nothing else: of the failed unit neither batch nor
/// ledger entry stays.
pub open spec fn stands_at(
    step: StepView,
    store: StoreModel,
    start: StoreModel,
    plan: Seq<PlannedUnit>,
) -> bool {
    match step {
        StepView::Ask(RunView::Working { plan: line, next, phase }, request) => {
            &&& line == plan
            &&& 0 <= next < plan.len()
            &&& asks_for(request, plan[next], phase)
            &&& has_applied(store, start, plan, next)
        },
        StepView::Ask(_, _) => false,
        StepView::Done(Ok(_)) => has_applied(store, start, plan, plan.len() as int),
        StepView::Done(Err(error)) => exists|k: int|
            {
                &&& 0 <= k < plan.len()
                &&& failed_version(error) == Some(#[trigger] plan[k].version)
                &&& has_applied(store, start, plan, k)
            },
    }
}

/// One more unit of the plan: the versions of the first `count + 1` units
/// are those of the first `count` and that of unit `count`.
proof fn lemma_take_one_more(plan: Seq<PlannedUnit>, count: int)
    requires
        0 <= count < plan.len(),
    ensures
        forall|v: int|
            #[trigger] plans_version(plan.take(count + 1), v) <==> plans_version(
                plan.take(count),
                v,
            ) || v == plan[count].version,
        plan_versions(plan.take(count + 1)) == plan_versions(plan.take(count)).push(
            plan[count].version,
        ),
{
    let less = plan.take(count);
    let more = plan.take(count + 1);
    assert forall|v: int| #[trigger]
        plans_version(more, v) <==> plans_version(less, v) || v == plan[count].version by {
        if plans_version(more, v) {
            let i = choose|i: int| 0 <= i < more.len() && #[trigger] more[i].version == v;
            assert(i < count ==> less[i].version == v);
        }
        if plans_version(less, v) {
            let i = choose|i: int| 0 <= i < less.len() && #[trigger] less[i].version == v;
            assert(more[i].version == v);
        }
        if v == plan[count].version {
            assert(more[count].version == v);
        }
    }
}

/// A decision keeps the run where [`stands_at`] says it can be.
proof fn lemma_step_stands(
    run: RunView,
    request: RequestView,
    reply: ReplyView,
    store: StoreModel,
    start: StoreModel,
    plan: Seq<PlannedUnit>,
)
    requires
        stands_at(StepView::Ask(run, request), store, start, plan),
    ensures
        stands_at(resume_spec(run, reply), effect(store, request, reply), start, plan),
{
    let next = run->next;
    let after = effect(store, request, reply);
    lemma_take_one_more(plan, next);
    if run->phase == Phase::Applying && reply is Succeeded {
        assert(batch_versions(after.batches) == batch_versions(store.batches).push(
            plan[next].version,
        ));
        assert(batch_versions(after.batches) == batch_versions(start.batches) + plan_versions(
            plan.take(next + 1),
        ));
        assert(after.ledger == ledger_after(start.ledger, plan, next + 1));
    }
}

/// However the operations of a run go, the store stands where the run says
/// it does: the ledger holds what it held before and the versions of a
/// front part of the plan, and the batches of just those units ran, in plan
/// order.
pub proof fn theorem_run_stands(
    step: StepView,
    store: StoreModel,
    start: StoreModel,
    plan: Seq<PlannedUnit>,
    replies: Seq<ReplyView>,
)
    requires
        stands_at(step, store, start, plan),
    ensures
        stands_at(
            run_trace(step, store, replies).0,
            run_trace(step, store, replies).1,
            start,
            plan,
        ),
    decreases replies.len(),
{
    match step {
        StepView::Done(_) => {},
        StepView::Ask(run, request) => {
            if replies.len() > 0 {
                lemma_step_stands(run, request, replies[0], store, start, plan);
                theorem_run_stands(
                    resume_spec(run, replies[0]),
                    effect(store, request, replies[0]),
                    start,
                    plan,
                    replies.drop_first(),
                );
            }
        },
    }
}

/// A run spends its first replies on finding its plan, and changes
/// nothing while it does.
pub proof fn lemma_migrate_plans(
    names: Seq<Seq<char>>,
    latest: Option<i64>,
    store: StoreModel,
    replies: Seq<ReplyView>,
)
    ensures
        migrate(names, latest, store, replies) == run_trace(
            walk(plan_of(names, latest), 0),
            store,
            replies,
        ),
{
    let listed = ReplyView::Units(names);
    let found = ReplyView::LedgerFound(true);
    let read = ReplyView::LedgerMax(latest);
    let all = seq![listed, found, read] + replies;
    let after_listing = seq![found, read] + replies;
    let after_finding = seq![read] + replies;
    assert(all.drop_first() == after_listing);
    assert(after_listing.drop_first() == after_finding);
    assert(after_finding.drop_first() == replies);
    reveal_with_fuel(run_trace, 4);
}

/// A store without a ledger is migrated as a store whose ledger is empty:
/// every unit that carries a version is due, and that is no failure.
pub proof fn theorem_fresh_store(
    names: Seq<Seq<char>>,
    store: StoreModel,
    replies: Seq<ReplyView>,
)
    ensures
        migrate_fresh(names, store, replies) == migrate(names, None, store, replies),
{
    let listed = ReplyView::Units(names);
    let found = ReplyView::LedgerFound(false);
    let all = seq![listed, found] + replies;
    let after_listing = seq![found] + replies;
    assert(all.drop_first() == after_listing);
    assert(after_listing.drop_first() == replies);
    reveal_with_fuel(run_trace, 3);
    lemma_migrate_plans(names, None, store, replies);
}

/// A ledger that is there and cannot be read ends the run. Whether the
/// store cannot say if it has a ledger or the ledger cannot be read, the
/// run ends at once with [`MigrationError::LedgerUnreadable`], no unit is
/// read or applied, and the store stays as it was.
pub proof fn theorem_unreadable_ledger_is_fatal(
    names: Seq<Seq<char>>,
    store: StoreModel,
    replies: Seq<ReplyView>,
)
    ensures
        run_trace(begin_spec(), store, seq![ReplyView::Units(names), ReplyView::Failed] + replies)
            == (StepView::Done(Err(MigrationError::LedgerUnreadable)), store),
        run_trace(
            begin_spec(),
            store,
            seq![ReplyView::Units(names), ReplyView::LedgerFound(true), ReplyView::Failed]
                + replies,
        ) == (StepView::Done(Err(MigrationError::LedgerUnreadable)), store),
{
    let listed = ReplyView::Units(names);
    let found = ReplyView::LedgerFound(true);
    let failed = ReplyView::Failed;
    assert((seq![listed, failed] + replies).drop_first() == seq![failed] + replies);
    assert((seq![failed] + replies).drop_first() == replies);
    assert((seq![listed, found, failed] + replies).drop_first() == seq![found, failed] + replies);
    assert((seq![found, failed] + replies).drop_first() == seq![failed] + replies);
    reveal_with_fuel(run_trace, 4);
}

/// A run that has just found its plan stands at the start of it.
proof fn lemma_start_stands(plan: Seq<PlannedUnit>, start: StoreModel)
    ensures
        stands_at(walk(plan, 0), start, start, plan),
{
    assert(start.ledger == ledger_after(start.ledger, plan, 0));
    assert(batch_versions(start.batches) == batch_versions(start.batches) + plan_versions(
        plan.take(0),
    ));
}

/// Units are applied in order, each once. Whatever the names, whatever the
/// ledger says and however the operations go, a run leaves the store where
/// [`stands_at`] says: on the ledger, what was there and the versions of a
/// front part of the plan; among the batches, those that ran before and
/// then those of the plan, lowest version first, none of them twice.
pub proof fn theorem_applies_in_order(
    names: Seq<Seq<char>>,
    latest: Option<i64>,
    start: StoreModel,
    replies: Seq<ReplyView>,
)
    ensures
        is_plan(plan_of(names, latest), names, latest),
        stands_at(
            migrate(names, latest, start, replies).0,
            migrate(names, latest, start, replies).1,
            start,
            plan_of(names, latest),
        ),
{
    let plan = plan_of(names, latest);
    lemma_plan_exists(names, latest);
    lemma_migrate_plans(names, latest, start, replies);
    lemma_start_stands(plan, start);
    theorem_run_stands(walk(plan, 0), start, start, plan, replies);
}

/// Nothing that is on the ledger is applied again. When `latest` is what
/// the ledger reports, no version of the plan is on the ledger.
pub proof fn theorem_never_twice(names: Seq<Seq<char>>, latest: Option<i64>, ledger: Set<int>)
    requires
        is_latest(ledger, latest),
    ensures
        forall|i: int|
            0 <= i < plan_of(names, latest).len() ==> !ledger.contains(
                (#[trigger] plan_of(names, latest)[i]).version as int,
            ),
{
    let plan = plan_of(names, latest);
    lemma_plan_exists(names, latest);
    assert forall|i: int| 0 <= i < plan.len() implies !ledger.contains(
        (#[trigger] plan[i]).version as int,
    ) by {
        assert(has_source(names, latest, plan[i]));
    }
}

/// What the ledger reports once the first `count` units of `plan` are
/// recorded: the version of the last of them, or what it reported before if
/// there is none.
pub open spec fn latest_after(plan: Seq<PlannedUnit>, latest: Option<i64>, count: int) -> Option<
    i64,
> {
    if count <= 0 {
        latest
    } else {
        Some(plan[count - 1].version)
    }
}

/// Once the first `count` units of the plan are recorded, the ledger
/// reports [`latest_after`].
proof fn lemma_latest_after(
    plan: Seq<PlannedUnit>,
    names: Seq<Seq<char>>,
    latest: Option<i64>,
    ledger: Set<int>,
    count: int,
)
    requires
        is_plan(plan, names, latest),
        is_latest(ledger, latest),
        0 <= count <= plan.len(),
    ensures
        is_latest(ledger_after(ledger, plan, count), latest_after(plan, latest, count)),
{
    let front = plan.take(count);
    let after = ledger_after(ledger, plan, count);
    if count > 0 {
        let top = plan[count - 1].version as int;
        assert(front[count - 1].version == top);
        assert forall|v: int| after.contains(v) implies v <= top by {
            if plans_version(front, v) {
                let j = choose|j: int| 0 <= j < front.len() && #[trigger] front[j].version == v;
                assert(plan[j].version <= plan[count - 1].version);
            } else {
                assert(has_source(names, latest, plan[count - 1]));
            }
        }
    } else {
        assert(after == ledger);
    }
}

/// A ledger reports one highest version and no other.
proof fn lemma_latest_unique(ledger: Set<int>, a: Option<i64>, b: Option<i64>)
    requires
        is_latest(ledger, a),
        is_latest(ledger, b),
    ensures
        a == b,
{
}

/// What is left of a plan is the plan of what is left to do: once the
/// first `count` units are recorded, the units after them are the plan for
/// the ledger as it then stands.
proof fn lemma_rest_is_plan(
    plan: Seq<PlannedUnit>,
    names: Seq<Seq<char>>,
    latest: Option<i64>,
    count: int,
)
    requires
        is_plan(plan, names, latest),
        0 <= count <= plan.len(),
    ensures
        is_plan(plan.skip(count), names, latest_after(plan, latest, count)),
{
    let rest = plan.skip(count);
    let again = latest_after(plan, latest, count);
    assert forall|i: int| 0 <= i < rest.len() implies has_source(names, again, #[trigger] rest[i]) by {
        let unit = plan[i + count];
        let k = choose|k: int| is_source(names, latest, unit, k);
        assert(is_source(names, again, unit, k));
    }
    assert forall|k: int|
        0 <= k < names.len() && is_due(#[trigger] names[k], again) implies plans_version(
            rest,
            unit_version(names[k])->0,
        ) by {
        let v = unit_version(names[k])->0;
        assert(plans_version(plan, v));
        let i = choose|i: int| 0 <= i < plan.len() && #[trigger] plan[i].version == v;
        assert(i >= count);
        assert(rest[i - count].version == v);
    }
}

/// The number of units of `plan` that a run has applied when it stands at
/// `step`.
pub open spec fn applied(step: StepView, plan: Seq<PlannedUnit>) -> int {
    match step {
        StepView::Ask(RunView::Working { next, .. }, _) => next,
        StepView::Ask(_, _) => 0,
        StepView::Done(Ok(_)) => plan.len() as int,
        StepView::Done(Err(error)) => choose|k: int|
            0 <= k < plan.len() && failed_version(error) == Some(#[trigger] plan[k].version),
    }
}

/// A run that failed stands at the unit it failed on: in an ascending plan
/// a version has one place only.
proof fn lemma_failed_place(
    error: MigrationError,
    store: StoreModel,
    start: StoreModel,
    plan: Seq<PlannedUnit>,
)
    requires
        is_ascending(plan),
        stands_at(StepView::Done(Err(error)), store, start, plan),
    ensures
        ({
            let failed = applied(StepView::Done(Err(error)), plan);
            &&& 0 <= failed < plan.len()
            &&& failed_version(error) == Some(plan[failed].version)
            &&& has_applied(store, start, plan, failed)
        }),
{
    let failed = applied(StepView::Done(Err(error)), plan);
    let k = choose|k: int|
        {
            &&& 0 <= k < plan.len()
            &&& failed_version(error) == Some(#[trigger] plan[k].version)
            &&& has_applied(store, start, plan, k)
        };
    assert(failed < k ==> plan[failed].version < plan[k].version);
    assert(k < failed ==> plan[k].version < plan[failed].version);
}

/// The next run takes up where the last one stopped. However a run went,
/// the ledger afterwards holds what it held before and the versions of the
/// units the run applied, and the plan of a run over the same names is
/// then what was left of the plan: runs repeated until one ends well leave
/// the ledger where a single run that ends well leaves it.
pub proof fn theorem_rerun_resumes(
    names: Seq<Seq<char>>,
    latest: Option<i64>,
    start: StoreModel,
    replies: Seq<ReplyView>,
    again: Option<i64>,
)
    requires
        is_latest(start.ledger, latest),
        is_latest(migrate(names, latest, start, replies).1.ledger, again),
    ensures
        ({
            let plan = plan_of(names, latest);
            let (step, store) = migrate(names, latest, start, replies);
            let count = applied(step, plan);
            &&& 0 <= count <= plan.len()
            &&& store.ledger == ledger_after(start.ledger, plan, count)
            &&& again == latest_after(plan, latest, count)
            &&& plan_of(names, again) == plan.skip(count)
        }),
{
    let plan = plan_of(names, latest);
    let (step, store) = migrate(names, latest, start, replies);
    let count = applied(step, plan);
    theorem_applies_in_order(names, latest, start, replies);
    match step {
        StepView::Done(Err(error)) => lemma_failed_place(error, store, start, plan),
        _ => {},
    }
    lemma_latest_after(plan, names, latest, start.ledger, count);
    lemma_latest_unique(store.ledger, again, latest_after(plan, latest, count));
    lemma_rest_is_plan(plan, names, latest, count);
    lemma_plan_exists(names, again);
    theorem_plan_unique(plan_of(names, again), plan.skip(count), names, again);
}

/// A second run finds nothing to do. After a run that ended well, a run
/// over the same names reads the ledger, asks nothing more of the store and
/// ends well, with the store as the first run left it.
pub proof fn theorem_rerun_is_idle(
    names: Seq<Seq<char>>,
    latest: Option<i64>,
    start: StoreModel,
    replies: Seq<ReplyView>,
    again: Option<i64>,
    more: Seq<ReplyView>,
)
    requires
        is_latest(start.ledger, latest),
        migrate(names, latest, start, replies).0 == StepView::Done(Ok(())),
        is_latest(migrate(names, latest, start, replies).1.ledger, again),
    ensures
        plan_of(names, again).len() == 0,
        migrate(names, again, migrate(names, latest, start, replies).1, more) == (
            StepView::Done(Ok(())),
            migrate(names, latest, start, replies).1,
        ),
{
    let store = migrate(names, latest, start, replies).1;
    theorem_rerun_resumes(names, latest, start, replies, again);
    lemma_migrate_plans(names, again, store, more);
}

/// A failure stops the run where it is. When a run fails on a unit, the
/// units before it are applied and no others: the version of the failed
/// unit and every higher one of the plan are not on the ledger, and what
/// the ledger reports as its highest version is the version planned just
/// before, or what it reported at the start if the failed unit was the
/// first. No batch of the failed unit or of a later one stays, whether it
/// was the batch or the ledger entry that failed.
pub proof fn theorem_failure_stops_the_run(
    names: Seq<Seq<char>>,
    latest: Option<i64>,
    start: StoreModel,
    replies: Seq<ReplyView>,
    error: MigrationError,
)
    requires
        is_latest(start.ledger, latest),
        migrate(names, latest, start, replies).0 == StepView::Done(Err(error)),
    ensures
        ({
            let plan = plan_of(names, latest);
            let (step, store) = migrate(names, latest, start, replies);
            let failed = applied(step, plan);
            &&& 0 <= failed < plan.len()
            &&& failed_version(error) == Some(plan[failed].version)
            &&& forall|i: int|
                failed <= i < plan.len() ==> !store.ledger.contains(
                    (#[trigger] plan[i]).version as int,
                )
            &&& is_latest(store.ledger, latest_after(plan, latest, failed))
            &&& batch_versions(store.batches) == batch_versions(start.batches) + plan_versions(
                plan.take(failed),
            )
        }),
{
    let plan = plan_of(names, latest);
    let (step, store) = migrate(names, latest, start, replies);
    let failed = applied(step, plan);
    theorem_applies_in_order(names, latest, start, replies);
    theorem_never_twice(names, latest, start.ledger);
    lemma_failed_place(error, store, start, plan);
    lemma_latest_after(plan, names, latest, start.ledger, failed);
    let front = plan.take(failed);
    assert forall|i: int| failed <= i < plan.len() implies !store.ledger.contains(
        (#[trigger] plan[i]).version as int,
    ) by {
        let v = plan[i].version as int;
        if plans_version(front, v) {
            let j = choose|j: int| 0 <= j < front.len() && #[trigger] front[j].version == v;
            assert(plan[j].version < plan[i].version);
        }
    }
}

/// Whether every batch that ran is on the ledger and none ran twice.
pub open spec fn is_applied_once(store: StoreModel) -> bool {
    &&& forall|i: int|
        0 <= i < store.batches.len() ==> store.ledger.contains(
            (#[trigger] store.batches[i]).version as int,
        )
    &&& forall|i: int, j: int|
        0 <= i < j < store.batches.len() ==> (#[trigger] store.batches[i]).version
            != (#[trigger] store.batches[j]).version
}

/// No unit is ever applied twice. In a store where every batch that ran is
/// on the ledger and none ran twice, that is still so after a run, however
/// the run went: what a run adds are batches of versions that the ledger
/// did not hold, each once and each with its ledger entry.
pub proof fn theorem_applied_once(
    names: Seq<Seq<char>>,
    latest: Option<i64>,
    start: StoreModel,
    replies: Seq<ReplyView>,
)
    requires
        is_latest(start.ledger, latest),
        is_applied_once(start),
    ensures
        is_applied_once(migrate(names, latest, start, replies).1),
{
    let plan = plan_of(names, latest);
    let (step, store) = migrate(names, latest, start, replies);
    let count = applied(step, plan);
    theorem_applies_in_order(names, latest, start, replies);
    theorem_never_twice(names, latest, start.ledger);
    match step {
        StepView::Done(Err(error)) => lemma_failed_place(error, store, start, plan),
        _ => {},
    }
    let old = start.batches.len() as int;
    let front = plan.take(count);
    let versions = batch_versions(store.batches);
    assert(versions == batch_versions(start.batches) + plan_versions(front));
    assert(store.batches.len() == old + count) by {
        assert(versions.len() == store.batches.len());
    }
    assert forall|i: int| 0 <= i < store.batches.len() implies {
        &&& i < old ==> (#[trigger] store.batches[i]).version == start.batches[i].version
        &&& i >= old ==> store.batches[i].version == plan[i - old].version
    } by {
        assert(versions[i] == store.batches[i].version);
        if i < old {
            assert(batch_versions(start.batches)[i] == start.batches[i].version);
        } else {
            assert(plan_versions(front)[i - old] == plan[i - old].version);
        }
    }
    assert forall|i: int| 0 <= i < store.batches.len() implies store.ledger.contains(
        (#[trigger] store.batches[i]).version as int,
    ) by {
        if i >= old {
            assert(front[i - old].version == plan[i - old].version);
            assert(plans_version(front, plan[i - old].version as int));
        }
    }
    assert forall|i: int, j: int| 0 <= i < j < store.batches.len() implies (
    #[trigger] store.batches[i]).version != (#[trigger] store.batches[j]).version by {
        if j < old {
            assert(start.batches[i].version != start.batches[j].version);
        } else if i < old {
            assert(start.ledger.contains(start.batches[i].version as int));
            assert(!start.ledger.contains(plan[j - old].version as int));
        } else {
            assert(plan[i - old].version < plan[j - old].version);
        }
    }
}

/// The replies of a run in which every unit is read and applied: for each
/// unit its text, then the news that it is applied.
pub open spec fn replies_of_success(texts: Seq<Seq<char>>) -> Seq<ReplyView>
    decreases texts.len(),
{
    if texts.len() == 0 {
        Seq::empty()
    } else {
        seq![ReplyView::UnitText(texts[0]), ReplyView::Succeeded] + replies_of_success(
            texts.drop_first(),
        )
    }
}

/// The batches of `plan`, in plan order, where `texts` holds the text of
/// each unit.
pub open spec fn batches_of(plan: Seq<PlannedUnit>, texts: Seq<Seq<char>>) -> Seq<Batch> {
    Seq::new(plan.len(), |i: int| Batch { version: plan[i].version, sql: texts[i] })
}

/// From unit `next` on, a run in which every unit is read and applied ends
/// well and has run the batch of each unit that was left.
proof fn lemma_rest_goes_well(
    plan: Seq<PlannedUnit>,
    next: int,
    store: StoreModel,
    texts: Seq<Seq<char>>,
)
    requires
        0 <= next <= plan.len(),
        texts.len() == plan.len() - next,
    ensures
        run_trace(walk(plan, next), store, replies_of_success(texts)).0 == StepView::Done(Ok(())),
        run_trace(walk(plan, next), store, replies_of_success(texts)).1.batches == store.batches
            + batches_of(plan.skip(next), texts),
    decreases plan.len() - next,
{
    let replies = replies_of_success(texts);
    if next == plan.len() {
        assert(store.batches == store.batches + batches_of(plan.skip(next), texts));
    } else {
        let text = texts[0];
        let rest = replies_of_success(texts.drop_first());
        let read = ReplyView::UnitText(text);
        let done = ReplyView::Succeeded;
        assert(replies == seq![read, done] + rest);
        assert(replies.drop_first() == seq![done] + rest);
        assert((seq![done] + rest).drop_first() == rest);
        let batch = Batch { version: plan[next].version, sql: text };
        let after = StoreModel {
            ledger: store.ledger.insert(plan[next].version as int),
            batches: store.batches.push(batch),
        };
        reveal_with_fuel(run_trace, 3);
        assert(run_trace(walk(plan, next), store, replies) == run_trace(
            walk(plan, next + 1),
            after,
            rest,
        ));
        lemma_rest_goes_well(plan, next + 1, after, texts.drop_first());
        assert(store.batches.push(batch) + batches_of(plan.skip(next + 1), texts.drop_first())
            == store.batches + batches_of(plan.skip(next), texts));
    }
}

/// A run in which nothing fails applies all that is due. When the units
/// are listed, the ledger is read, and every unit of the plan is read and
/// applied, the run ends with `Ok(())`. The ledger then holds what it held
/// before and the version of every unit that was due, and nothing else;
/// the batches are those that ran before and then those of the plan, lowest
/// version first, each with the text that was read for it.
pub proof fn theorem_success_applies_all(
    names: Seq<Seq<char>>,
    latest: Option<i64>,
    start: StoreModel,
    texts: Seq<Seq<char>>,
)
    requires
        texts.len() == plan_of(names, latest).len(),
    ensures
        ({
            let plan = plan_of(names, latest);
            let (step, store) = migrate(names, latest, start, replies_of_success(texts));
            &&& step == StepView::Done(Ok(()))
            &&& store.batches == start.batches + batches_of(plan, texts)
            &&& forall|v: int|
                store.ledger.contains(v) <==> start.ledger.contains(v) || exists|k: int|
                    0 <= k < names.len() && is_due(#[trigger] names[k], latest) && unit_version(
                        names[k],
                    ) == Some(v)
        }),
{
    let plan = plan_of(names, latest);
    let replies = replies_of_success(texts);
    let store = migrate(names, latest, start, replies).1;
    theorem_applies_in_order(names, latest, start, replies);
    lemma_migrate_plans(names, latest, start, replies);
    lemma_rest_goes_well(plan, 0, start, texts);
    assert(plan.skip(0) == plan);
    assert(plan.take(plan.len() as int) == plan);
    assert forall|v: int|
        store.ledger.contains(v) <==> start.ledger.contains(v) || exists|k: int|
            0 <= k < names.len() && is_due(#[trigger] names[k], latest) && unit_version(names[k])
                == Some(v) by {
        if plans_version(plan, v) {
            let i = choose|i: int| 0 <= i < plan.len() && #[trigger] plan[i].version == v;
            assert(has_source(names, latest, plan[i]));
            let k = choose|k: int| is_source(names, latest, plan[i], k);
            assert(is_due(names[k], latest));
        }
    }
}

/// The order in which units are found does not matter. Where no two units
/// carry the same version, a run over the names in any other order has the
/// same plan, and so asks the same of the store and leaves it the same.
pub proof fn theorem_shuffle_same_run(
    names: Seq<Seq<char>>,
    shuffled: Seq<Seq<char>>,
    latest: Option<i64>,
    start: StoreModel,
    replies: Seq<ReplyView>,
)
    requires
        names.to_multiset() == shuffled.to_multiset(),
        has_distinct_versions(names),
    ensures
        plan_of(names, latest) == plan_of(shuffled, latest),
        migrate(names, latest, start, replies) == migrate(shuffled, latest, start, replies),
{
    lemma_plan_exists(names, latest);
    lemma_plan_exists(shuffled, latest);
    theorem_order_independent(
        plan_of(names, latest),
        names,
        plan_of(shuffled, latest),
        shuffled,
        latest,
    );
    lemma_migrate_plans(names, latest, start, replies);
    lemma_migrate_plans(shuffled, latest, start, replies);
}

} // verus!
