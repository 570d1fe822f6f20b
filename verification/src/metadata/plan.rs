//! Which units a run applies, and in what order.
//!
//! Units come in no particular order. Those whose names do not follow the
//! naming convention are passed over, and so are those that the ledger has
//! already seen. The rest are lined up by version, lowest first.

use crate::metadata::name::{parse_version, unit_version};
use crate::search::{first_index, lemma_first_exists};
use vstd::prelude::*;

verus! {

/// A unit that is due: its version, and the name under which its text is
/// found.
#[derive(Debug, PartialEq, Eq)]
pub struct PendingUnit {
    pub version: i64,
    pub name: String,
}

/// A [`PendingUnit`] as plain values.
pub struct PlannedUnit {
    pub version: i64,
    pub name: Seq<char>,
}

impl View for PendingUnit {
    type V = PlannedUnit;

    open spec fn view(&self) -> PlannedUnit {
        PlannedUnit { version: self.version, name: self.name@ }
    }
}

/// The plain values of a line of pending units.
pub open spec fn plan_view(plan: Seq<PendingUnit>) -> Seq<PlannedUnit> {
    plan.map_values(|unit: PendingUnit| unit@)
}

/// The characters of each name.
pub open spec fn names_view(names: Seq<String>) -> Seq<Seq<char>> {
    names.map_values(|name: String| name@)
}

/// Whether `version` lies beyond `latest`, the highest version on the
/// ledger. With nothing on the ledger every version does.
pub open spec fn is_beyond(version: int, latest: Option<i64>) -> bool {
    match latest {
        Some(seen) => version > seen,
        None => true,
    }
}

/// Whether the unit called `name` is due: the name carries a version, and
/// the ledger has not come that far.
pub open spec fn is_due(name: Seq<char>, latest: Option<i64>) -> bool {
    unit_version(name) matches Some(version) && is_beyond(version, latest)
}

/// Whether `names[k]` is where `unit` comes from: a due unit of that name
/// and version, and the first of its version in `names`.
pub open spec fn is_source(
    names: Seq<Seq<char>>,
    latest: Option<i64>,
    unit: PlannedUnit,
    k: int,
) -> bool {
    &&& 0 <= k < names.len()
    &&& names[k] == unit.name
    &&& unit_version(names[k]) == Some(unit.version as int)
    &&& is_beyond(unit.version as int, latest)
    &&& forall|j: int|
        0 <= j < k ==> unit_version(#[trigger] names[j]) != Some(unit.version as int)
}

/// Whether `unit` comes from somewhere in `names`.
pub open spec fn has_source(names: Seq<Seq<char>>, latest: Option<i64>, unit: PlannedUnit) -> bool {
    exists|k: int| is_source(names, latest, unit, k)
}

/// Whether `plan` holds a unit of `version`.
pub open spec fn plans_version(plan: Seq<PlannedUnit>, version: int) -> bool {
    exists|i: int| 0 <= i < plan.len() && #[trigger] plan[i].version == version
}

/// Whether the versions of `plan` rise strictly.
pub open spec fn is_ascending(plan: Seq<PlannedUnit>) -> bool {
    forall|i: int, j: int| 0 <= i < j < plan.len() ==> plan[i].version < plan[j].version
}

/// Whether `plan` is the plan of a run over `names` when the ledger stands
/// at `latest`: versions rise strictly, every unit planned is due and is
/// the first of its version in `names`, and every due version is planned.
pub open spec fn is_plan(
    plan: Seq<PlannedUnit>,
    names: Seq<Seq<char>>,
    latest: Option<i64>,
) -> bool {
    &&& is_ascending(plan)
    &&& forall|i: int| 0 <= i < plan.len() ==> has_source(names, latest, #[trigger] plan[i])
    &&& forall|k: int|
        0 <= k < names.len() && is_due(#[trigger] names[k], latest) ==> plans_version(
            plan,
            unit_version(names[k])->0,
        )
}

/// Whether `versions` holds, place by place, the version of each name.
pub open spec fn are_versions_of(versions: Seq<Option<i64>>, names: Seq<String>) -> bool {
    &&& versions.len() == names.len()
    &&& forall|k: int|
        0 <= k < names.len() ==> match #[trigger] versions[k] {
            Some(v) => unit_version(names[k]@) == Some(v as int) && 0 <= v <= 999,
            None => unit_version(names[k]@) is None,
        }
}

/// Reads the version out of every name.
pub fn parse_all(names: &Vec<String>) -> (versions: Vec<Option<i64>>)
    ensures
        are_versions_of(versions@, names@),
{
    let mut versions: Vec<Option<i64>> = Vec::new();
    let mut k: usize = 0;
    while k < names.len()
        invariant
            k <= names.len(),
            versions.len() == k,
            forall|j: int|
                0 <= j < k ==> match #[trigger] versions[j] {
                    Some(v) => unit_version(names[j]@) == Some(v as int) && 0 <= v <= 999,
                    None => unit_version(names[j]@) is None,
                },
        decreases names.len() - k,
    {
        versions.push(parse_version(names[k].as_str()));
        k += 1;
    }
    versions
}

/// Whether `versions[k]` lies beyond `marker` and no version that does is
/// lower, nor is the same version found before `k`.
pub open spec fn is_next(versions: Seq<Option<i64>>, marker: Option<i64>, k: int) -> bool {
    &&& 0 <= k < versions.len()
    &&& versions[k] is Some
    &&& is_beyond(versions[k]->0 as int, marker)
    &&& forall|j: int|
        0 <= j < versions.len() && (#[trigger] versions[j]) is Some && is_beyond(
            versions[j]->0 as int,
            marker,
        ) ==> versions[k]->0 <= versions[j]->0
    &&& forall|j: int| 0 <= j < k ==> #[trigger] versions[j] != versions[k]
}

/// Finds the lowest version beyond `marker`, at the first place where it
/// stands.
pub fn next_due(versions: &Vec<Option<i64>>, marker: Option<i64>) -> (found: Option<usize>)
    ensures
        match found {
            Some(k) => is_next(versions@, marker, k as int),
            None => forall|j: int|
                0 <= j < versions.len() && (#[trigger] versions[j]) is Some ==> !is_beyond(
                    versions[j]->0 as int,
                    marker,
                ),
        },
{
    let mut found: Option<usize> = None;
    let mut j: usize = 0;
    while j < versions.len()
        invariant
            j <= versions.len(),
            match found {
                Some(k) => is_next(versions@.take(j as int), marker, k as int),
                None => forall|i: int|
                    0 <= i < j && (#[trigger] versions[i]) is Some ==> !is_beyond(
                        versions[i]->0 as int,
                        marker,
                    ),
            },
        decreases versions.len() - j,
    {
        if let Some(version) = versions[j] {
            let beyond = match marker {
                Some(seen) => version > seen,
                None => true,
            };
            if beyond {
                let lower = match found {
                    Some(k) => match versions[k] {
                        Some(best) => version < best,
                        None => false,
                    },
                    None => true,
                };
                if lower {
                    found = Some(j);
                }
            }
        }
        j += 1;
    }
    assert(versions@.take(versions.len() as int) == versions@);
    found
}

/// How far a marker is from the highest version a name can carry.
pub open spec fn room(marker: Option<i64>) -> int {
    match marker {
        None => 1001,
        Some(seen) => if seen < 0 {
            1000
        } else if seen > 999 {
            0
        } else {
            999 - seen
        },
    }
}

/// Lines up the units that are due. `latest` is the highest version on the
/// ledger, `None` while the ledger is empty or absent. Names that carry no
/// version are passed over; where two names carry the same version, the one
/// that comes first in `names` stands for both.
pub fn plan_units(names: &Vec<String>, latest: Option<i64>) -> (plan: Vec<PendingUnit>)
    ensures
        is_plan(plan_view(plan@), names_view(names@), latest),
{
    let versions = parse_all(names);
    let mut plan: Vec<PendingUnit> = Vec::new();
    let mut marker = latest;
    let mut next = next_due(&versions, marker);
    while next.is_some()
        invariant
            are_versions_of(versions@, names@),
            is_ascending(plan_view(plan@)),
            forall|i: int|
                0 <= i < plan.len() ==> has_source(
                    names_view(names@),
                    latest,
                    #[trigger] plan_view(plan@)[i],
                ),
            plan.len() == 0 ==> marker == latest,
            plan.len() > 0 ==> marker == Some(plan@.last().version),
            forall|v: int| is_beyond(v, marker) ==> is_beyond(v, latest),
            forall|k: int|
                0 <= k < names.len() && is_due(#[trigger] names_view(names@)[k], latest)
                    && !is_beyond(unit_version(names_view(names@)[k])->0, marker)
                    ==> plans_version(plan_view(plan@), unit_version(names_view(names@)[k])->0),
            match next {
                Some(k) => is_next(versions@, marker, k as int),
                None => forall|j: int|
                    0 <= j < versions.len() && (#[trigger] versions[j]) is Some ==> !is_beyond(
                        versions[j]->0 as int,
                        marker,
                    ),
            },
        decreases room(marker),
    {
        let k = next.unwrap();
        let version = versions[k].unwrap();
        let ghost before = plan_view(plan@);
        let ghost old_marker = marker;
        plan.push(PendingUnit { version, name: names[k].clone() });
        marker = Some(version);
        next = next_due(&versions, marker);
        proof {
            let after = plan_view(plan@);
            let all = names_view(names@);
            let last = before.len() as int;
            assert(is_source(all, latest, after[last], k as int)) by {
                assert forall|j: int| 0 <= j < k implies unit_version(#[trigger] all[j]) != Some(
                    version as int,
                ) by {
                    assert(versions[j] != versions[k as int]);
                }
            }
            assert forall|i: int| 0 <= i < after.len() implies has_source(
                all,
                latest,
                #[trigger] after[i],
            ) by {
                if i < last {
                    assert(after[i] == before[i]);
                }
            }
            assert forall|i: int, j: int| 0 <= i < j < after.len() implies after[i].version
                < after[j].version by {
                if j < last {
                    assert(before[i].version < before[j].version);
                } else if i < last - 1 {
                    assert(before[i].version < before[last - 1].version);
                }
            }
            assert forall|n: int|
                0 <= n < names.len() && is_due(#[trigger] all[n], latest) && !is_beyond(
                    unit_version(all[n])->0,
                    marker,
                ) implies plans_version(after, unit_version(all[n])->0) by {
                let v = unit_version(all[n])->0;
                assert(versions[n] == Some(v as i64));
                if is_beyond(v, old_marker) {
                    assert(after[last].version == v);
                } else {
                    let i = choose|i: int| 0 <= i < before.len() && #[trigger] before[i].version == v;
                    assert(after[i].version == v);
                }
            }
        }
    }
    proof {
        let all = names_view(names@);
        assert forall|n: int|
            0 <= n < names.len() && is_due(#[trigger] all[n], latest) implies plans_version(
                plan_view(plan@),
                unit_version(all[n])->0,
            ) by {
            let v = unit_version(all[n])->0;
            assert(versions[n] == Some(v as i64));
        }
    }
    plan
}

/// Two ascending lines that hold the same versions hold them at the same
/// places.
pub proof fn lemma_same_versions(a: Seq<PlannedUnit>, b: Seq<PlannedUnit>)
    requires
        is_ascending(a),
        is_ascending(b),
        forall|v: int| #[trigger] plans_version(a, v) <==> #[trigger] plans_version(b, v),
    ensures
        a.len() == b.len(),
        forall|i: int| 0 <= i < a.len() ==> (#[trigger] a[i]).version == b[i].version,
    decreases a.len(),
{
    if a.len() == 0 {
        if b.len() > 0 {
            assert(plans_version(b, b[0].version as int));
            assert(plans_version(a, b[0].version as int));
        }
    } else {
        let top = a.last().version as int;
        assert(plans_version(a, top));
        assert(plans_version(b, top));
        assert(plans_version(b, b.last().version as int));
        assert(plans_version(a, b.last().version as int));
        let a_rest = a.drop_last();
        let b_rest = b.drop_last();
        assert forall|v: int| #[trigger]
            plans_version(a_rest, v) <==> #[trigger] plans_version(b_rest, v) by {
            lemma_rest_versions(a, v);
            lemma_rest_versions(b, v);
        }
        lemma_same_versions(a_rest, b_rest);
        assert forall|i: int| 0 <= i < a.len() implies (#[trigger] a[i]).version
            == b[i].version by {
            if i < a.len() - 1 {
                assert(a_rest[i].version == b_rest[i].version);
            }
        }
    }
}

/// All but the last unit of an ascending line hold the versions of the
/// line but the last one.
proof fn lemma_rest_versions(plan: Seq<PlannedUnit>, v: int)
    requires
        is_ascending(plan),
        plan.len() > 0,
    ensures
        plans_version(plan.drop_last(), v) <==> plans_version(plan, v) && v != plan.last().version,
{
    let rest = plan.drop_last();
    if plans_version(rest, v) {
        let i = choose|i: int| 0 <= i < rest.len() && #[trigger] rest[i].version == v;
        assert(plan[i].version == v);
    }
    if plans_version(plan, v) && v != plan.last().version {
        let i = choose|i: int| 0 <= i < plan.len() && #[trigger] plan[i].version == v;
        assert(rest[i].version == v);
    }
}

/// There is one plan and no other: whatever meets [`is_plan`] for the same
/// names and the same ledger is the same line of units.
pub proof fn theorem_plan_unique(
    a: Seq<PlannedUnit>,
    b: Seq<PlannedUnit>,
    names: Seq<Seq<char>>,
    latest: Option<i64>,
)
    requires
        is_plan(a, names, latest),
        is_plan(b, names, latest),
    ensures
        a == b,
{
    assert forall|v: int| #[trigger] plans_version(a, v) <==> #[trigger] plans_version(b, v) by {
        lemma_planned_elsewhere(a, names, b, names, latest, v);
        lemma_planned_elsewhere(b, names, a, names, latest, v);
    }
    lemma_same_versions(a, b);
    assert forall|i: int| 0 <= i < a.len() implies a[i] == b[i] by {
        let ka = choose|k: int| is_source(names, latest, a[i], k);
        let kb = choose|k: int| is_source(names, latest, b[i], k);
        assert(ka == kb);
    }
}

/// A version planned over one list of names is planned over any list that
/// holds the same names.
proof fn lemma_planned_elsewhere(
    a: Seq<PlannedUnit>,
    names_a: Seq<Seq<char>>,
    b: Seq<PlannedUnit>,
    names_b: Seq<Seq<char>>,
    latest: Option<i64>,
    v: int,
)
    requires
        is_plan(a, names_a, latest),
        is_plan(b, names_b, latest),
        forall|name: Seq<char>| names_a.contains(name) ==> names_b.contains(name),
    ensures
        plans_version(a, v) ==> plans_version(b, v),
{
    if plans_version(a, v) {
        let i = choose|i: int| 0 <= i < a.len() && #[trigger] a[i].version == v;
        let k = choose|k: int| is_source(names_a, latest, a[i], k);
        assert(names_a.contains(names_a[k]));
        let n = choose|n: int| 0 <= n < names_b.len() && names_b[n] == names_a[k];
        assert(is_due(names_b[n], latest));
    }
}

/// The plan of a run over `names` when the ledger stands at `latest`.
/// [`lemma_plan_exists`] shows that there is one, [`theorem_plan_unique`]
/// that there is no other.
pub open spec fn plan_of(names: Seq<Seq<char>>, latest: Option<i64>) -> Seq<PlannedUnit> {
    choose|plan: Seq<PlannedUnit>| is_plan(plan, names, latest)
}

/// For each name, whether it carries `version`.
pub open spec fn carries(names: Seq<Seq<char>>, version: int) -> Seq<bool> {
    names.map_values(|name: Seq<char>| unit_version(name) == Some(version))
}

/// The due units with a version below `bound`, lowest first.
pub open spec fn plan_below(names: Seq<Seq<char>>, latest: Option<i64>, bound: int) -> Seq<
    PlannedUnit,
>
    decreases bound,
{
    if bound <= 0 {
        Seq::empty()
    } else {
        let below = plan_below(names, latest, bound - 1);
        let version = bound - 1;
        let place = first_index(carries(names, version));
        if place is Some && is_beyond(version, latest) {
            below.push(PlannedUnit { version: version as i64, name: names[place->0] })
        } else {
            below
        }
    }
}

/// [`plan_below`] is the plan as far as it goes.
proof fn lemma_plan_below(names: Seq<Seq<char>>, latest: Option<i64>, bound: int)
    requires
        0 <= bound <= 1000,
    ensures
        is_ascending(plan_below(names, latest, bound)),
        forall|i: int|
            0 <= i < plan_below(names, latest, bound).len() ==> {
                &&& (#[trigger] plan_below(names, latest, bound)[i]).version < bound
                &&& has_source(names, latest, plan_below(names, latest, bound)[i])
            },
        forall|k: int|
            0 <= k < names.len() && is_due(#[trigger] names[k], latest) && unit_version(
                names[k],
            )->0 < bound ==> plans_version(
                plan_below(names, latest, bound),
                unit_version(names[k])->0,
            ),
    decreases bound,
{
    if bound > 0 {
        lemma_plan_below(names, latest, bound - 1);
        let below = plan_below(names, latest, bound - 1);
        let plan = plan_below(names, latest, bound);
        let version = bound - 1;
        let flags = carries(names, version);
        let place = first_index(flags);
        let added = place is Some && is_beyond(version, latest);
        if added {
            let k = place->0;
            assert(is_source(names, latest, plan.last(), k)) by {
                assert forall|j: int| 0 <= j < k implies unit_version(#[trigger] names[j])
                    != Some(version) by {
                    assert(!flags[j]);
                }
            }
        }
        assert forall|k: int|
            0 <= k < names.len() && is_due(#[trigger] names[k], latest) && unit_version(
                names[k],
            )->0 < bound implies plans_version(plan, unit_version(names[k])->0) by {
            let v = unit_version(names[k])->0;
            if v < bound - 1 {
                let i = choose|i: int| 0 <= i < below.len() && #[trigger] below[i].version == v;
                assert(plan[i].version == v);
            } else {
                lemma_first_exists(flags, k);
                assert(plan.last().version == v);
            }
        }
    }
}

/// Every list of names has a plan, whatever the ledger holds.
pub proof fn lemma_plan_exists(names: Seq<Seq<char>>, latest: Option<i64>)
    ensures
        is_plan(plan_of(names, latest), names, latest),
{
    lemma_plan_below(names, latest, 1000);
    assert(is_plan(plan_below(names, latest, 1000), names, latest));
}

/// Whether no two places of `names` carry the same version.
pub open spec fn has_distinct_versions(names: Seq<Seq<char>>) -> bool {
    forall|j: int, k: int|
        0 <= j < k < names.len() && unit_version(#[trigger] names[j]) is Some ==> unit_version(
            names[j],
        ) != unit_version(#[trigger] names[k])
}

/// The order in which units are found does not matter. Where no two units
/// carry the same version, any reordering of the names yields the same plan.
pub proof fn theorem_order_independent(
    a: Seq<PlannedUnit>,
    names_a: Seq<Seq<char>>,
    b: Seq<PlannedUnit>,
    names_b: Seq<Seq<char>>,
    latest: Option<i64>,
)
    requires
        names_a.to_multiset() == names_b.to_multiset(),
        has_distinct_versions(names_a),
        is_plan(a, names_a, latest),
        is_plan(b, names_b, latest),
    ensures
        a == b,
{
    assert forall|name: Seq<char>| names_a.contains(name) <==> names_b.contains(name) by {
        names_a.to_multiset_ensures();
        names_b.to_multiset_ensures();
        assert(names_b.contains(name) <==> names_b.to_multiset().count(name) > 0);
    }
    assert forall|v: int| #[trigger] plans_version(a, v) <==> #[trigger] plans_version(b, v) by {
        lemma_planned_elsewhere(a, names_a, b, names_b, latest, v);
        lemma_planned_elsewhere(b, names_b, a, names_a, latest, v);
    }
    lemma_same_versions(a, b);
    assert forall|i: int| 0 <= i < a.len() implies a[i] == b[i] by {
        let ka = choose|k: int| is_source(names_a, latest, a[i], k);
        let kb = choose|k: int| is_source(names_b, latest, b[i], k);
        assert(names_b.contains(names_b[kb]));
        let k = choose|k: int| 0 <= k < names_a.len() && names_a[k] == names_b[kb];
        assert(k == ka);
    }
}

} // verus!
