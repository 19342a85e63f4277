//! The store-wide invariant on record flags and the operations that keep it.

use vstd::prelude::*;

use crate::crud::{deleted, edited, edited_row, edited_status, submitted_row};
use crate::laws::{
    flags_consistent, flags_settled, law_insert_keeps_consistent, law_insert_keeps_settled,
    law_rebuild_keeps_consistent, law_rebuild_keeps_others_settled, law_rebuild_settles,
    law_removal_keeps_consistent, law_removal_keeps_settled, law_replacement_keeps_consistent,
    law_replacement_keeps_settled, lemma_partitions_disjoint,
};
use crate::partition::{inserted, recalculated, RecordScope};
use crate::rules::{rule_of, PartitionKey};
use crate::store::{is_first_position, ResultStore};
use crate::types::Result as AthleteResult;
use crate::types::{CreateResult, ResultStatus, UpdateResult};

verus! {

/// Whether `scope` splits its discipline the way the catalog of `store`
/// says it is split.
pub open spec fn governs(store: ResultStore, scope: RecordScope) -> bool {
    store.discipline(scope.discipline_id) matches Some(discipline) && scope.rule == rule_of(
        discipline.category@,
    )
}

/// Whether `rows` carry consistent flags in every partition of every
/// discipline of the catalog: at most one personal best, and at most one
/// season best per year, among the valid rows of the partition.
pub open spec fn rows_consistent(store: ResultStore, rows: Seq<AthleteResult>) -> bool {
    forall|scope: RecordScope| #[trigger] governs(store, scope) ==> flags_consistent(rows, scope)
}

/// Whether the results on file carry consistent flags.
pub open spec fn consistent(store: ResultStore) -> bool {
    rows_consistent(store, store.results@)
}

/// Consistency is judged by the discipline catalog alone, so it carries over
/// to any store with the same catalog.
pub proof fn lemma_same_catalog(a: ResultStore, b: ResultStore, rows: Seq<AthleteResult>)
    requires
        a.disciplines@ == b.disciplines@,
        rows_consistent(a, rows),
    ensures
        rows_consistent(b, rows),
{
    assert forall|scope: RecordScope| #[trigger] governs(b, scope) implies flags_consistent(
        rows,
        scope,
    ) by {
        assert(a.discipline_ids() == b.discipline_ids());
        assert(governs(a, scope));
    }
}

/// A store without results is consistent.
pub proof fn law_empty_is_consistent(store: ResultStore)
    requires
        store.results@.len() == 0,
    ensures
        consistent(store),
{
}

/// The partition that the store resolves a result to carries the ids it was
/// asked for and splits its discipline as the catalog says.
pub proof fn lemma_resolved_scope(
    store: ResultStore,
    athlete_id: i64,
    discipline_id: i64,
    equipment_weight: Option<i64>,
    hurdle_height: Option<i32>,
)
    requires
        store.scope(athlete_id, discipline_id, equipment_weight, hurdle_height) is Some,
    ensures
        ({
            let scope = store.scope(athlete_id, discipline_id, equipment_weight, hurdle_height)->0;
            &&& scope.athlete_id == athlete_id
            &&& scope.discipline_id == discipline_id
            &&& governs(store, scope)
            &&& scope.covers(
                AthleteResult {
                    id: 0,
                    athlete_id,
                    discipline_id,
                    year: 0,
                    value: 0,
                    wind: None,
                    status: ResultStatus::Valid,
                    equipment_weight,
                    hurdle_height,
                    is_personal_best: false,
                    is_season_best: false,
                    is_national_record: false,
                },
            )
        }),
{
    let a = choose|i: int| is_first_position(store.athlete_ids(), athlete_id, i);
    let d = choose|i: int| is_first_position(store.discipline_ids(), discipline_id, i);
    assert(is_first_position(store.athlete_ids(), athlete_id, a));
    assert(is_first_position(store.discipline_ids(), discipline_id, d));
    assert(store.athlete_ids()[a] == store.athletes@[a].id);
    assert(store.discipline_ids()[d] == store.disciplines@[d].id);
}

/// A rebuild of any partition of the store keeps the store consistent.
pub proof fn law_rebuild_keeps_store_consistent(
    store: ResultStore,
    rows: Seq<AthleteResult>,
    rebuilt: RecordScope,
)
    requires
        governs(store, rebuilt),
        rows_consistent(store, rows),
    ensures
        rows_consistent(store, recalculated(rows, rebuilt)),
{
    assert forall|scope: RecordScope| #[trigger] governs(store, scope) implies flags_consistent(
        recalculated(rows, rebuilt),
        scope,
    ) by {
        law_rebuild_keeps_consistent(rows, rebuilt, scope);
    }
}

/// Recording a new result keeps the store consistent.
pub proof fn law_create_keeps_store_consistent(
    store: ResultStore,
    result: CreateResult,
    id: i64,
    status: ResultStatus,
    current_year: i32,
)
    requires
        consistent(store),
        store.scope(
            result.athlete_id,
            result.discipline_id,
            result.equipment_weight,
            result.hurdle_height,
        ) is Some,
    ensures
        rows_consistent(
            store,
            inserted(
                store.results@,
                store.scope(
                    result.athlete_id,
                    result.discipline_id,
                    result.equipment_weight,
                    result.hurdle_height,
                )->0,
                submitted_row(result, id, status, current_year),
            ),
        ),
{
    let scope = store.scope(
        result.athlete_id,
        result.discipline_id,
        result.equipment_weight,
        result.hurdle_height,
    )->0;
    let row = submitted_row(result, id, status, current_year);
    lemma_resolved_scope(
        store,
        result.athlete_id,
        result.discipline_id,
        result.equipment_weight,
        result.hurdle_height,
    );
    assert(scope.covers(row));
    assert forall|other: RecordScope| #[trigger] governs(store, other) implies flags_consistent(
        inserted(store.results@, scope, row),
        other,
    ) by {
        law_insert_keeps_consistent(store.results@, scope, row, other);
    }
}

/// Deleting a result and rebuilding the partition it belonged to keeps the
/// store consistent.
pub proof fn law_delete_keeps_store_consistent(store: ResultStore, position: int)
    requires
        consistent(store),
        0 <= position < store.results@.len(),
        deleted(store, position) is Some,
    ensures
        rows_consistent(store, deleted(store, position)->0),
{
    let row = store.results@[position];
    let scope = store.scope(
        row.athlete_id,
        row.discipline_id,
        row.equipment_weight,
        row.hurdle_height,
    )->0;
    lemma_resolved_scope(
        store,
        row.athlete_id,
        row.discipline_id,
        row.equipment_weight,
        row.hurdle_height,
    );
    let remaining = store.results@.remove(position);
    assert forall|other: RecordScope| #[trigger] governs(store, other) implies flags_consistent(
        remaining,
        other,
    ) by {
        law_removal_keeps_consistent(store.results@, position, other);
    }
    law_rebuild_keeps_store_consistent(store, remaining, scope);
}

/// Editing a result and rebuilding the partition it left and the partition
/// it entered keeps the store consistent.
pub proof fn law_update_keeps_store_consistent(
    store: ResultStore,
    position: int,
    update: UpdateResult,
    current_year: i32,
)
    requires
        consistent(store),
        0 <= position < store.results@.len(),
        edited(store, position, update, current_year) is Ok,
    ensures
        rows_consistent(store, edited(store, position, update, current_year)->Ok_0),
{
    let row = store.results@[position];
    let status = edited_status(row.status, update.status)->0;
    let after = edited_row(row, update, status, current_year);
    let left = store.scope(
        row.athlete_id,
        row.discipline_id,
        row.equipment_weight,
        row.hurdle_height,
    )->0;
    let entered = store.scope(
        after.athlete_id,
        after.discipline_id,
        after.equipment_weight,
        after.hurdle_height,
    )->0;
    lemma_resolved_scope(
        store,
        row.athlete_id,
        row.discipline_id,
        row.equipment_weight,
        row.hurdle_height,
    );
    lemma_resolved_scope(
        store,
        after.athlete_id,
        after.discipline_id,
        after.equipment_weight,
        after.hurdle_height,
    );
    assert(entered.covers(after));
    let replaced = store.results@.update(position, after);
    let first = recalculated(replaced, left);
    let second = recalculated(first, entered);
    assert forall|other: RecordScope| #[trigger] governs(store, other) implies flags_consistent(
        second,
        other,
    ) by {
        if other.same_partition(entered) {
            law_rebuild_keeps_consistent(first, entered, other);
        } else {
            lemma_partitions_disjoint(entered, other, after);
            law_replacement_keeps_consistent(store.results@, position, after, other);
            law_rebuild_keeps_consistent(replaced, left, other);
            law_rebuild_keeps_consistent(first, entered, other);
        }
    }
}

/// The implement weight that a partition is named by, if it is named by
/// one.
pub open spec fn weight_of(key: PartitionKey) -> Option<i64> {
    match key {
        PartitionKey::EquipmentWeight(weight) => Some(weight),
        _ => None,
    }
}

/// The hurdle height that a partition is named by, if it is named by one.
pub open spec fn height_of(key: PartitionKey) -> Option<i32> {
    match key {
        PartitionKey::HurdleHeight(height) => Some(height),
        _ => None,
    }
}

/// Whether `scope` is a partition of `store` with the rules that the
/// catalog and the registry of the store give it.
pub open spec fn resolved(store: ResultStore, scope: RecordScope) -> bool {
    store.scope(
        scope.athlete_id,
        scope.discipline_id,
        weight_of(scope.key),
        height_of(scope.key),
    ) == Some(scope)
}

/// Whether `rows` carry up-to-date flags in every partition of `store`:
/// each row is flagged exactly as a rebuild of its partition would flag it,
/// so the personal best is the first eligible row in best-first order, and
/// so is the season best of each year.
pub open spec fn rows_settled(store: ResultStore, rows: Seq<AthleteResult>) -> bool {
    forall|scope: RecordScope| #[trigger] resolved(store, scope) ==> flags_settled(rows, scope)
}

/// Whether the results on file carry up-to-date flags.
pub open spec fn settled(store: ResultStore) -> bool {
    rows_settled(store, store.results@)
}

/// Up-to-date flags are judged by the catalog and the registry alone, so
/// they carry over to any store with the same two.
pub proof fn lemma_same_references(a: ResultStore, b: ResultStore, rows: Seq<AthleteResult>)
    requires
        a.disciplines@ == b.disciplines@,
        a.athletes@ == b.athletes@,
        rows_settled(a, rows),
    ensures
        rows_settled(b, rows),
{
    assert forall|scope: RecordScope| #[trigger] resolved(b, scope) implies flags_settled(
        rows,
        scope,
    ) by {
        assert(a.discipline_ids() == b.discipline_ids());
        assert(a.athlete_ids() == b.athlete_ids());
        assert(resolved(a, scope));
    }
}

/// What the store resolves a result to is one of its partitions.
pub proof fn lemma_scope_is_resolved(
    store: ResultStore,
    athlete_id: i64,
    discipline_id: i64,
    equipment_weight: Option<i64>,
    hurdle_height: Option<i32>,
)
    requires
        store.scope(athlete_id, discipline_id, equipment_weight, hurdle_height) is Some,
    ensures
        resolved(
            store,
            store.scope(athlete_id, discipline_id, equipment_weight, hurdle_height)->0,
        ),
{
    lemma_resolved_scope(store, athlete_id, discipline_id, equipment_weight, hurdle_height);
}

/// A partition of the store splits its discipline as the catalog says, and
/// two scopes that name the same partition of the store are the same scope.
pub proof fn lemma_resolved_scopes(store: ResultStore, a: RecordScope, b: RecordScope)
    requires
        resolved(store, a),
        resolved(store, b),
    ensures
        governs(store, a),
        governs(store, b),
        a.same_partition(b) ==> a == b,
{
    lemma_resolved_scope(store, a.athlete_id, a.discipline_id, weight_of(a.key), height_of(a.key));
    lemma_resolved_scope(store, b.athlete_id, b.discipline_id, weight_of(b.key), height_of(b.key));
}

/// A rebuild of any partition of the store keeps the flags up to date
/// everywhere, and brings them up to date in the rebuilt partition.
pub proof fn law_rebuild_keeps_store_settled(
    store: ResultStore,
    rows: Seq<AthleteResult>,
    rebuilt: RecordScope,
    other: RecordScope,
)
    requires
        resolved(store, rebuilt),
        resolved(store, other),
        other == rebuilt || flags_settled(rows, other),
    ensures
        flags_settled(recalculated(rows, rebuilt), other),
{
    lemma_resolved_scopes(store, rebuilt, other);
    if other == rebuilt {
        law_rebuild_settles(rows, rebuilt);
    } else {
        law_rebuild_keeps_others_settled(rows, rebuilt, other);
    }
}

/// Recording a new result keeps the flags up to date: the fast path leaves
/// the store as a rebuild of the partition would.
pub proof fn law_create_keeps_store_settled(
    store: ResultStore,
    result: CreateResult,
    id: i64,
    status: ResultStatus,
    current_year: i32,
)
    requires
        settled(store),
        store.scope(
            result.athlete_id,
            result.discipline_id,
            result.equipment_weight,
            result.hurdle_height,
        ) is Some,
    ensures
        rows_settled(
            store,
            inserted(
                store.results@,
                store.scope(
                    result.athlete_id,
                    result.discipline_id,
                    result.equipment_weight,
                    result.hurdle_height,
                )->0,
                submitted_row(result, id, status, current_year),
            ),
        ),
{
    let scope = store.scope(
        result.athlete_id,
        result.discipline_id,
        result.equipment_weight,
        result.hurdle_height,
    )->0;
    let row = submitted_row(result, id, status, current_year);
    lemma_resolved_scope(
        store,
        result.athlete_id,
        result.discipline_id,
        result.equipment_weight,
        result.hurdle_height,
    );
    lemma_scope_is_resolved(
        store,
        result.athlete_id,
        result.discipline_id,
        result.equipment_weight,
        result.hurdle_height,
    );
    assert(scope.covers(row));
    assert forall|other: RecordScope| #[trigger] resolved(store, other) implies flags_settled(
        inserted(store.results@, scope, row),
        other,
    ) by {
        lemma_resolved_scopes(store, scope, other);
        law_insert_keeps_settled(store.results@, scope, row, other);
    }
}

/// Deleting a result and rebuilding the partition it belonged to keeps the
/// flags up to date, so the next-best eligible result takes over a record
/// that the deleted one held.
pub proof fn law_delete_keeps_store_settled(store: ResultStore, position: int)
    requires
        settled(store),
        0 <= position < store.results@.len(),
        deleted(store, position) is Some,
    ensures
        rows_settled(store, deleted(store, position)->0),
{
    let row = store.results@[position];
    let scope = store.scope(
        row.athlete_id,
        row.discipline_id,
        row.equipment_weight,
        row.hurdle_height,
    )->0;
    lemma_resolved_scope(
        store,
        row.athlete_id,
        row.discipline_id,
        row.equipment_weight,
        row.hurdle_height,
    );
    lemma_scope_is_resolved(
        store,
        row.athlete_id,
        row.discipline_id,
        row.equipment_weight,
        row.hurdle_height,
    );
    assert(scope.covers(row));
    let remaining = store.results@.remove(position);
    assert forall|other: RecordScope| #[trigger] resolved(store, other) implies flags_settled(
        recalculated(remaining, scope),
        other,
    ) by {
        lemma_resolved_scopes(store, scope, other);
        if other != scope {
            lemma_partitions_disjoint(scope, other, row);
            law_removal_keeps_settled(store.results@, position, other);
        }
        law_rebuild_keeps_store_settled(store, remaining, scope, other);
    }
}

/// Editing a result and rebuilding the partition it left and the partition
/// it entered keeps the flags up to date.
pub proof fn law_update_keeps_store_settled(
    store: ResultStore,
    position: int,
    update: UpdateResult,
    current_year: i32,
)
    requires
        settled(store),
        0 <= position < store.results@.len(),
        edited(store, position, update, current_year) is Ok,
    ensures
        rows_settled(store, edited(store, position, update, current_year)->Ok_0),
{
    let row = store.results@[position];
    let status = edited_status(row.status, update.status)->0;
    let after = edited_row(row, update, status, current_year);
    let left = store.scope(
        row.athlete_id,
        row.discipline_id,
        row.equipment_weight,
        row.hurdle_height,
    )->0;
    let entered = store.scope(
        after.athlete_id,
        after.discipline_id,
        after.equipment_weight,
        after.hurdle_height,
    )->0;
    lemma_resolved_scope(
        store,
        row.athlete_id,
        row.discipline_id,
        row.equipment_weight,
        row.hurdle_height,
    );
    lemma_resolved_scope(
        store,
        after.athlete_id,
        after.discipline_id,
        after.equipment_weight,
        after.hurdle_height,
    );
    lemma_scope_is_resolved(
        store,
        row.athlete_id,
        row.discipline_id,
        row.equipment_weight,
        row.hurdle_height,
    );
    lemma_scope_is_resolved(
        store,
        after.athlete_id,
        after.discipline_id,
        after.equipment_weight,
        after.hurdle_height,
    );
    assert(left.covers(row));
    assert(entered.covers(after));
    let replaced = store.results@.update(position, after);
    let first = recalculated(replaced, left);
    let second = recalculated(first, entered);
    assert forall|other: RecordScope| #[trigger] resolved(store, other) implies flags_settled(
        second,
        other,
    ) by {
        lemma_resolved_scopes(store, left, other);
        lemma_resolved_scopes(store, entered, other);
        if other != left && other != entered {
            lemma_partitions_disjoint(left, other, row);
            lemma_partitions_disjoint(entered, other, after);
            law_replacement_keeps_settled(store.results@, position, after, other);
        }
        if other != entered {
            law_rebuild_keeps_store_settled(store, replaced, left, other);
        }
        law_rebuild_keeps_store_settled(store, first, entered, other);
    }
}

} // verus!
