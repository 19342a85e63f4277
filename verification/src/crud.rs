//! Recording, editing and deleting results, with the record flags kept in
//! step.
//!
//! A new result is flagged on the fast path: its own flags are decided
//! against the records on file and the holders it displaces are demoted. An
//! edit or a deletion rebuilds the flags of every partition it touches.

use vstd::prelude::*;

use crate::clock::current_year;
use crate::consistency::{
    consistent, law_create_keeps_store_consistent, law_create_keeps_store_settled,
    law_delete_keeps_store_consistent, law_delete_keeps_store_settled,
    law_update_keeps_store_consistent, law_update_keeps_store_settled, lemma_same_catalog,
    lemma_same_references, settled,
};
use crate::dates::{result_year, year_or};
use crate::partition::{
    inserted, recalculate_partition, recalculated, record_in_partition, takes_record,
    would_take_record,
};
use crate::store::{first_position, RecordError, ResultStore};
use crate::types::Result as AthleteResult;
use crate::types::{
    parse_status, parse_status_code, status_of, status_of_code, CreateResult, ResultStatus,
    UpdateResult,
};

verus! {

/// Whether `id` is the id the store gives its next result: one more than the
/// largest id on file, and 1 for the first result.
pub open spec fn is_next_id(rows: Seq<AthleteResult>, id: i64) -> bool {
    &&& id >= 1
    &&& forall|i: int| 0 <= i < rows.len() ==> (#[trigger] rows[i]).id < id
    &&& (id == 1 || exists|i: int| 0 <= i < rows.len() && (#[trigger] rows[i]).id + 1 == id)
}

/// Whether the largest id there is has been given out.
pub open spec fn ids_exhausted(rows: Seq<AthleteResult>) -> bool {
    exists|i: int| 0 <= i < rows.len() && (#[trigger] rows[i]).id == i64::MAX
}

/// The year a submission dated `date` counts for.
pub open spec fn submitted_year(date: Seq<char>, current_year: i32) -> i32 {
    year_or(date, current_year) as i32
}

/// The row that a submission becomes, before its record flags are decided.
pub open spec fn submitted_row(
    result: CreateResult,
    id: i64,
    status: ResultStatus,
    current_year: i32,
) -> AthleteResult {
    AthleteResult {
        id,
        athlete_id: result.athlete_id,
        discipline_id: result.discipline_id,
        year: submitted_year(result.date@, current_year),
        value: result.value,
        wind: result.wind,
        status,
        equipment_weight: result.equipment_weight,
        hurdle_height: result.hurdle_height,
        is_personal_best: false,
        is_season_best: false,
        is_national_record: match result.is_national_record {
            Some(mark) => mark,
            None => false,
        },
    }
}

/// Builds the row of a submission.
fn row_of_submission(
    result: &CreateResult,
    id: i64,
    status: ResultStatus,
    current_year: i32,
) -> (row: AthleteResult)
    ensures
        row == submitted_row(*result, id, status, current_year),
{
    AthleteResult {
        id,
        athlete_id: result.athlete_id,
        discipline_id: result.discipline_id,
        year: result_year(result.date.as_str(), current_year),
        value: result.value,
        wind: result.wind,
        status,
        equipment_weight: result.equipment_weight,
        hurdle_height: result.hurdle_height,
        is_personal_best: false,
        is_season_best: false,
        is_national_record: match result.is_national_record {
            Some(mark) => mark,
            None => false,
        },
    }
}

/// What the insertion-time check answers for a submission: the pair of its
/// personal-best and season-best flags. A submission that is not valid takes
/// no record, whatever else it holds.
pub open spec fn evaluation(
    store: ResultStore,
    result: CreateResult,
    current_year: i32,
) -> Result<(bool, bool), RecordError> {
    if status_of(result.status) != Some(ResultStatus::Valid) {
        Ok((false, false))
    } else {
        match store.scope(
            result.athlete_id,
            result.discipline_id,
            result.equipment_weight,
            result.hurdle_height,
        ) {
            Some(scope) => {
                let row = submitted_row(result, 0, ResultStatus::Valid, current_year);
                Ok(
                    (
                        takes_record(store.results@, scope, None, row),
                        takes_record(store.results@, scope, Some(row.year), row),
                    ),
                )
            },
            None => Err(RecordError::ReferenceNotFound),
        }
    }
}

/// Decides, before a new result is stored, whether it would become the
/// athlete's personal best and the season best of its year.
///
/// A result whose status is not valid takes no record. A valid one takes a
/// record if it is wind-legal and strictly better than the best valid,
/// wind-legal result on file in its partition: of all time for the personal
/// best, of its own year for the season best. Nothing is written.
/// `current_year` stands in for the year of a date that opens with none.
pub fn evaluate_new_result(
    store: &ResultStore,
    result: &CreateResult,
    current_year: i32,
) -> (flags: Result<(bool, bool), RecordError>)
    ensures
        flags == evaluation(*store, *result, current_year),
{
    match parse_status(&result.status) {
        Some(ResultStatus::Valid) => {},
        _ => {
            return Ok((false, false));
        },
    }
    match store.resolve_scope(
        result.athlete_id,
        result.discipline_id,
        result.equipment_weight,
        result.hurdle_height,
    ) {
        Ok(scope) => {
            let row = row_of_submission(result, 0, ResultStatus::Valid, current_year);
            let personal_best = would_take_record(&store.results, &scope, None, &row);
            let season_best = would_take_record(&store.results, &scope, Some(row.year), &row);
            Ok((personal_best, season_best))
        },
        Err(e) => Err(e),
    }
}

/// Why the store refuses a submission, if it does: an unknown status code,
/// an athlete or discipline that is not on file, or no id left to give.
pub open spec fn creation_error(store: ResultStore, result: CreateResult) -> Option<RecordError> {
    if status_of(result.status) is None {
        Some(RecordError::StoreError)
    } else if store.scope(
        result.athlete_id,
        result.discipline_id,
        result.equipment_weight,
        result.hurdle_height,
    ) is None {
        Some(RecordError::ReferenceNotFound)
    } else if ids_exhausted(store.results@) {
        Some(RecordError::StoreError)
    } else {
        None
    }
}

impl ResultStore {
    /// The id for the next result: one more than the largest on file.
    pub fn next_result_id(&self) -> (next: Option<i64>)
        ensures
            match next {
                Some(id) => is_next_id(self.results@, id),
                None => ids_exhausted(self.results@),
            },
    {
        let mut largest: i64 = 0;
        let mut i: usize = 0;
        while i < self.results.len()
            invariant
                i <= self.results.len(),
                largest >= 0,
                forall|k: int| 0 <= k < i ==> (#[trigger] self.results@[k]).id <= largest,
                largest == 0 || exists|k: int|
                    0 <= k < i && (#[trigger] self.results@[k]).id == largest,
            decreases self.results.len() - i,
        {
            if self.results[i].id > largest {
                largest = self.results[i].id;
            }
            i += 1;
        }
        if largest == i64::MAX {
            None
        } else {
            let next = largest + 1;
            proof {
                if largest != 0 {
                    let k = choose|k: int|
                        0 <= k < self.results@.len() && (#[trigger] self.results@[k]).id
                            == largest;
                    assert(self.results@[k].id + 1 == next);
                }
            }
            Some(next)
        }
    }
}

/// Records a new result, with `current_year` standing in for the year of a
/// date that opens with none.
///
/// The result is given the next id, flagged with the records it takes, and
/// appended; the holders it displaces lose their flags in the same step.
/// Rows of other partitions are not touched. A refused submission leaves the
/// store as it was.
pub fn create_result_at(
    store: &mut ResultStore,
    result: &CreateResult,
    current_year: i32,
) -> (outcome: Result<AthleteResult, RecordError>)
    ensures
        final(store).athletes == old(store).athletes,
        final(store).disciplines == old(store).disciplines,
        consistent(*old(store)) ==> consistent(*final(store)),
        settled(*old(store)) ==> settled(*final(store)),
        match outcome {
            Ok(stored) => {
                &&& creation_error(*old(store), *result) is None
                &&& is_next_id(old(store).results@, stored.id)
                &&& final(store).results@ == inserted(
                    old(store).results@,
                    old(store).scope(
                        result.athlete_id,
                        result.discipline_id,
                        result.equipment_weight,
                        result.hurdle_height,
                    )->0,
                    submitted_row(
                        *result,
                        stored.id,
                        status_of(result.status)->0,
                        current_year,
                    ),
                )
                &&& stored == final(store).results@.last()
            },
            Err(e) => {
                &&& creation_error(*old(store), *result) == Some(e)
                &&& final(store).results == old(store).results
            },
        },
{
    let status = match parse_status(&result.status) {
        Some(status) => status,
        None => {
            return Err(RecordError::StoreError);
        },
    };
    let scope = match store.resolve_scope(
        result.athlete_id,
        result.discipline_id,
        result.equipment_weight,
        result.hurdle_height,
    ) {
        Ok(scope) => scope,
        Err(e) => {
            return Err(e);
        },
    };
    let id = match store.next_result_id() {
        Some(id) => id,
        None => {
            return Err(RecordError::StoreError);
        },
    };
    let row = row_of_submission(result, id, status, current_year);
    proof {
        if consistent(*store) {
            law_create_keeps_store_consistent(*store, *result, id, status, current_year);
        }
        if settled(*store) {
            law_create_keeps_store_settled(*store, *result, id, status, current_year);
        }
    }
    let stored = record_in_partition(&mut store.results, &scope, row);
    proof {
        if consistent(*old(store)) {
            lemma_same_catalog(*old(store), *store, store.results@);
        }
        if settled(*old(store)) {
            lemma_same_references(*old(store), *store, store.results@);
        }
    }
    Ok(stored)
}

/// Records a new result; a date that opens with no year counts for the
/// current calendar year.
pub fn create_result(
    store: &mut ResultStore,
    result: &CreateResult,
) -> (outcome: Result<AthleteResult, RecordError>)
    ensures
        final(store).athletes == old(store).athletes,
        final(store).disciplines == old(store).disciplines,
        consistent(*old(store)) ==> consistent(*final(store)),
        settled(*old(store)) ==> settled(*final(store)),
        match outcome {
            Ok(stored) => {
                &&& creation_error(*old(store), *result) is None
                &&& is_next_id(old(store).results@, stored.id)
                &&& exists|current_year: i32|
                    final(store).results@ == inserted(
                        old(store).results@,
                        old(store).scope(
                            result.athlete_id,
                            result.discipline_id,
                            result.equipment_weight,
                            result.hurdle_height,
                        )->0,
                        #[trigger] submitted_row(
                            *result,
                            stored.id,
                            status_of(result.status)->0,
                            current_year,
                        ),
                    )
                &&& stored == final(store).results@.last()
            },
            Err(e) => {
                &&& creation_error(*old(store), *result) == Some(e)
                &&& final(store).results == old(store).results
            },
        },
{
    let year = current_year();
    let outcome = create_result_at(store, result, year);
    proof {
        if let Ok(stored) = outcome {
            assert(store.results@ == inserted(
                old(store).results@,
                old(store).scope(
                    result.athlete_id,
                    result.discipline_id,
                    result.equipment_weight,
                    result.hurdle_height,
                )->0,
                submitted_row(*result, stored.id, status_of(result.status)->0, year),
            ));
        }
    }
    outcome
}

/// The status an edit leaves a result with: the stored one unless the edit
/// carries a status code; `None` where it carries an unknown code.
pub open spec fn edited_status(stored: ResultStatus, status: Option<String>) -> Option<ResultStatus> {
    match status {
        Some(code) => status_of_code(code@),
        None => Some(stored),
    }
}

/// The row that an edit turns `row` into; the record flags are carried over
/// for the rebuild to replace.
pub open spec fn edited_row(
    row: AthleteResult,
    update: UpdateResult,
    status: ResultStatus,
    current_year: i32,
) -> AthleteResult {
    AthleteResult {
        id: row.id,
        athlete_id: match update.athlete_id {
            Some(athlete_id) => athlete_id,
            None => row.athlete_id,
        },
        discipline_id: match update.discipline_id {
            Some(discipline_id) => discipline_id,
            None => row.discipline_id,
        },
        year: match update.date {
            Some(date) => submitted_year(date@, current_year),
            None => row.year,
        },
        value: match update.value {
            Some(value) => value,
            None => row.value,
        },
        wind: update.wind,
        status,
        equipment_weight: update.equipment_weight,
        hurdle_height: update.hurdle_height,
        is_personal_best: row.is_personal_best,
        is_season_best: row.is_season_best,
        is_national_record: match update.is_national_record {
            Some(mark) => mark,
            None => row.is_national_record,
        },
    }
}

/// Applies an edit to a row.
fn apply_edit(
    row: &AthleteResult,
    update: &UpdateResult,
    status: ResultStatus,
    current_year: i32,
) -> (edited: AthleteResult)
    ensures
        edited == edited_row(*row, *update, status, current_year),
{
    AthleteResult {
        id: row.id,
        athlete_id: match update.athlete_id {
            Some(athlete_id) => athlete_id,
            None => row.athlete_id,
        },
        discipline_id: match update.discipline_id {
            Some(discipline_id) => discipline_id,
            None => row.discipline_id,
        },
        year: match &update.date {
            Some(date) => result_year(date.as_str(), current_year),
            None => row.year,
        },
        value: match update.value {
            Some(value) => value,
            None => row.value,
        },
        wind: update.wind,
        status,
        equipment_weight: update.equipment_weight,
        hurdle_height: update.hurdle_height,
        is_personal_best: row.is_personal_best,
        is_season_best: row.is_season_best,
        is_national_record: match update.is_national_record {
            Some(mark) => mark,
            None => row.is_national_record,
        },
    }
}

/// The rows after the result at `position` has been edited: the row is
/// replaced, then the partition it left and the partition it is in now are
/// rebuilt. `None` where the store refuses the edit.
pub open spec fn edited(
    store: ResultStore,
    position: int,
    update: UpdateResult,
    current_year: i32,
) -> Result<Seq<AthleteResult>, RecordError> {
    let row = store.results@[position];
    match edited_status(row.status, update.status) {
        None => Err(RecordError::StoreError),
        Some(status) => {
            let after = edited_row(row, update, status, current_year);
            match (
                store.scope(
                    row.athlete_id,
                    row.discipline_id,
                    row.equipment_weight,
                    row.hurdle_height,
                ),
                store.scope(
                    after.athlete_id,
                    after.discipline_id,
                    after.equipment_weight,
                    after.hurdle_height,
                ),
            ) {
                (Some(left), Some(entered)) => Ok(
                    recalculated(
                        recalculated(store.results@.update(position, after), left),
                        entered,
                    ),
                ),
                _ => Err(RecordError::ReferenceNotFound),
            }
        },
    }
}

/// Edits the result that `id` names, with `current_year` standing in for the
/// year of a new date that opens with none, and hands the edited row back
/// with its rebuilt flags.
///
/// The flags on file cannot be trusted after an edit, so the partition the
/// result belonged to and the partition it belongs to now are both rebuilt.
/// The edit is refused, and nothing changed, where no result carries `id`,
/// where the edit carries an unknown status code, or where an athlete or a
/// discipline of the result, as stored or as edited, is not on file.
pub fn update_result_at(
    store: &mut ResultStore,
    id: i64,
    update: &UpdateResult,
    current_year: i32,
) -> (outcome: Result<AthleteResult, RecordError>)
    ensures
        final(store).athletes == old(store).athletes,
        final(store).disciplines == old(store).disciplines,
        consistent(*old(store)) ==> consistent(*final(store)),
        settled(*old(store)) ==> settled(*final(store)),
        match first_position(old(store).result_ids(), id) {
            None => {
                &&& outcome == Err::<AthleteResult, RecordError>(RecordError::StoreError)
                &&& final(store).results == old(store).results
            },
            Some(position) => match edited(*old(store), position, *update, current_year) {
                Ok(rows) => {
                    &&& final(store).results@ == rows
                    &&& outcome == Ok::<AthleteResult, RecordError>(rows[position])
                },
                Err(e) => {
                    &&& outcome == Err::<AthleteResult, RecordError>(e)
                    &&& final(store).results == old(store).results
                },
            },
        },
{
    let position = match store.find_result(id) {
        Some(position) => position,
        None => {
            return Err(RecordError::StoreError);
        },
    };
    let row = store.results[position];
    let status = match &update.status {
        Some(code) => match parse_status_code(code.as_str()) {
            Some(status) => status,
            None => {
                return Err(RecordError::StoreError);
            },
        },
        None => row.status,
    };
    let after = apply_edit(&row, update, status, current_year);
    let left = match store.resolve_scope(
        row.athlete_id,
        row.discipline_id,
        row.equipment_weight,
        row.hurdle_height,
    ) {
        Ok(scope) => scope,
        Err(e) => {
            return Err(e);
        },
    };
    let entered = match store.resolve_scope(
        after.athlete_id,
        after.discipline_id,
        after.equipment_weight,
        after.hurdle_height,
    ) {
        Ok(scope) => scope,
        Err(e) => {
            return Err(e);
        },
    };
    proof {
        if consistent(*store) {
            law_update_keeps_store_consistent(*store, position as int, *update, current_year);
        }
        if settled(*store) {
            law_update_keeps_store_settled(*store, position as int, *update, current_year);
        }
    }
    store.results[position] = after;
    recalculate_partition(&mut store.results, &left);
    recalculate_partition(&mut store.results, &entered);
    proof {
        if consistent(*old(store)) {
            lemma_same_catalog(*old(store), *store, store.results@);
        }
        if settled(*old(store)) {
            lemma_same_references(*old(store), *store, store.results@);
        }
    }
    Ok(store.results[position])
}

/// Edits the result that `id` names; a new date that opens with no year
/// counts for the current calendar year.
pub fn update_result(
    store: &mut ResultStore,
    id: i64,
    update: &UpdateResult,
) -> (outcome: Result<AthleteResult, RecordError>)
    ensures
        final(store).athletes == old(store).athletes,
        final(store).disciplines == old(store).disciplines,
        consistent(*old(store)) ==> consistent(*final(store)),
        settled(*old(store)) ==> settled(*final(store)),
        match first_position(old(store).result_ids(), id) {
            None => {
                &&& outcome == Err::<AthleteResult, RecordError>(RecordError::StoreError)
                &&& final(store).results == old(store).results
            },
            Some(position) => exists|current_year: i32|
                match #[trigger] edited(*old(store), position, *update, current_year) {
                    Ok(rows) => {
                        &&& final(store).results@ == rows
                        &&& outcome == Ok::<AthleteResult, RecordError>(rows[position])
                    },
                    Err(e) => {
                        &&& outcome == Err::<AthleteResult, RecordError>(e)
                        &&& final(store).results == old(store).results
                    },
                },
        },
{
    let year = current_year();
    let outcome = update_result_at(store, id, update, year);
    proof {
        if let Some(position) = first_position(old(store).result_ids(), id) {
            let expected = edited(*old(store), position, *update, year);
            assert(match expected {
                Ok(rows) => {
                    &&& store.results@ == rows
                    &&& outcome == Ok::<AthleteResult, RecordError>(rows[position])
                },
                Err(e) => {
                    &&& outcome == Err::<AthleteResult, RecordError>(e)
                    &&& store.results == old(store).results
                },
            });
        }
    }
    outcome
}

/// The rows after the result at `position` has been deleted and the
/// partition it belonged to rebuilt; `None` where its athlete or discipline
/// is not on file.
pub open spec fn deleted(store: ResultStore, position: int) -> Option<Seq<AthleteResult>> {
    let row = store.results@[position];
    match store.scope(row.athlete_id, row.discipline_id, row.equipment_weight, row.hurdle_height) {
        Some(scope) => Some(recalculated(store.results@.remove(position), scope)),
        None => None,
    }
}

/// Deletes the result that `id` names and rebuilds the flags of the
/// partition it belonged to, so that the next-best eligible result takes
/// over a record the deleted one held. Answers whether a result was deleted:
/// `false`, with nothing changed, where no result carries `id`.
///
/// The deletion is refused, and nothing changed, where the athlete or the
/// discipline of the result is not on file.
pub fn delete_result(store: &mut ResultStore, id: i64) -> (outcome: Result<bool, RecordError>)
    ensures
        final(store).athletes == old(store).athletes,
        final(store).disciplines == old(store).disciplines,
        consistent(*old(store)) ==> consistent(*final(store)),
        settled(*old(store)) ==> settled(*final(store)),
        match first_position(old(store).result_ids(), id) {
            None => {
                &&& outcome == Ok::<bool, RecordError>(false)
                &&& final(store).results == old(store).results
            },
            Some(position) => match deleted(*old(store), position) {
                Some(rows) => {
                    &&& outcome == Ok::<bool, RecordError>(true)
                    &&& final(store).results@ == rows
                },
                None => {
                    &&& outcome == Err::<bool, RecordError>(RecordError::ReferenceNotFound)
                    &&& final(store).results == old(store).results
                },
            },
        },
{
    let position = match store.find_result(id) {
        Some(position) => position,
        None => {
            return Ok(false);
        },
    };
    let row = store.results[position];
    let scope = match store.resolve_scope(
        row.athlete_id,
        row.discipline_id,
        row.equipment_weight,
        row.hurdle_height,
    ) {
        Ok(scope) => scope,
        Err(e) => {
            return Err(e);
        },
    };
    proof {
        if consistent(*store) {
            law_delete_keeps_store_consistent(*store, position as int);
        }
        if settled(*store) {
            law_delete_keeps_store_settled(*store, position as int);
        }
    }
    store.results.remove(position);
    recalculate_partition(&mut store.results, &scope);
    proof {
        if consistent(*old(store)) {
            lemma_same_catalog(*old(store), *store, store.results@);
        }
        if settled(*old(store)) {
            lemma_same_references(*old(store), *store, store.results@);
        }
    }
    Ok(true)
}

} // verus!
