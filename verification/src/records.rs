//! Record checks and the rebuild of record flags, against the store.

use vstd::prelude::*;

use crate::clock::current_year;
use crate::consistency::{
    consistent, law_rebuild_keeps_store_consistent, law_rebuild_keeps_store_settled,
    lemma_resolved_scope, lemma_same_catalog, lemma_same_references, lemma_scope_is_resolved,
    resolved, settled,
};
use crate::laws::flags_settled;
use crate::partition::RecordScope;
use crate::partition::{recalculate_partition, recalculated, takes_record, would_take_record};
use crate::store::{RecordError, ResultStore};
use crate::types::Result as AthleteResult;
use crate::types::{RecordCheckParams, ResultStatus};

verus! {

/// A valid result that is not on file yet, as the record checks see it.
pub open spec fn candidate_row(
    athlete_id: i64,
    discipline_id: i64,
    value: i64,
    year: i32,
    params: RecordCheckParams,
) -> AthleteResult {
    AthleteResult {
        id: 0,
        athlete_id,
        discipline_id,
        year,
        value,
        wind: params.wind,
        status: ResultStatus::Valid,
        equipment_weight: params.equipment_weight,
        hurdle_height: params.hurdle_height,
        is_personal_best: false,
        is_season_best: false,
        is_national_record: false,
    }
}

/// Builds the row of a valid candidate for the record checks.
fn candidate(
    athlete_id: i64,
    discipline_id: i64,
    value: i64,
    year: i32,
    params: &RecordCheckParams,
) -> (row: AthleteResult)
    ensures
        row == candidate_row(athlete_id, discipline_id, value, year, *params),
{
    AthleteResult {
        id: 0,
        athlete_id,
        discipline_id,
        year,
        value,
        wind: params.wind,
        status: ResultStatus::Valid,
        equipment_weight: params.equipment_weight,
        hurdle_height: params.hurdle_height,
        is_personal_best: false,
        is_season_best: false,
        is_national_record: false,
    }
}

/// What a record check answers: whether the candidate takes the record of
/// its partition for `season`, or that a reference does not resolve.
pub open spec fn record_verdict(
    store: ResultStore,
    season: Option<i32>,
    candidate: AthleteResult,
) -> Result<bool, RecordError> {
    match store.scope(
        candidate.athlete_id,
        candidate.discipline_id,
        candidate.equipment_weight,
        candidate.hurdle_height,
    ) {
        Some(scope) => Ok(takes_record(store.results@, scope, season, candidate)),
        None => Err(RecordError::ReferenceNotFound),
    }
}

/// Checks a candidate row against the records on file.
fn check_record(
    store: &ResultStore,
    season: Option<i32>,
    candidate: &AthleteResult,
) -> (verdict: Result<bool, RecordError>)
    ensures
        verdict == record_verdict(*store, season, *candidate),
{
    match store.resolve_scope(
        candidate.athlete_id,
        candidate.discipline_id,
        candidate.equipment_weight,
        candidate.hurdle_height,
    ) {
        Ok(scope) => Ok(would_take_record(&store.results, &scope, season, candidate)),
        Err(e) => Err(e),
    }
}

/// Whether a valid result of `value`, achieved in `year` under the wind and
/// with the equipment in `params`, would be the athlete's personal best in
/// its partition: wind-legal and strictly better than every valid,
/// wind-legal result on file there.
pub fn check_personal_best_in_year(
    store: &ResultStore,
    athlete_id: i64,
    discipline_id: i64,
    value: i64,
    year: i32,
    params: &RecordCheckParams,
) -> (verdict: Result<bool, RecordError>)
    ensures
        verdict == record_verdict(
            *store,
            None,
            candidate_row(athlete_id, discipline_id, value, year, *params),
        ),
{
    let row = candidate(athlete_id, discipline_id, value, year, params);
    check_record(store, None, &row)
}

/// The personal-best check for a result achieved now: the athlete's age is
/// taken in the current calendar year.
pub fn check_personal_best_extended(
    store: &ResultStore,
    athlete_id: i64,
    discipline_id: i64,
    value: i64,
    params: &RecordCheckParams,
) -> (verdict: Result<bool, RecordError>)
    ensures
        exists|year: i32|
            verdict == record_verdict(
                *store,
                None,
                #[trigger] candidate_row(athlete_id, discipline_id, value, year, *params),
            ),
{
    let year = current_year();
    let verdict = check_personal_best_in_year(store, athlete_id, discipline_id, value, year, params);
    assert(verdict == record_verdict(
        *store,
        None,
        candidate_row(athlete_id, discipline_id, value, year, *params),
    ));
    verdict
}

/// The personal-best check without wind or equipment context: the value is
/// held against the standard partition.
pub fn check_personal_best_internal(
    store: &ResultStore,
    athlete_id: i64,
    discipline_id: i64,
    value: i64,
) -> (verdict: Result<bool, RecordError>)
    ensures
        forall|year: i32|
            verdict == record_verdict(
                *store,
                None,
                #[trigger] candidate_row(
                    athlete_id,
                    discipline_id,
                    value,
                    year,
                    RecordCheckParams { wind: None, equipment_weight: None, hurdle_height: None },
                ),
            ),
{
    let params = RecordCheckParams { wind: None, equipment_weight: None, hurdle_height: None };
    check_personal_best_in_year(store, athlete_id, discipline_id, value, 0, &params)
}

/// Whether a valid result of `value`, achieved in `year` under the wind and
/// with the equipment in `params`, would be the athlete's season best of
/// that year in its partition.
pub fn check_season_best_extended(
    store: &ResultStore,
    athlete_id: i64,
    discipline_id: i64,
    value: i64,
    year: i32,
    params: &RecordCheckParams,
) -> (verdict: Result<bool, RecordError>)
    ensures
        verdict == record_verdict(
            *store,
            Some(year),
            candidate_row(athlete_id, discipline_id, value, year, *params),
        ),
{
    let row = candidate(athlete_id, discipline_id, value, year, params);
    check_record(store, Some(year), &row)
}

/// The season-best check without wind or equipment context.
pub fn check_season_best_internal(
    store: &ResultStore,
    athlete_id: i64,
    discipline_id: i64,
    value: i64,
    year: i32,
) -> (verdict: Result<bool, RecordError>)
    ensures
        verdict == record_verdict(
            *store,
            Some(year),
            candidate_row(
                athlete_id,
                discipline_id,
                value,
                year,
                RecordCheckParams { wind: None, equipment_weight: None, hurdle_height: None },
            ),
        ),
{
    let params = RecordCheckParams { wind: None, equipment_weight: None, hurdle_height: None };
    check_season_best_extended(store, athlete_id, discipline_id, value, year, &params)
}

/// Rebuilds the personal-best and season-best flags of the partition that a
/// result of the given athlete and discipline with the given equipment
/// values belongs to.
///
/// The rebuild is all or nothing: where the athlete or the discipline is not
/// on file nothing is touched.
pub fn recalculate_records(
    store: &mut ResultStore,
    athlete_id: i64,
    discipline_id: i64,
    equipment_weight: Option<i64>,
    hurdle_height: Option<i32>,
) -> (outcome: Result<(), RecordError>)
    ensures
        final(store).athletes == old(store).athletes,
        final(store).disciplines == old(store).disciplines,
        consistent(*old(store)) ==> consistent(*final(store)),
        settled(*old(store)) ==> settled(*final(store)),
        match old(store).scope(athlete_id, discipline_id, equipment_weight, hurdle_height) {
            Some(scope) => {
                &&& outcome is Ok
                &&& final(store).results@ == recalculated(old(store).results@, scope)
            },
            None => {
                &&& outcome == Err::<(), RecordError>(RecordError::ReferenceNotFound)
                &&& final(store).results == old(store).results
            },
        },
{
    match store.resolve_scope(athlete_id, discipline_id, equipment_weight, hurdle_height) {
        Ok(scope) => {
            proof {
                lemma_resolved_scope(
                    *store,
                    athlete_id,
                    discipline_id,
                    equipment_weight,
                    hurdle_height,
                );
                if consistent(*store) {
                    law_rebuild_keeps_store_consistent(*store, store.results@, scope);
                }
                if settled(*store) {
                    lemma_scope_is_resolved(
                        *store,
                        athlete_id,
                        discipline_id,
                        equipment_weight,
                        hurdle_height,
                    );
                    assert forall|other: RecordScope| #[trigger]
                        resolved(*store, other) implies flags_settled(
                        recalculated(store.results@, scope),
                        other,
                    ) by {
                        law_rebuild_keeps_store_settled(*store, store.results@, scope, other);
                    }
                }
            }
            recalculate_partition(&mut store.results, &scope);
            proof {
                if consistent(*old(store)) {
                    lemma_same_catalog(*old(store), *store, store.results@);
                }
                if settled(*old(store)) {
                    lemma_same_references(*old(store), *store, store.results@);
                }
            }
            Ok(())
        },
        Err(e) => Err(e),
    }
}

} // verus!
