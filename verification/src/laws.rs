//! What holds of the record flags across rebuilds and insertions.

use vstd::prelude::*;

use crate::partition::{
    demoted, demoted_row, holds_record, inserted, lemma_holder_ignores_flags, lemma_holder_unique,
    recalculated, recalculated_row, same_entries, same_entry, season_taken, takes_record,
    with_flags, RecordScope,
};
use crate::partition::outranks;
use crate::rules::{better, wind_assisted, WIND_LIMIT, WIND_RULE_AGE_THRESHOLD};
use crate::types::Result as AthleteResult;

verus! {

/// Whether at most one valid row of the partition carries the personal-best
/// flag.
pub open spec fn one_personal_best(rows: Seq<AthleteResult>, scope: RecordScope) -> bool {
    forall|i: int, j: int|
        #![trigger rows[i], rows[j]]
        0 <= i < rows.len() && 0 <= j < rows.len() && scope.covers(rows[i]) && scope.covers(rows[j])
            && rows[i].status.is_valid() && rows[j].status.is_valid() && rows[i].is_personal_best
            && rows[j].is_personal_best ==> i == j
}

/// Whether, in every calendar year, at most one valid row of the partition
/// carries the season-best flag.
pub open spec fn one_season_best_per_year(rows: Seq<AthleteResult>, scope: RecordScope) -> bool {
    forall|i: int, j: int|
        #![trigger rows[i], rows[j]]
        0 <= i < rows.len() && 0 <= j < rows.len() && scope.covers(rows[i]) && scope.covers(rows[j])
            && rows[i].status.is_valid() && rows[j].status.is_valid() && rows[i].year
            == rows[j].year && rows[i].is_season_best && rows[j].is_season_best ==> i == j
}

/// Whether no row of the partition that is not valid carries a record flag.
pub open spec fn no_invalid_holder(rows: Seq<AthleteResult>, scope: RecordScope) -> bool {
    forall|i: int|
        0 <= i < rows.len() && scope.covers(#[trigger] rows[i]) && !rows[i].status.is_valid()
            ==> !rows[i].is_personal_best && !rows[i].is_season_best
}

/// Whether the flags of the partition are consistent: at most one personal
/// best, and at most one season best per year, among its valid rows.
pub open spec fn flags_consistent(rows: Seq<AthleteResult>, scope: RecordScope) -> bool {
    &&& one_personal_best(rows, scope)
    &&& one_season_best_per_year(rows, scope)
}

/// Whether the flags of the partition are up to date: every row of it is
/// flagged exactly as a rebuild would flag it.
pub open spec fn flags_settled(rows: Seq<AthleteResult>, scope: RecordScope) -> bool {
    forall|i: int| 0 <= i < rows.len() ==> #[trigger] rows[i] == recalculated_row(rows, scope, i)
}

/// Whether two scopes can stand side by side in one store: where they speak
/// of the same discipline they split it by the same rule.
pub open spec fn compatible(a: RecordScope, b: RecordScope) -> bool {
    a.discipline_id == b.discipline_id ==> a.rule == b.rule
}

/// Wind legality has a sharp threshold. In a wind-sensitive discipline, for
/// an athlete of at least fourteen in the year of the result, a result is
/// wind-assisted exactly if its wind reading is above the limit; an absent
/// reading never is. Below that age, and in any other discipline, no result
/// is wind-assisted, whatever the reading.
pub proof fn law_wind_threshold(
    wind: Option<i64>,
    wind_sensitive: bool,
    birth_year: int,
    result_year: int,
)
    ensures
        wind_sensitive && result_year - birth_year >= WIND_RULE_AGE_THRESHOLD ==> (wind_assisted(
            wind,
            wind_sensitive,
            birth_year,
            result_year,
        ) <==> wind is Some && wind->0 > WIND_LIMIT),
        result_year - birth_year < WIND_RULE_AGE_THRESHOLD ==> !wind_assisted(
            wind,
            wind_sensitive,
            birth_year,
            result_year,
        ),
        !wind_sensitive ==> !wind_assisted(wind, wind_sensitive, birth_year, result_year),
{
}

/// Once a reading voids eligibility, so does every stronger one; and a
/// reading that leaves a result eligible does so for every weaker one.
pub proof fn law_wind_monotone(
    weaker: i64,
    stronger: i64,
    wind_sensitive: bool,
    birth_year: int,
    result_year: int,
)
    requires
        weaker <= stronger,
    ensures
        wind_assisted(Some(weaker), wind_sensitive, birth_year, result_year) ==> wind_assisted(
            Some(stronger),
            wind_sensitive,
            birth_year,
            result_year,
        ),
{
}

/// A rebuild changes record flags only.
pub proof fn lemma_rebuild_keeps_entries(rows: Seq<AthleteResult>, scope: RecordScope)
    ensures
        same_entries(recalculated(rows, scope), rows),
{
    assert forall|i: int| 0 <= i < rows.len() implies same_entry(
        #[trigger] recalculated(rows, scope)[i],
        rows[i],
    ) by {}
}

/// After a rebuild the flags of the partition are up to date.
pub proof fn law_rebuild_settles(rows: Seq<AthleteResult>, scope: RecordScope)
    ensures
        flags_settled(recalculated(rows, scope), scope),
{
    let rebuilt = recalculated(rows, scope);
    lemma_rebuild_keeps_entries(rows, scope);
    assert forall|i: int| 0 <= i < rebuilt.len() implies #[trigger] rebuilt[i] == recalculated_row(
        rebuilt,
        scope,
        i,
    ) by {
        assert(same_entry(rebuilt[i], rows[i]));
        lemma_holder_ignores_flags(rebuilt, rows, scope, None, i);
        lemma_holder_ignores_flags(rebuilt, rows, scope, Some(rows[i].year), i);
    }
}

/// Rebuilding twice in a row, with nothing written in between, leaves the
/// flags exactly as the first rebuild left them.
pub proof fn law_rebuild_idempotent(rows: Seq<AthleteResult>, scope: RecordScope)
    ensures
        recalculated(recalculated(rows, scope), scope) == recalculated(rows, scope),
{
    law_rebuild_settles(rows, scope);
    assert(recalculated(recalculated(rows, scope), scope) =~= recalculated(rows, scope));
}

/// Up-to-date flags are consistent: the partition has at most one personal
/// best and at most one season best per year among its valid rows, and no
/// row that is not valid carries a flag.
pub proof fn law_settled_is_consistent(rows: Seq<AthleteResult>, scope: RecordScope)
    requires
        flags_settled(rows, scope),
    ensures
        flags_consistent(rows, scope),
        no_invalid_holder(rows, scope),
{
    assert forall|i: int, j: int|
        #![trigger rows[i], rows[j]]
        0 <= i < rows.len() && 0 <= j < rows.len() && scope.covers(rows[i]) && scope.covers(rows[j])
            && rows[i].status.is_valid() && rows[j].status.is_valid() && rows[i].is_personal_best
            && rows[j].is_personal_best implies i == j by {
        assert(rows[i] == recalculated_row(rows, scope, i));
        assert(rows[j] == recalculated_row(rows, scope, j));
        lemma_holder_unique(rows, scope, None, i, j);
    }
    assert forall|i: int, j: int|
        #![trigger rows[i], rows[j]]
        0 <= i < rows.len() && 0 <= j < rows.len() && scope.covers(rows[i]) && scope.covers(rows[j])
            && rows[i].status.is_valid() && rows[j].status.is_valid() && rows[i].year
            == rows[j].year && rows[i].is_season_best && rows[j].is_season_best implies i == j by {
        assert(rows[i] == recalculated_row(rows, scope, i));
        assert(rows[j] == recalculated_row(rows, scope, j));
        lemma_holder_unique(rows, scope, Some(rows[i].year), i, j);
    }
    assert forall|i: int|
        0 <= i < rows.len() && scope.covers(#[trigger] rows[i])
            && !rows[i].status.is_valid() implies !rows[i].is_personal_best
        && !rows[i].is_season_best by {
        assert(rows[i] == recalculated_row(rows, scope, i));
    }
}

/// Whatever the flags were before, after a rebuild the partition has at most
/// one valid personal best and at most one valid season best per year, and
/// no flag on a row that is not valid.
pub proof fn law_rebuild_is_consistent(rows: Seq<AthleteResult>, scope: RecordScope)
    ensures
        flags_consistent(recalculated(rows, scope), scope),
        no_invalid_holder(recalculated(rows, scope), scope),
{
    law_rebuild_settles(rows, scope);
    law_settled_is_consistent(recalculated(rows, scope), scope);
}

/// After a rebuild the personal best is the first eligible row in best-first
/// order, so where every valid row of the partition is wind-assisted nobody
/// holds it.
pub proof fn law_rebuild_promotes_next_best(rows: Seq<AthleteResult>, scope: RecordScope, i: int)
    requires
        0 <= i < rows.len(),
        scope.covers(rows[i]),
    ensures
        recalculated(rows, scope)[i].is_personal_best == holds_record(rows, scope, None, i),
        recalculated(rows, scope)[i].is_season_best == holds_record(
            rows,
            scope,
            Some(rows[i].year),
            i,
        ),
        !scope.admits(rows[i]) ==> !recalculated(rows, scope)[i].is_personal_best && !recalculated(
            rows,
            scope,
        )[i].is_season_best,
{
}

/// A rebuild of one partition leaves every row outside it exactly as it was.
pub proof fn law_rebuild_isolated(rows: Seq<AthleteResult>, scope: RecordScope, i: int)
    requires
        0 <= i < rows.len(),
        !scope.covers(rows[i]),
    ensures
        recalculated(rows, scope).len() == rows.len(),
        recalculated(rows, scope)[i] == rows[i],
{
}

/// Recording a new result leaves every row outside its partition exactly as
/// it was: a new personal best with one implement weight never clears the
/// personal best held with another.
pub proof fn law_insert_isolated(
    rows: Seq<AthleteResult>,
    scope: RecordScope,
    candidate: AthleteResult,
    i: int,
)
    requires
        0 <= i < rows.len(),
        !scope.covers(rows[i]),
    ensures
        inserted(rows, scope, candidate).len() == rows.len() + 1,
        inserted(rows, scope, candidate)[i] == rows[i],
{
}

/// Two partitions that can stand side by side share no row, unless they are
/// the same partition.
pub proof fn lemma_partitions_disjoint(a: RecordScope, b: RecordScope, row: AthleteResult)
    requires
        compatible(a, b),
        !a.same_partition(b),
        a.covers(row),
    ensures
        !b.covers(row),
{
}

/// A rebuild of one partition keeps the flags of every other partition
/// consistent.
pub proof fn law_rebuild_keeps_others_consistent(
    rows: Seq<AthleteResult>,
    rebuilt: RecordScope,
    other: RecordScope,
)
    requires
        compatible(rebuilt, other),
        !rebuilt.same_partition(other),
        flags_consistent(rows, other),
    ensures
        flags_consistent(recalculated(rows, rebuilt), other),
{
    let after = recalculated(rows, rebuilt);
    assert forall|i: int| 0 <= i < rows.len() && other.covers(#[trigger] after[i]) implies after[i]
        == rows[i] by {
        if rebuilt.covers(rows[i]) {
            lemma_partitions_disjoint(rebuilt, other, rows[i]);
        }
    }
    assert forall|i: int, j: int|
        #![trigger after[i], after[j]]
        0 <= i < after.len() && 0 <= j < after.len() && other.covers(after[i]) && other.covers(
            after[j],
        ) && after[i].status.is_valid() && after[j].status.is_valid() && after[i].is_personal_best
            && after[j].is_personal_best implies i == j by {
        assert(after[i] == rows[i]);
        assert(after[j] == rows[j]);
    }
    assert forall|i: int, j: int|
        #![trigger after[i], after[j]]
        0 <= i < after.len() && 0 <= j < after.len() && other.covers(after[i]) && other.covers(
            after[j],
        ) && after[i].status.is_valid() && after[j].status.is_valid() && after[i].year
            == after[j].year && after[i].is_season_best && after[j].is_season_best implies i
        == j by {
        assert(after[i] == rows[i]);
        assert(after[j] == rows[j]);
    }
}

/// Consistency of the flags of a partition depends on which rows the
/// partition holds, not on the rules it is judged by.
pub proof fn lemma_consistency_by_partition(
    rows: Seq<AthleteResult>,
    a: RecordScope,
    b: RecordScope,
)
    requires
        a.same_partition(b),
        flags_consistent(rows, a),
    ensures
        flags_consistent(rows, b),
{
    assert forall|i: int, j: int|
        #![trigger rows[i], rows[j]]
        0 <= i < rows.len() && 0 <= j < rows.len() && b.covers(rows[i]) && b.covers(rows[j])
            && rows[i].status.is_valid() && rows[j].status.is_valid() && rows[i].is_personal_best
            && rows[j].is_personal_best implies i == j by {
        assert(a.covers(rows[i]) && a.covers(rows[j]));
    }
    assert forall|i: int, j: int|
        #![trigger rows[i], rows[j]]
        0 <= i < rows.len() && 0 <= j < rows.len() && b.covers(rows[i]) && b.covers(rows[j])
            && rows[i].status.is_valid() && rows[j].status.is_valid() && rows[i].year
            == rows[j].year && rows[i].is_season_best && rows[j].is_season_best implies i == j by {
        assert(a.covers(rows[i]) && a.covers(rows[j]));
    }
}

/// Recording a new result on the fast path keeps the flags of every
/// partition consistent: its own, because the holders it displaces are
/// demoted in the same step, and every other, because none of their rows is
/// touched.
pub proof fn law_insert_keeps_consistent(
    rows: Seq<AthleteResult>,
    scope: RecordScope,
    candidate: AthleteResult,
    other: RecordScope,
)
    requires
        scope.covers(candidate),
        compatible(scope, other),
        flags_consistent(rows, other),
    ensures
        flags_consistent(inserted(rows, scope, candidate), other),
{
    let after = inserted(rows, scope, candidate);
    let n = rows.len() as int;
    let personal_best = takes_record(rows, scope, None, candidate);
    let season_best = takes_record(rows, scope, Some(candidate.year), candidate);
    let season = season_taken(season_best, candidate.year);
    assert(after[n] == with_flags(candidate, personal_best, season_best));
    assert forall|i: int| 0 <= i < n implies #[trigger] after[i] == demoted_row(
        rows[i],
        scope,
        personal_best,
        season,
    ) by {}
    if !other.same_partition(scope) {
        lemma_partitions_disjoint(scope, other, candidate);
        assert forall|i: int| 0 <= i < n && other.covers(#[trigger] after[i]) implies after[i]
            == rows[i] by {
            if scope.covers(rows[i]) {
                lemma_partitions_disjoint(scope, other, rows[i]);
            }
        }
    }
    assert forall|i: int, j: int|
        #![trigger after[i], after[j]]
        0 <= i < after.len() && 0 <= j < after.len() && other.covers(after[i]) && other.covers(
            after[j],
        ) && after[i].status.is_valid() && after[j].status.is_valid() && after[i].is_personal_best
            && after[j].is_personal_best implies i == j by {
        if i < n && j < n {
            assert(after[i] == demoted_row(rows[i], scope, personal_best, season));
            assert(after[j] == demoted_row(rows[j], scope, personal_best, season));
            assert(rows[i].is_personal_best && rows[j].is_personal_best);
        } else if i < n {
            assert(after[i] == demoted_row(rows[i], scope, personal_best, season));
        } else if j < n {
            assert(after[j] == demoted_row(rows[j], scope, personal_best, season));
        }
    }
    assert forall|i: int, j: int|
        #![trigger after[i], after[j]]
        0 <= i < after.len() && 0 <= j < after.len() && other.covers(after[i]) && other.covers(
            after[j],
        ) && after[i].status.is_valid() && after[j].status.is_valid() && after[i].year
            == after[j].year && after[i].is_season_best && after[j].is_season_best implies i
        == j by {
        if i < n && j < n {
            assert(after[i] == demoted_row(rows[i], scope, personal_best, season));
            assert(after[j] == demoted_row(rows[j], scope, personal_best, season));
            assert(rows[i].is_season_best && rows[j].is_season_best);
        } else if i < n {
            assert(after[i] == demoted_row(rows[i], scope, personal_best, season));
        } else if j < n {
            assert(after[j] == demoted_row(rows[j], scope, personal_best, season));
        }
    }
}

/// Taking a result off the list keeps the flags of every partition
/// consistent.
pub proof fn law_removal_keeps_consistent(
    rows: Seq<AthleteResult>,
    position: int,
    scope: RecordScope,
)
    requires
        0 <= position < rows.len(),
        flags_consistent(rows, scope),
    ensures
        flags_consistent(rows.remove(position), scope),
{
    let after = rows.remove(position);
    let origin = |i: int| if i < position { i } else { i + 1 };
    assert forall|i: int, j: int|
        #![trigger after[i], after[j]]
        0 <= i < after.len() && 0 <= j < after.len() && scope.covers(after[i]) && scope.covers(
            after[j],
        ) && after[i].status.is_valid() && after[j].status.is_valid() && after[i].is_personal_best
            && after[j].is_personal_best implies i == j by {
        assert(after[i] == rows[origin(i)]);
        assert(after[j] == rows[origin(j)]);
        assert(origin(i) == origin(j));
    }
    assert forall|i: int, j: int|
        #![trigger after[i], after[j]]
        0 <= i < after.len() && 0 <= j < after.len() && scope.covers(after[i]) && scope.covers(
            after[j],
        ) && after[i].status.is_valid() && after[j].status.is_valid() && after[i].year
            == after[j].year && after[i].is_season_best && after[j].is_season_best implies i
        == j by {
        assert(after[i] == rows[origin(i)]);
        assert(after[j] == rows[origin(j)]);
        assert(origin(i) == origin(j));
    }
}

/// Replacing a row keeps the flags of a partition consistent if the new row
/// does not belong to it.
pub proof fn law_replacement_keeps_consistent(
    rows: Seq<AthleteResult>,
    position: int,
    row: AthleteResult,
    scope: RecordScope,
)
    requires
        0 <= position < rows.len(),
        !scope.covers(row),
        flags_consistent(rows, scope),
    ensures
        flags_consistent(rows.update(position, row), scope),
{
    let after = rows.update(position, row);
    assert forall|i: int, j: int|
        #![trigger after[i], after[j]]
        0 <= i < after.len() && 0 <= j < after.len() && scope.covers(after[i]) && scope.covers(
            after[j],
        ) && after[i].status.is_valid() && after[j].status.is_valid() && after[i].is_personal_best
            && after[j].is_personal_best implies i == j by {
        assert(after[i] == rows[i] && after[j] == rows[j]);
    }
    assert forall|i: int, j: int|
        #![trigger after[i], after[j]]
        0 <= i < after.len() && 0 <= j < after.len() && scope.covers(after[i]) && scope.covers(
            after[j],
        ) && after[i].status.is_valid() && after[j].status.is_valid() && after[i].year
            == after[j].year && after[i].is_season_best && after[j].is_season_best implies i
        == j by {
        assert(after[i] == rows[i] && after[j] == rows[j]);
    }
}

/// A rebuild leaves the flags of every partition consistent that were so
/// before, and those of the rebuilt partition in any case.
pub proof fn law_rebuild_keeps_consistent(
    rows: Seq<AthleteResult>,
    rebuilt: RecordScope,
    other: RecordScope,
)
    requires
        compatible(rebuilt, other),
        other.same_partition(rebuilt) || flags_consistent(rows, other),
    ensures
        flags_consistent(recalculated(rows, rebuilt), other),
{
    if other.same_partition(rebuilt) {
        law_rebuild_is_consistent(rows, rebuilt);
        lemma_consistency_by_partition(recalculated(rows, rebuilt), rebuilt, other);
    } else {
        law_rebuild_keeps_others_consistent(rows, rebuilt, other);
    }
}

/// On a partition whose flags are up to date, recording a new result on the
/// fast path leaves every flag exactly as a full rebuild after the insertion
/// would.
pub proof fn law_fast_path_agrees_with_rebuild(
    rows: Seq<AthleteResult>,
    scope: RecordScope,
    candidate: AthleteResult,
)
    requires
        flags_settled(rows, scope),
        scope.covers(candidate),
    ensures
        inserted(rows, scope, candidate) == recalculated(rows.push(candidate), scope),
{
    let n = rows.len() as int;
    let extended = rows.push(candidate);
    let fast = inserted(rows, scope, candidate);
    let full = recalculated(extended, scope);
    let personal_best = takes_record(rows, scope, None, candidate);
    let season_best = takes_record(rows, scope, Some(candidate.year), candidate);
    let season = season_taken(season_best, candidate.year);
    assert forall|i: int| 0 <= i < n implies #[trigger] extended[i] == rows[i] by {}
    assert(extended[n] == candidate);
    assert forall|i: int| 0 <= i <= n implies fast[i] == full[i] by {
        if i < n {
            assert(fast[i] == demoted_row(rows[i], scope, personal_best, season));
            assert(rows[i] == recalculated_row(rows, scope, i));
            if scope.covers(rows[i]) {
                lemma_holder_after_append(rows, scope, None, candidate, i);
                lemma_holder_after_append(rows, scope, Some(rows[i].year), candidate, i);
            }
        } else {
            assert(fast[n] == with_flags(candidate, personal_best, season_best));
            lemma_newcomer_holds(rows, scope, None, candidate);
            lemma_newcomer_holds(rows, scope, Some(candidate.year), candidate);
        }
    }
    assert(fast =~= full);
}

/// A row on file still holds the record after a newcomer is appended exactly
/// if it held it before and the newcomer does not take it.
proof fn lemma_holder_after_append(
    rows: Seq<AthleteResult>,
    scope: RecordScope,
    season: Option<i32>,
    candidate: AthleteResult,
    i: int,
)
    requires
        0 <= i < rows.len(),
    ensures
        holds_record(rows.push(candidate), scope, season, i) == (holds_record(
            rows,
            scope,
            season,
            i,
        ) && !takes_record(rows, scope, season, candidate)),
{
    let n = rows.len() as int;
    let extended = rows.push(candidate);
    assert(extended[n] == candidate);
    assert forall|j: int| 0 <= j < n implies #[trigger] extended[j] == rows[j] by {}
    if holds_record(extended, scope, season, i) {
        assert forall|j: int|
            0 <= j < rows.len() && scope.contender(#[trigger] rows[j], season) implies !outranks(
            rows,
            scope.direction,
            j,
            i,
        ) by {
            assert(extended[j] == rows[j]);
            assert(!outranks(extended, scope.direction, j, i));
        }
        if takes_record(rows, scope, season, candidate) {
            assert(scope.contender(extended[n], season));
            assert(!outranks(extended, scope.direction, n, i));
            assert(scope.contender(rows[i], season));
        }
    }
    if holds_record(rows, scope, season, i) && !takes_record(rows, scope, season, candidate) {
        assert forall|j: int|
            0 <= j < extended.len() && scope.contender(
                #[trigger] extended[j],
                season,
            ) implies !outranks(extended, scope.direction, j, i) by {
            if j < n {
                assert(extended[j] == rows[j]);
                assert(!outranks(rows, scope.direction, j, i));
            } else {
                let k = choose|k: int|
                    0 <= k < rows.len() && scope.contender(#[trigger] rows[k], season) && !better(
                        candidate.value as int,
                        rows[k].value as int,
                        scope.direction,
                    );
                assert(!outranks(rows, scope.direction, k, i));
            }
        }
    }
}

/// A newcomer appended to the list holds the record exactly if it takes it
/// from the rows on file.
proof fn lemma_newcomer_holds(
    rows: Seq<AthleteResult>,
    scope: RecordScope,
    season: Option<i32>,
    candidate: AthleteResult,
)
    ensures
        holds_record(rows.push(candidate), scope, season, rows.len() as int) == takes_record(
            rows,
            scope,
            season,
            candidate,
        ),
{
    let n = rows.len() as int;
    let extended = rows.push(candidate);
    assert(extended[n] == candidate);
    assert forall|j: int| 0 <= j < n implies #[trigger] extended[j] == rows[j] by {}
    if holds_record(extended, scope, season, n) {
        assert forall|j: int|
            0 <= j < rows.len() && scope.contender(#[trigger] rows[j], season) implies better(
            candidate.value as int,
            rows[j].value as int,
            scope.direction,
        ) by {
            assert(extended[j] == rows[j]);
            assert(!outranks(extended, scope.direction, j, n));
        }
    }
    if takes_record(rows, scope, season, candidate) {
        assert forall|j: int|
            0 <= j < extended.len() && scope.contender(
                #[trigger] extended[j],
                season,
            ) implies !outranks(extended, scope.direction, j, n) by {
            if j < n {
                assert(extended[j] == rows[j]);
            }
        }
    }
}

/// Taking a row that does not contend off the list leaves the record with
/// its holder: the row that stood at `position + 1` or later has moved up by
/// one.
proof fn lemma_holder_after_removal(
    rows: Seq<AthleteResult>,
    position: int,
    scope: RecordScope,
    season: Option<i32>,
    i: int,
)
    requires
        0 <= position < rows.len(),
        !scope.covers(rows[position]),
        0 <= i < rows.len() - 1,
    ensures
        holds_record(rows.remove(position), scope, season, i) == holds_record(
            rows,
            scope,
            season,
            if i < position {
                i
            } else {
                i + 1
            },
        ),
{
    let after = rows.remove(position);
    let origin = |a: int|
        if a < position {
            a
        } else {
            a + 1
        };
    let o = origin(i);
    assert(after[i] == rows[o]);
    if holds_record(after, scope, season, i) {
        assert forall|j: int|
            0 <= j < rows.len() && scope.contender(#[trigger] rows[j], season) implies !outranks(
            rows,
            scope.direction,
            j,
            o,
        ) by {
            let moved = if j < position {
                j
            } else {
                j - 1
            };
            assert(after[moved] == rows[j]);
            assert(!outranks(after, scope.direction, moved, i));
        }
    }
    if holds_record(rows, scope, season, o) {
        assert forall|j: int|
            0 <= j < after.len() && scope.contender(#[trigger] after[j], season) implies !outranks(
            after,
            scope.direction,
            j,
            i,
        ) by {
            assert(after[j] == rows[origin(j)]);
            assert(!outranks(rows, scope.direction, origin(j), o));
        }
    }
}

/// Taking a row of another partition off the list leaves up-to-date flags up
/// to date.
pub proof fn law_removal_keeps_settled(
    rows: Seq<AthleteResult>,
    position: int,
    scope: RecordScope,
)
    requires
        0 <= position < rows.len(),
        !scope.covers(rows[position]),
        flags_settled(rows, scope),
    ensures
        flags_settled(rows.remove(position), scope),
{
    let after = rows.remove(position);
    assert forall|i: int| 0 <= i < after.len() implies #[trigger] after[i] == recalculated_row(
        after,
        scope,
        i,
    ) by {
        let o = if i < position {
            i
        } else {
            i + 1
        };
        assert(after[i] == rows[o]);
        assert(rows[o] == recalculated_row(rows, scope, o));
        lemma_holder_after_removal(rows, position, scope, None, i);
        lemma_holder_after_removal(rows, position, scope, Some(rows[o].year), i);
    }
}

/// Replacing a row of another partition by a row of another partition
/// leaves up-to-date flags up to date.
pub proof fn law_replacement_keeps_settled(
    rows: Seq<AthleteResult>,
    position: int,
    row: AthleteResult,
    scope: RecordScope,
)
    requires
        0 <= position < rows.len(),
        !scope.covers(rows[position]),
        !scope.covers(row),
        flags_settled(rows, scope),
    ensures
        flags_settled(rows.update(position, row), scope),
{
    let after = rows.update(position, row);
    assert forall|i: int| 0 <= i < after.len() implies #[trigger] after[i] == recalculated_row(
        after,
        scope,
        i,
    ) by {
        if i != position {
            assert(after[i] == rows[i]);
            assert(rows[i] == recalculated_row(rows, scope, i));
            lemma_holder_after_replacement(rows, position, row, scope, None, i);
            lemma_holder_after_replacement(rows, position, row, scope, Some(rows[i].year), i);
        }
    }
}

/// Replacing a row that does not contend by another that does not contend
/// leaves the record with its holder.
proof fn lemma_holder_after_replacement(
    rows: Seq<AthleteResult>,
    position: int,
    row: AthleteResult,
    scope: RecordScope,
    season: Option<i32>,
    i: int,
)
    requires
        0 <= position < rows.len(),
        !scope.covers(rows[position]),
        !scope.covers(row),
        0 <= i < rows.len(),
        i != position,
    ensures
        holds_record(rows.update(position, row), scope, season, i) == holds_record(
            rows,
            scope,
            season,
            i,
        ),
{
    let after = rows.update(position, row);
    assert(after[i] == rows[i]);
    if holds_record(after, scope, season, i) {
        assert forall|j: int|
            0 <= j < rows.len() && scope.contender(#[trigger] rows[j], season) implies !outranks(
            rows,
            scope.direction,
            j,
            i,
        ) by {
            assert(after[j] == rows[j]);
            assert(!outranks(after, scope.direction, j, i));
        }
    }
    if holds_record(rows, scope, season, i) {
        assert forall|j: int|
            0 <= j < after.len() && scope.contender(#[trigger] after[j], season) implies !outranks(
            after,
            scope.direction,
            j,
            i,
        ) by {
            assert(after[j] == rows[j]);
            assert(!outranks(rows, scope.direction, j, i));
        }
    }
}

/// A rebuild of one partition leaves the up-to-date flags of every other
/// partition up to date.
pub proof fn law_rebuild_keeps_others_settled(
    rows: Seq<AthleteResult>,
    rebuilt: RecordScope,
    other: RecordScope,
)
    requires
        compatible(rebuilt, other),
        !rebuilt.same_partition(other),
        flags_settled(rows, other),
    ensures
        flags_settled(recalculated(rows, rebuilt), other),
{
    let after = recalculated(rows, rebuilt);
    lemma_rebuild_keeps_entries(rows, rebuilt);
    assert forall|i: int| 0 <= i < after.len() implies #[trigger] after[i] == recalculated_row(
        after,
        other,
        i,
    ) by {
        assert(same_entry(after[i], rows[i]));
        assert(rows[i] == recalculated_row(rows, other, i));
        if other.covers(rows[i]) {
            if rebuilt.covers(rows[i]) {
                lemma_partitions_disjoint(rebuilt, other, rows[i]);
            }
            assert(after[i] == rows[i]);
            lemma_holder_ignores_flags(after, rows, other, None, i);
            lemma_holder_ignores_flags(after, rows, other, Some(rows[i].year), i);
        }
    }
}

/// Recording a new result in one partition does not change who holds the
/// record of another.
proof fn lemma_holder_after_insert_elsewhere(
    rows: Seq<AthleteResult>,
    scope: RecordScope,
    candidate: AthleteResult,
    other: RecordScope,
    season: Option<i32>,
    i: int,
)
    requires
        scope.covers(candidate),
        compatible(scope, other),
        !other.same_partition(scope),
        0 <= i < rows.len(),
    ensures
        holds_record(inserted(rows, scope, candidate), other, season, i) == holds_record(
            rows,
            other,
            season,
            i,
        ),
{
    let after = inserted(rows, scope, candidate);
    let n = rows.len() as int;
    let newcomer = after[n];
    let extended = rows.push(newcomer);
    lemma_partitions_disjoint(scope, other, candidate);
    assert(!other.covers(newcomer));
    assert forall|k: int| 0 <= k < after.len() implies same_entry(
        #[trigger] after[k],
        extended[k],
    ) by {
        if k < n {
            assert(extended[k] == rows[k]);
        }
    }
    lemma_holder_ignores_flags(after, extended, other, season, i);
    lemma_holder_after_append(rows, other, season, newcomer, i);
}

/// Recording a new result on the fast path leaves up-to-date flags up to
/// date: in its own partition, where the fast path does what a rebuild
/// would, and in every other, where nothing changes.
pub proof fn law_insert_keeps_settled(
    rows: Seq<AthleteResult>,
    scope: RecordScope,
    candidate: AthleteResult,
    other: RecordScope,
)
    requires
        scope.covers(candidate),
        compatible(scope, other),
        other == scope || !other.same_partition(scope),
        flags_settled(rows, other),
    ensures
        flags_settled(inserted(rows, scope, candidate), other),
{
    let after = inserted(rows, scope, candidate);
    if other == scope {
        law_fast_path_agrees_with_rebuild(rows, scope, candidate);
        law_rebuild_settles(rows.push(candidate), scope);
    } else {
        let n = rows.len() as int;
        lemma_partitions_disjoint(scope, other, candidate);
        assert forall|i: int| 0 <= i < after.len() implies #[trigger] after[i]
            == recalculated_row(after, other, i) by {
            if i < n {
                assert(rows[i] == recalculated_row(rows, other, i));
                if other.covers(rows[i]) {
                    if scope.covers(rows[i]) {
                        lemma_partitions_disjoint(scope, other, rows[i]);
                    }
                    assert(after[i] == rows[i]);
                    lemma_holder_after_insert_elsewhere(rows, scope, candidate, other, None, i);
                    lemma_holder_after_insert_elsewhere(
                        rows,
                        scope,
                        candidate,
                        other,
                        Some(rows[i].year),
                        i,
                    );
                } else {
                    assert(same_entry(after[i], rows[i]));
                }
            } else {
                assert(!other.covers(after[n]));
            }
        }
    }
}

} // verus!
