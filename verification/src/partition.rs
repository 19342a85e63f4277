//! Record holders within one partition of an athlete's results.
//!
//! A partition is the set of results of one athlete in one discipline that
//! share an equipment class. Within it the valid, wind-legal results contend
//! for the personal best, and those of one calendar year for that year's
//! season best. The holder is the contender that comes first when the
//! contenders are listed best value first, earlier entries ahead of later
//! ones of equal value.

use vstd::prelude::*;

use crate::rules::{
    better, is_better, key_under, partition_key, wind_assisted, wind_rule_applies,
    ComparisonDirection, PartitionKey, PartitionRule,
};
use crate::types::Result as AthleteResult;
use crate::types::ResultStatus;

verus! {

/// One partition together with the rules of its discipline and the birth
/// year of its athlete.
#[derive(Clone, Copy, Debug, PartialEq, Eq, Structural)]
pub struct RecordScope {
    pub athlete_id: i64,
    pub discipline_id: i64,
    /// How the discipline is split into partitions.
    pub rule: PartitionRule,
    /// The partition within the discipline.
    pub key: PartitionKey,
    pub direction: ComparisonDirection,
    /// Whether the wind rule applies to the discipline.
    pub wind_sensitive: bool,
    pub birth_year: i32,
}

impl RecordScope {
    /// Whether `row` belongs to the partition.
    pub open spec fn covers(self, row: AthleteResult) -> bool {
        &&& row.athlete_id == self.athlete_id
        &&& row.discipline_id == self.discipline_id
        &&& key_under(self.rule, row.equipment_weight, row.hurdle_height) == self.key
    }

    /// Whether the wind leaves `row` eligible for records.
    pub open spec fn admits(self, row: AthleteResult) -> bool {
        !wind_assisted(row.wind, self.wind_sensitive, self.birth_year as int, row.year as int)
    }

    /// Whether `row` contends for the record of the partition: the personal
    /// best when `season` is `None`, the season best of the year in `season`
    /// otherwise.
    pub open spec fn contender(self, row: AthleteResult, season: Option<i32>) -> bool {
        &&& self.covers(row)
        &&& row.status.is_valid()
        &&& self.admits(row)
        &&& (season matches Some(year) ==> row.year == year)
    }

    /// Two scopes that name the same partition.
    pub open spec fn same_partition(self, other: RecordScope) -> bool {
        &&& self.athlete_id == other.athlete_id
        &&& self.discipline_id == other.discipline_id
        &&& self.rule == other.rule
        &&& self.key == other.key
    }
}

/// Whether row `j` comes before row `i` when rows are listed best value
/// first, earlier rows ahead of later ones of equal value.
pub open spec fn outranks(
    rows: Seq<AthleteResult>,
    direction: ComparisonDirection,
    j: int,
    i: int,
) -> bool {
    ||| better(rows[j].value as int, rows[i].value as int, direction)
    ||| (rows[j].value == rows[i].value && j < i)
}

/// Whether row `i` holds the record of the partition: it contends and no
/// contender outranks it.
pub open spec fn holds_record(
    rows: Seq<AthleteResult>,
    scope: RecordScope,
    season: Option<i32>,
    i: int,
) -> bool {
    &&& 0 <= i < rows.len()
    &&& scope.contender(rows[i], season)
    &&& forall|j: int|
        0 <= j < rows.len() && scope.contender(#[trigger] rows[j], season) ==> !outranks(
            rows,
            scope.direction,
            j,
            i,
        )
}

/// Whether no row contends for the record.
pub open spec fn no_contender(
    rows: Seq<AthleteResult>,
    scope: RecordScope,
    season: Option<i32>,
) -> bool {
    forall|j: int| 0 <= j < rows.len() ==> !scope.contender(#[trigger] rows[j], season)
}

/// Whether `value` is the best value among the contenders.
pub open spec fn is_best_value(
    rows: Seq<AthleteResult>,
    scope: RecordScope,
    season: Option<i32>,
    value: i64,
) -> bool {
    &&& exists|i: int|
        0 <= i < rows.len() && scope.contender(#[trigger] rows[i], season) && rows[i].value == value
    &&& forall|j: int|
        0 <= j < rows.len() && scope.contender(#[trigger] rows[j], season) ==> !better(
            rows[j].value as int,
            value as int,
            scope.direction,
        )
}

/// Whether a new result `candidate` would take the record: it contends and
/// is strictly better than every contender on file.
pub open spec fn takes_record(
    rows: Seq<AthleteResult>,
    scope: RecordScope,
    season: Option<i32>,
    candidate: AthleteResult,
) -> bool {
    &&& scope.contender(candidate, season)
    &&& forall|j: int|
        0 <= j < rows.len() && scope.contender(#[trigger] rows[j], season) ==> better(
            candidate.value as int,
            rows[j].value as int,
            scope.direction,
        )
}

/// A partition has at most one record holder.
pub proof fn lemma_holder_unique(
    rows: Seq<AthleteResult>,
    scope: RecordScope,
    season: Option<i32>,
    i: int,
    j: int,
)
    requires
        holds_record(rows, scope, season, i),
        holds_record(rows, scope, season, j),
    ensures
        i == j,
{
    assert(!outranks(rows, scope.direction, j, i));
    assert(!outranks(rows, scope.direction, i, j));
}

/// Whether `row` belongs to the partition of `scope`.
pub fn in_scope(row: &AthleteResult, scope: &RecordScope) -> (r: bool)
    ensures
        r == scope.covers(*row),
{
    row.athlete_id == scope.athlete_id && row.discipline_id == scope.discipline_id
        && partition_key(scope.rule, row.equipment_weight, row.hurdle_height) == scope.key
}

/// Whether the wind leaves `row` eligible for the records of `scope`.
pub fn is_eligible(row: &AthleteResult, scope: &RecordScope) -> (r: bool)
    ensures
        r == scope.admits(*row),
{
    !wind_rule_applies(row.wind, scope.wind_sensitive, scope.birth_year, row.year)
}

/// Whether `row` contends for the record of `scope` in `season`.
pub fn is_contender(row: &AthleteResult, scope: &RecordScope, season: Option<i32>) -> (r: bool)
    ensures
        r == scope.contender(*row, season),
{
    let in_season = match season {
        Some(year) => row.year == year,
        None => true,
    };
    in_season && in_scope(row, scope) && row.status == ResultStatus::Valid && is_eligible(
        row,
        scope,
    )
}

/// Finds the record holder of the partition: the first eligible row in
/// best-first order. `None` when no row contends.
pub fn find_record_holder(
    rows: &Vec<AthleteResult>,
    scope: &RecordScope,
    season: Option<i32>,
) -> (holder: Option<usize>)
    ensures
        match holder {
            Some(i) => holds_record(rows@, *scope, season, i as int),
            None => no_contender(rows@, *scope, season),
        },
{
    let mut holder: Option<usize> = None;
    let mut i: usize = 0;
    while i < rows.len()
        invariant
            i <= rows.len(),
            match holder {
                Some(b) => {
                    &&& b < i
                    &&& scope.contender(rows@[b as int], season)
                    &&& forall|j: int|
                        0 <= j < i && scope.contender(#[trigger] rows@[j], season) ==> !outranks(
                            rows@,
                            scope.direction,
                            j,
                            b as int,
                        )
                },
                None => forall|j: int| 0 <= j < i ==> !scope.contender(#[trigger] rows@[j], season),
            },
        decreases rows.len() - i,
    {
        if is_contender(&rows[i], scope, season) {
            match holder {
                Some(b) => {
                    if is_better(rows[i].value, rows[b].value, scope.direction) {
                        holder = Some(i);
                    }
                },
                None => {
                    holder = Some(i);
                },
            }
        }
        i += 1;
    }
    holder
}

/// The best value on file among the contenders; `None` when no row contends.
pub fn current_best(
    rows: &Vec<AthleteResult>,
    scope: &RecordScope,
    season: Option<i32>,
) -> (best: Option<i64>)
    ensures
        match best {
            Some(value) => is_best_value(rows@, *scope, season, value),
            None => no_contender(rows@, *scope, season),
        },
{
    match find_record_holder(rows, scope, season) {
        Some(i) => {
            proof {
                assert forall|j: int|
                    0 <= j < rows@.len() && scope.contender(
                        #[trigger] rows@[j],
                        season,
                    ) implies !better(
                    rows@[j].value as int,
                    rows@[i as int].value as int,
                    scope.direction,
                ) by {
                    assert(!outranks(rows@, scope.direction, j, i as int));
                }
            }
            Some(rows[i].value)
        },
        None => None,
    }
}

/// Decides whether `candidate`, not yet on file, would take the record of the
/// partition: it must contend itself and strictly beat the current best, if
/// there is one. A tie leaves the record with its holder.
pub fn would_take_record(
    rows: &Vec<AthleteResult>,
    scope: &RecordScope,
    season: Option<i32>,
    candidate: &AthleteResult,
) -> (r: bool)
    ensures
        r == takes_record(rows@, *scope, season, *candidate),
{
    if !is_contender(candidate, scope, season) {
        return false;
    }
    match current_best(rows, scope, season) {
        Some(best) => is_better(candidate.value, best, scope.direction),
        None => true,
    }
}

/// `row` with its two record flags replaced.
pub open spec fn with_flags(row: AthleteResult, personal_best: bool, season_best: bool) -> AthleteResult {
    AthleteResult { is_personal_best: personal_best, is_season_best: season_best, ..row }
}

/// Whether two rows differ in their record flags at most.
pub open spec fn same_entry(a: AthleteResult, b: AthleteResult) -> bool {
    with_flags(a, false, false) == with_flags(b, false, false)
}

/// Whether two lists hold the same results in the same order, record flags
/// aside.
pub open spec fn same_entries(a: Seq<AthleteResult>, b: Seq<AthleteResult>) -> bool {
    &&& a.len() == b.len()
    &&& forall|i: int| 0 <= i < a.len() ==> same_entry(#[trigger] a[i], b[i])
}

/// Who holds a record does not depend on the record flags on file.
pub proof fn lemma_holder_ignores_flags(
    a: Seq<AthleteResult>,
    b: Seq<AthleteResult>,
    scope: RecordScope,
    season: Option<i32>,
    i: int,
)
    requires
        same_entries(a, b),
    ensures
        holds_record(a, scope, season, i) == holds_record(b, scope, season, i),
{
    if 0 <= i < a.len() {
        assert(same_entry(a[i], b[i]));
        if holds_record(a, scope, season, i) {
            assert forall|j: int|
                0 <= j < b.len() && scope.contender(#[trigger] b[j], season) implies !outranks(
                b,
                scope.direction,
                j,
                i,
            ) by {
                assert(same_entry(a[j], b[j]));
                assert(scope.contender(a[j], season));
            }
        }
        if holds_record(b, scope, season, i) {
            assert forall|j: int|
                0 <= j < a.len() && scope.contender(#[trigger] a[j], season) implies !outranks(
                a,
                scope.direction,
                j,
                i,
            ) by {
                assert(same_entry(a[j], b[j]));
                assert(scope.contender(b[j], season));
            }
        }
    }
}

/// Row `i` after a rebuild of the partition of `scope`: a row of the
/// partition carries the personal-best flag exactly if it holds the all-time
/// record and the season-best flag exactly if it holds the record of its own
/// year; any other row is as it was.
pub open spec fn recalculated_row(rows: Seq<AthleteResult>, scope: RecordScope, i: int) -> AthleteResult {
    if scope.covers(rows[i]) {
        with_flags(
            rows[i],
            holds_record(rows, scope, None, i),
            holds_record(rows, scope, Some(rows[i].year), i),
        )
    } else {
        rows[i]
    }
}

/// The rows after a rebuild of the partition of `scope`.
pub open spec fn recalculated(rows: Seq<AthleteResult>, scope: RecordScope) -> Seq<AthleteResult> {
    Seq::new(rows.len(), |i: int| recalculated_row(rows, scope, i))
}

/// The rows once both record flags are cleared throughout the partition.
pub open spec fn cleared(rows: Seq<AthleteResult>, scope: RecordScope) -> Seq<AthleteResult> {
    Seq::new(
        rows.len(),
        |i: int|
            if scope.covers(rows[i]) {
                with_flags(rows[i], false, false)
            } else {
                rows[i]
            },
    )
}

/// Clears the personal-best and season-best flags of every row of the
/// partition.
pub fn clear_record_flags(rows: &mut Vec<AthleteResult>, scope: &RecordScope)
    ensures
        final(rows)@ == cleared(old(rows)@, *scope),
{
    let ghost before = rows@;
    let mut i: usize = 0;
    while i < rows.len()
        invariant
            i <= rows.len(),
            rows@.len() == before.len(),
            forall|k: int| 0 <= k < i ==> #[trigger] rows@[k] == cleared(before, *scope)[k],
            forall|k: int| i <= k < rows@.len() ==> #[trigger] rows@[k] == before[k],
        decreases rows.len() - i,
    {
        if in_scope(&rows[i], scope) {
            rows[i].is_personal_best = false;
            rows[i].is_season_best = false;
        }
        i += 1;
    }
    assert(rows@ =~= cleared(before, *scope));
}

/// Whether `year` is the year of some valid row of the partition.
pub open spec fn is_season(rows: Seq<AthleteResult>, scope: RecordScope, year: i32) -> bool {
    exists|i: int|
        0 <= i < rows.len() && scope.covers(#[trigger] rows[i]) && rows[i].status.is_valid()
            && rows[i].year == year
}

/// Whether `years` lists each season of the partition exactly once.
pub open spec fn lists_seasons(years: Seq<i32>, rows: Seq<AthleteResult>, scope: RecordScope) -> bool {
    &&& forall|a: int, b: int| 0 <= a < b < years.len() ==> years[a] != years[b]
    &&& forall|a: int| 0 <= a < years.len() ==> is_season(rows, scope, #[trigger] years[a])
    &&& forall|i: int|
        0 <= i < rows.len() && scope.covers(#[trigger] rows[i]) && rows[i].status.is_valid()
            ==> years.contains(rows[i].year)
}

/// Whether `year` occurs in `years`.
fn has_year(years: &Vec<i32>, year: i32) -> (r: bool)
    ensures
        r == years@.contains(year),
{
    let mut k: usize = 0;
    while k < years.len()
        invariant
            k <= years.len(),
            forall|a: int| 0 <= a < k ==> years@[a] != year,
        decreases years.len() - k,
    {
        if years[k] == year {
            return true;
        }
        k += 1;
    }
    false
}

/// The distinct years present among the valid rows of the partition, each
/// listed once.
pub fn season_years(rows: &Vec<AthleteResult>, scope: &RecordScope) -> (years: Vec<i32>)
    ensures
        lists_seasons(years@, rows@, *scope),
{
    let mut years: Vec<i32> = Vec::new();
    let mut i: usize = 0;
    while i < rows.len()
        invariant
            i <= rows.len(),
            forall|a: int, b: int| 0 <= a < b < years@.len() ==> years@[a] != years@[b],
            forall|a: int| 0 <= a < years@.len() ==> is_season(rows@, *scope, #[trigger] years@[a]),
            forall|k: int|
                0 <= k < i && scope.covers(#[trigger] rows@[k]) && rows@[k].status.is_valid()
                    ==> years@.contains(rows@[k].year),
        decreases rows.len() - i,
    {
        let row = &rows[i];
        if in_scope(row, scope) && row.status == ResultStatus::Valid && !has_year(&years, row.year) {
            let ghost earlier = years@;
            years.push(row.year);
            proof {
                assert(years@[earlier.len() as int] == row.year);
                assert forall|k: int|
                    0 <= k < i + 1 && scope.covers(#[trigger] rows@[k])
                        && rows@[k].status.is_valid() implies years@.contains(rows@[k].year) by {
                    if k < i {
                        let a = choose|a: int| 0 <= a < earlier.len() && earlier[a] == rows@[k].year;
                        assert(years@[a] == rows@[k].year);
                    }
                }
            }
        }
        i += 1;
    }
    years
}

/// The rows part-way through a rebuild: the personal-best flags are final,
/// the season-best flags are set for the first `done` years of `years` only.
pub open spec fn rebuilt_through(
    before: Seq<AthleteResult>,
    scope: RecordScope,
    years: Seq<i32>,
    done: int,
) -> Seq<AthleteResult> {
    Seq::new(
        before.len(),
        |i: int|
            if scope.covers(before[i]) {
                with_flags(
                    before[i],
                    holds_record(before, scope, None, i),
                    years.take(done).contains(before[i].year) && holds_record(
                        before,
                        scope,
                        Some(before[i].year),
                        i,
                    ),
                )
            } else {
                before[i]
            },
    )
}

proof fn lemma_take_one_more(years: Seq<i32>, done: int, year: i32)
    requires
        0 <= done < years.len(),
    ensures
        years.take(done + 1).contains(year) <==> years.take(done).contains(year) || years[done]
            == year,
{
    let longer = years.take(done + 1);
    let shorter = years.take(done);
    if longer.contains(year) {
        let a = choose|a: int| 0 <= a < longer.len() && longer[a] == year;
        if a < done {
            assert(shorter[a] == year);
        }
    }
    if shorter.contains(year) {
        let a = choose|a: int| 0 <= a < shorter.len() && shorter[a] == year;
        assert(longer[a] == year);
    }
    if years[done] == year {
        assert(longer[done] == year);
    }
}

proof fn lemma_not_yet_listed(years: Seq<i32>, done: int)
    requires
        0 <= done < years.len(),
        forall|a: int, b: int| 0 <= a < b < years.len() ==> years[a] != years[b],
    ensures
        !years.take(done).contains(years[done]),
{
    let shorter = years.take(done);
    if shorter.contains(years[done]) {
        let a = choose|a: int| 0 <= a < shorter.len() && shorter[a] == years[done];
        assert(years[a] == years[done]);
    }
}

/// Rebuilds the personal-best and season-best flags of one partition from
/// the results on file.
///
/// Every flag in the partition is cleared first. The first eligible row in
/// best-first order becomes the personal best; then, for each year present
/// among the valid rows, the first eligible row of that year becomes its
/// season best. Where every row is wind-assisted nobody holds the record.
/// Rows outside the partition are left as they are.
pub fn recalculate_partition(rows: &mut Vec<AthleteResult>, scope: &RecordScope)
    ensures
        final(rows)@ == recalculated(old(rows)@, *scope),
{
    let ghost before = rows@;
    clear_record_flags(rows, scope);
    let ghost blank = rows@;
    assert(same_entries(blank, before));

    match find_record_holder(rows, scope, None) {
        Some(i) => {
            proof {
                lemma_holder_ignores_flags(blank, before, *scope, None, i as int);
            }
            rows[i].is_personal_best = true;
        },
        None => {},
    }
    let years = season_years(rows, scope);
    proof {
        assert(same_entries(rows@, before));
        assert(years@.take(0) =~= Seq::<i32>::empty());
        assert forall|m: int| 0 <= m < before.len() implies rows@[m] == rebuilt_through(
            before,
            *scope,
            years@,
            0,
        )[m] by {
            assert(same_entry(blank[m], before[m]));
            lemma_holder_ignores_flags(blank, before, *scope, None, m);
            if scope.covers(before[m]) && holds_record(before, *scope, None, m) {
                let h = choose|h: int| holds_record(blank, *scope, None, h);
                lemma_holder_unique(blank, *scope, None, h, m);
            }
        }
        assert(rows@ =~= rebuilt_through(before, *scope, years@, 0));
        assert forall|a: int| 0 <= a < years@.len() implies is_season(
            before,
            *scope,
            #[trigger] years@[a],
        ) by {
            assert(is_season(rows@, *scope, years@[a]));
            let w = choose|w: int|
                0 <= w < rows@.len() && scope.covers(#[trigger] rows@[w])
                    && rows@[w].status.is_valid() && rows@[w].year == years@[a];
            assert(same_entry(rows@[w], before[w]));
            assert(scope.covers(before[w]));
        }
        assert forall|m: int|
            0 <= m < before.len() && scope.covers(#[trigger] before[m])
                && before[m].status.is_valid() implies years@.contains(before[m].year) by {
            assert(same_entry(rows@[m], before[m]));
            assert(scope.covers(rows@[m]));
        }
    }
    let mut k: usize = 0;
    while k < years.len()
        invariant
            k <= years.len(),
            lists_seasons(years@, before, *scope),
            rows@ == rebuilt_through(before, *scope, years@, k as int),
        decreases years.len() - k,
    {
        let year = years[k];
        let ghost current = rows@;
        assert(same_entries(current, before));
        let holder = find_record_holder(rows, scope, Some(year));
        match holder {
            Some(i) => {
                rows[i].is_season_best = true;
            },
            None => {},
        }
        proof {
            lemma_not_yet_listed(years@, k as int);
            assert forall|m: int| 0 <= m < before.len() implies rows@[m] == rebuilt_through(
                before,
                *scope,
                years@,
                k + 1,
            )[m] by {
                assert(same_entry(current[m], before[m]));
                lemma_take_one_more(years@, k as int, before[m].year);
                lemma_holder_ignores_flags(current, before, *scope, Some(year), m);
                match holder {
                    Some(i) => {
                        lemma_holder_ignores_flags(current, before, *scope, Some(year), i as int);
                        if m != i && before[m].year == year && holds_record(
                            before,
                            *scope,
                            Some(year),
                            m,
                        ) {
                            lemma_holder_unique(before, *scope, Some(year), m, i as int);
                        }
                    },
                    None => {
                        assert(!scope.contender(current[m], Some(year)));
                    },
                }
            }
            assert(rows@ =~= rebuilt_through(before, *scope, years@, k + 1));
        }
        k += 1;
    }
    proof {
        assert(years@.take(years@.len() as int) =~= years@);
        assert forall|m: int| 0 <= m < before.len() implies rows@[m] == recalculated_row(
            before,
            *scope,
            m,
        ) by {
            if scope.covers(before[m]) && holds_record(before, *scope, Some(before[m].year), m) {
                assert(years@.contains(before[m].year));
            }
        }
        assert(rows@ =~= recalculated(before, *scope));
    }
}

/// `row` once a new result has taken records of the partition: a valid row
/// of the partition gives up its personal-best flag if the newcomer took the
/// personal best, and its season-best flag if the newcomer took the season
/// best of the row's year. Any other row is as it was.
pub open spec fn demoted_row(
    row: AthleteResult,
    scope: RecordScope,
    new_personal_best: bool,
    new_season_best: Option<i32>,
) -> AthleteResult {
    if scope.covers(row) && row.status.is_valid() {
        with_flags(
            row,
            row.is_personal_best && !new_personal_best,
            row.is_season_best && !(new_season_best matches Some(year) && row.year == year),
        )
    } else {
        row
    }
}

/// The rows once a new result has taken records of the partition.
pub open spec fn demoted(
    rows: Seq<AthleteResult>,
    scope: RecordScope,
    new_personal_best: bool,
    new_season_best: Option<i32>,
) -> Seq<AthleteResult> {
    Seq::new(
        rows.len(),
        |i: int| demoted_row(rows[i], scope, new_personal_best, new_season_best),
    )
}

/// The season that changes hands when a result of `year` does or does not
/// take the season best.
pub open spec fn season_taken(takes_season_best: bool, year: i32) -> Option<i32> {
    if takes_season_best {
        Some(year)
    } else {
        None
    }
}

/// The rows after `candidate` has been recorded on the fast path: the
/// candidate is flagged with the records it takes, the holders it displaces
/// are demoted, and it is appended to the list.
pub open spec fn inserted(
    rows: Seq<AthleteResult>,
    scope: RecordScope,
    candidate: AthleteResult,
) -> Seq<AthleteResult> {
    let personal_best = takes_record(rows, scope, None, candidate);
    let season_best = takes_record(rows, scope, Some(candidate.year), candidate);
    demoted(rows, scope, personal_best, season_taken(season_best, candidate.year)).push(
        with_flags(candidate, personal_best, season_best),
    )
}

/// Clears the flags that a new record holder takes over: the personal-best
/// flag of every valid row of the partition if `new_personal_best`, and the
/// season-best flag of every valid row of the partition in the year of
/// `new_season_best`. No row outside the partition is touched.
pub fn demote_holders(
    rows: &mut Vec<AthleteResult>,
    scope: &RecordScope,
    new_personal_best: bool,
    new_season_best: Option<i32>,
)
    ensures
        final(rows)@ == demoted(old(rows)@, *scope, new_personal_best, new_season_best),
{
    let ghost before = rows@;
    let mut i: usize = 0;
    while i < rows.len()
        invariant
            i <= rows.len(),
            rows@.len() == before.len(),
            forall|k: int|
                0 <= k < i ==> #[trigger] rows@[k] == demoted_row(
                    before[k],
                    *scope,
                    new_personal_best,
                    new_season_best,
                ),
            forall|k: int| i <= k < rows@.len() ==> #[trigger] rows@[k] == before[k],
        decreases rows.len() - i,
    {
        if in_scope(&rows[i], scope) && rows[i].status == ResultStatus::Valid {
            if new_personal_best {
                rows[i].is_personal_best = false;
            }
            match new_season_best {
                Some(year) => {
                    if rows[i].year == year {
                        rows[i].is_season_best = false;
                    }
                },
                None => {},
            }
        }
        i += 1;
    }
    assert(rows@ =~= demoted(before, *scope, new_personal_best, new_season_best));
}

/// Records `candidate` in the partition on the fast path: decides which
/// records it takes, demotes the holders it displaces, appends it with its
/// flags and hands the stored row back.
pub fn record_in_partition(
    rows: &mut Vec<AthleteResult>,
    scope: &RecordScope,
    candidate: AthleteResult,
) -> (stored: AthleteResult)
    ensures
        final(rows)@ == inserted(old(rows)@, *scope, candidate),
        stored == with_flags(
            candidate,
            takes_record(old(rows)@, *scope, None, candidate),
            takes_record(old(rows)@, *scope, Some(candidate.year), candidate),
        ),
{
    let personal_best = would_take_record(rows, scope, None, &candidate);
    let season_best = would_take_record(rows, scope, Some(candidate.year), &candidate);
    let new_season_best = if season_best {
        Some(candidate.year)
    } else {
        None
    };
    demote_holders(rows, scope, personal_best, new_season_best);
    let mut stored = candidate;
    stored.is_personal_best = personal_best;
    stored.is_season_best = season_best;
    rows.push(stored);
    stored
}

} // verus!
