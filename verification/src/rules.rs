//! Eligibility and comparison rules for record designations.
//!
//! Measurements are fixed-point integers: a wind reading is in hundredths of
//! a metre per second, a performance value in thousandths of the discipline's
//! unit, an implement weight in grams.

use vstd::prelude::*;

use crate::text::str_eq;

verus! {

/// Largest following wind, in hundredths of a metre per second, under which a
/// result still counts for records.
pub const WIND_LIMIT: i64 = 200;

/// Age from which the wind rule applies; younger athletes are exempt.
pub const WIND_RULE_AGE_THRESHOLD: i32 = 14;

/// Short names of the disciplines in which a following wind can void a record.
pub const WIND_AFFECTED_DISCIPLINES: [&'static str; 8] = [
    "60m",
    "100m",
    "200m",
    "60m aj",
    "80m aj",
    "100m aj",
    "Pituus",
    "Kolmiloikka",
];

/// Whether `name` is the short name of a wind-affected discipline.
pub open spec fn wind_affected(name: Seq<char>) -> bool {
    exists|k: int| 0 <= k < 8 && #[trigger] WIND_AFFECTED_DISCIPLINES[k]@ == name
}

/// Whether a reading of `wind` voids record eligibility for an athlete born in
/// `birth_year` competing in `result_year`, in a discipline that is
/// (`wind_sensitive`) or is not subject to the wind rule.
pub open spec fn wind_assisted(
    wind: Option<i64>,
    wind_sensitive: bool,
    birth_year: int,
    result_year: int,
) -> bool {
    &&& wind_sensitive
    &&& result_year - birth_year >= WIND_RULE_AGE_THRESHOLD
    &&& wind matches Some(w) && w > WIND_LIMIT
}

/// Looks `discipline_name` up in the list of wind-affected disciplines.
pub fn is_wind_affected_discipline(discipline_name: &str) -> (r: bool)
    ensures
        r == wind_affected(discipline_name@),
{
    let mut k: usize = 0;
    while k < 8
        invariant
            k <= 8,
            forall|j: int| 0 <= j < k ==> #[trigger] WIND_AFFECTED_DISCIPLINES[j]@ != discipline_name@,
        decreases 8 - k,
    {
        if str_eq(WIND_AFFECTED_DISCIPLINES[k], discipline_name) {
            return true;
        }
        k += 1;
    }
    false
}

/// The wind rule once the discipline's wind sensitivity is known.
pub fn wind_rule_applies(
    wind: Option<i64>,
    wind_sensitive: bool,
    athlete_birth_year: i32,
    result_year: i32,
) -> (r: bool)
    ensures
        r == wind_assisted(wind, wind_sensitive, athlete_birth_year as int, result_year as int),
{
    if !wind_sensitive {
        return false;
    }
    let athlete_age: i64 = result_year as i64 - athlete_birth_year as i64;
    if athlete_age < WIND_RULE_AGE_THRESHOLD as i64 {
        return false;
    }
    match wind {
        Some(w) => w > WIND_LIMIT,
        None => false,
    }
}

/// Decides whether the wind makes a result ineligible for records.
///
/// Only wind-affected disciplines are subject to the rule, only athletes of
/// at least [`WIND_RULE_AGE_THRESHOLD`] years in the year of the result, and
/// only readings strictly above [`WIND_LIMIT`].
pub fn is_wind_assisted(
    wind: Option<i64>,
    discipline_name: &str,
    athlete_birth_year: i32,
    result_year: i32,
) -> (r: bool)
    ensures
        r == wind_assisted(
            wind,
            wind_affected(discipline_name@),
            athlete_birth_year as int,
            result_year as int,
        ),
{
    let wind_sensitive = is_wind_affected_discipline(discipline_name);
    wind_rule_applies(wind, wind_sensitive, athlete_birth_year, result_year)
}

/// Which of two values counts as the superior performance.
#[derive(Clone, Copy, Debug, PartialEq, Eq, Structural)]
pub enum ComparisonDirection {
    /// Timed events: the smaller value wins.
    LowerIsBetter,
    /// Measured distances and heights: the larger value wins.
    HigherIsBetter,
}

/// Strict superiority of `candidate` over `incumbent` in the given direction.
pub open spec fn better(candidate: int, incumbent: int, direction: ComparisonDirection) -> bool {
    match direction {
        ComparisonDirection::LowerIsBetter => candidate < incumbent,
        ComparisonDirection::HigherIsBetter => candidate > incumbent,
    }
}

/// Whether `candidate` takes the record from `current_best`; with no current
/// best any candidate does.
pub open spec fn beats(candidate: int, current_best: Option<i64>, direction: ComparisonDirection) -> bool {
    match current_best {
        Some(best) => better(candidate, best as int, direction),
        None => true,
    }
}

/// The direction stored as the catalog's `lower_is_better` flag.
pub open spec fn direction_of(lower_is_better: bool) -> ComparisonDirection {
    if lower_is_better {
        ComparisonDirection::LowerIsBetter
    } else {
        ComparisonDirection::HigherIsBetter
    }
}

/// Reads the comparison direction off the catalog's `lower_is_better` flag.
pub fn comparison_direction(lower_is_better: bool) -> (d: ComparisonDirection)
    ensures
        d == direction_of(lower_is_better),
{
    if lower_is_better {
        ComparisonDirection::LowerIsBetter
    } else {
        ComparisonDirection::HigherIsBetter
    }
}

/// Decides whether `candidate` strictly beats `current_best`; a tie keeps the
/// incumbent.
pub fn is_better(candidate: i64, current_best: i64, direction: ComparisonDirection) -> (r: bool)
    ensures
        r == better(candidate as int, current_best as int, direction),
{
    match direction {
        ComparisonDirection::LowerIsBetter => candidate < current_best,
        ComparisonDirection::HigherIsBetter => candidate > current_best,
    }
}

/// Decides whether `candidate` becomes the new best given the current best of
/// its partition, if there is one.
pub fn beats_current_best(
    candidate: i64,
    current_best: Option<i64>,
    direction: ComparisonDirection,
) -> (r: bool)
    ensures
        r == beats(candidate as int, current_best, direction),
{
    match current_best {
        Some(best) => is_better(candidate, best, direction),
        None => true,
    }
}

/// The equipment dimension, if any, that splits a discipline into partitions.
#[derive(Clone, Copy, Debug, PartialEq, Eq, Structural)]
pub enum PartitionRule {
    /// Throwing disciplines: one partition per implement weight.
    ByEquipmentWeight,
    /// Hurdle disciplines: one partition per hurdle height.
    ByHurdleHeight,
    /// Every other discipline: a single partition.
    Undivided,
}

/// The sub-grouping of a discipline within which results compete.
#[derive(Clone, Copy, Debug, PartialEq, Eq, Structural)]
pub enum PartitionKey {
    /// Results that carry no partitioning equipment value.
    Standard,
    /// Throws with an implement of this weight, in grams.
    EquipmentWeight(i64),
    /// Hurdle races over hurdles of this height, in centimetres.
    HurdleHeight(i32),
}

/// The partition rule of a discipline category.
pub open spec fn rule_of(category: Seq<char>) -> PartitionRule {
    if category == "throws"@ {
        PartitionRule::ByEquipmentWeight
    } else if category == "hurdles"@ {
        PartitionRule::ByHurdleHeight
    } else {
        PartitionRule::Undivided
    }
}

/// The partition of a result with the given equipment values under `rule`.
pub open spec fn key_under(
    rule: PartitionRule,
    equipment_weight: Option<i64>,
    hurdle_height: Option<i32>,
) -> PartitionKey {
    match rule {
        PartitionRule::ByEquipmentWeight => match equipment_weight {
            Some(w) => PartitionKey::EquipmentWeight(w),
            None => PartitionKey::Standard,
        },
        PartitionRule::ByHurdleHeight => match hurdle_height {
            Some(h) => PartitionKey::HurdleHeight(h),
            None => PartitionKey::Standard,
        },
        PartitionRule::Undivided => PartitionKey::Standard,
    }
}

/// Classifies a discipline category by the equipment that partitions it.
pub fn partition_rule(category: &str) -> (rule: PartitionRule)
    ensures
        rule == rule_of(category@),
{
    if str_eq(category, "throws") {
        PartitionRule::ByEquipmentWeight
    } else if str_eq(category, "hurdles") {
        PartitionRule::ByHurdleHeight
    } else {
        PartitionRule::Undivided
    }
}

/// The partition under `rule` of a result with the given equipment values.
pub fn partition_key(
    rule: PartitionRule,
    equipment_weight: Option<i64>,
    hurdle_height: Option<i32>,
) -> (key: PartitionKey)
    ensures
        key == key_under(rule, equipment_weight, hurdle_height),
{
    match rule {
        PartitionRule::ByEquipmentWeight => match equipment_weight {
            Some(w) => PartitionKey::EquipmentWeight(w),
            None => PartitionKey::Standard,
        },
        PartitionRule::ByHurdleHeight => match hurdle_height {
            Some(h) => PartitionKey::HurdleHeight(h),
            None => PartitionKey::Standard,
        },
        PartitionRule::Undivided => PartitionKey::Standard,
    }
}

/// The partition of a result, by the category of its discipline and its own
/// equipment values.
pub open spec fn derived_key(
    category: Seq<char>,
    equipment_weight: Option<i64>,
    hurdle_height: Option<i32>,
) -> PartitionKey {
    if category == "throws"@ && equipment_weight is Some {
        PartitionKey::EquipmentWeight(equipment_weight->0)
    } else if category == "hurdles"@ && hurdle_height is Some {
        PartitionKey::HurdleHeight(hurdle_height->0)
    } else {
        PartitionKey::Standard
    }
}

/// Classifying the category first and then reading the equipment value gives
/// the partition that the category and the equipment values determine.
pub proof fn lemma_key_under_rule(
    category: Seq<char>,
    equipment_weight: Option<i64>,
    hurdle_height: Option<i32>,
)
    ensures
        key_under(rule_of(category), equipment_weight, hurdle_height) == derived_key(
            category,
            equipment_weight,
            hurdle_height,
        ),
{
    reveal_strlit("throws");
    reveal_strlit("hurdles");
    if category == "throws"@ {
        assert("throws"@.len() == 6);
        assert("hurdles"@.len() == 7);
    }
}

/// Maps a discipline category and a result's equipment values to the
/// partition the result competes in: throws are split by implement weight,
/// hurdles by hurdle height, and everything else shares the standard
/// partition.
pub fn derive_partition_key(
    category: &str,
    equipment_weight: Option<i64>,
    hurdle_height: Option<i32>,
) -> (key: PartitionKey)
    ensures
        key == derived_key(category@, equipment_weight, hurdle_height),
{
    proof {
        lemma_key_under_rule(category@, equipment_weight, hurdle_height);
    }
    partition_key(partition_rule(category), equipment_weight, hurdle_height)
}

} // verus!
