//! The records the engine works on.
//!
//! Measurements are fixed-point integers: a performance value is in
//! thousandths of the discipline's unit (milliseconds, millimetres), a wind
//! reading in hundredths of a metre per second, an implement weight in grams
//! and a hurdle height in centimetres.

use vstd::prelude::*;

use crate::text::str_eq;

verus! {

/// An athlete of the registry.
#[derive(Clone, Debug)]
pub struct Athlete {
    pub id: i64,
    pub first_name: String,
    pub last_name: String,
    pub birth_year: i32,
    /// "T" for girls, "P" for boys.
    pub gender: String,
    pub club_name: Option<String>,
    pub photo_path: Option<String>,
    pub created_at: String,
    pub updated_at: String,
}

/// What a client submits to register an athlete.
#[derive(Clone, Debug)]
pub struct CreateAthlete {
    pub first_name: String,
    pub last_name: String,
    pub birth_year: i32,
    pub gender: String,
    pub club_name: Option<String>,
    pub photo_path: Option<String>,
}

/// An edit of an athlete; an absent field keeps its stored value.
#[derive(Clone, Debug)]
pub struct UpdateAthlete {
    pub first_name: Option<String>,
    pub last_name: Option<String>,
    pub birth_year: Option<i32>,
    pub gender: Option<String>,
    pub club_name: Option<String>,
    pub photo_path: Option<String>,
}

/// A discipline of the catalog.
#[derive(Clone, Debug)]
pub struct Discipline {
    pub id: i64,
    /// Short display name; the wind rule goes by it.
    pub name: String,
    pub full_name: String,
    /// "throws" and "hurdles" are partitioned by equipment.
    pub category: String,
    pub unit: String,
    pub lower_is_better: bool,
    pub icon_name: Option<String>,
}

/// Whether a performance produced a mark that can count.
#[derive(Clone, Copy, Debug, PartialEq, Eq, Structural)]
pub enum ResultStatus {
    Valid,
    NoMark,
    DidNotStart,
    DidNotFinish,
    Disqualified,
}

/// One measured performance, as far as record keeping reads and writes it.
#[derive(Clone, Copy, Debug, PartialEq, Eq, Structural)]
pub struct Result {
    pub id: i64,
    pub athlete_id: i64,
    pub discipline_id: i64,
    /// Calendar year of the result's date.
    pub year: i32,
    /// Thousandths of the discipline's unit.
    pub value: i64,
    /// Hundredths of a metre per second; positive is a following wind.
    pub wind: Option<i64>,
    pub status: ResultStatus,
    /// Grams; partitions throwing disciplines.
    pub equipment_weight: Option<i64>,
    /// Centimetres; partitions hurdle disciplines.
    pub hurdle_height: Option<i32>,
    pub is_personal_best: bool,
    pub is_season_best: bool,
    /// Asserted by the client, never derived.
    pub is_national_record: bool,
}

/// What a client submits to record a new result.
#[derive(Clone, Debug)]
pub struct CreateResult {
    pub athlete_id: i64,
    pub discipline_id: i64,
    /// ISO calendar date, `YYYY-MM-DD`.
    pub date: String,
    pub value: i64,
    pub wind: Option<i64>,
    /// One of "valid", "nm", "dns", "dnf", "dq"; absent means valid.
    pub status: Option<String>,
    pub equipment_weight: Option<i64>,
    pub hurdle_height: Option<i32>,
    pub is_national_record: Option<bool>,
}

/// An edit of a stored result. Identity, date, value, status and the national
/// record mark keep their stored value when absent; wind and the equipment
/// values are overwritten, an absent one clearing the stored value.
#[derive(Clone, Debug)]
pub struct UpdateResult {
    pub athlete_id: Option<i64>,
    pub discipline_id: Option<i64>,
    pub date: Option<String>,
    pub value: Option<i64>,
    pub wind: Option<i64>,
    pub status: Option<String>,
    pub equipment_weight: Option<i64>,
    pub hurdle_height: Option<i32>,
    pub is_national_record: Option<bool>,
}

/// The wind and equipment context of a candidate result.
#[derive(Clone, Copy, Debug)]
pub struct RecordCheckParams {
    pub wind: Option<i64>,
    pub equipment_weight: Option<i64>,
    pub hurdle_height: Option<i32>,
}

impl Default for RecordCheckParams {
    fn default() -> (params: RecordCheckParams)
        ensures
            params.wind is None,
            params.equipment_weight is None,
            params.hurdle_height is None,
    {
        RecordCheckParams { wind: None, equipment_weight: None, hurdle_height: None }
    }
}

/// The status that a stored status code stands for, if it is one of the five
/// codes.
pub open spec fn status_of_code(code: Seq<char>) -> Option<ResultStatus> {
    if code == "valid"@ {
        Some(ResultStatus::Valid)
    } else if code == "nm"@ {
        Some(ResultStatus::NoMark)
    } else if code == "dns"@ {
        Some(ResultStatus::DidNotStart)
    } else if code == "dnf"@ {
        Some(ResultStatus::DidNotFinish)
    } else if code == "dq"@ {
        Some(ResultStatus::Disqualified)
    } else {
        None
    }
}

/// The status of a result whose status field holds `status`: an absent
/// status means valid.
pub open spec fn status_of(status: Option<String>) -> Option<ResultStatus> {
    match status {
        Some(code) => status_of_code(code@),
        None => Some(ResultStatus::Valid),
    }
}

/// Reads a status code; `None` for anything but the five codes.
pub fn parse_status_code(code: &str) -> (status: Option<ResultStatus>)
    ensures
        status == status_of_code(code@),
{
    if str_eq(code, "valid") {
        Some(ResultStatus::Valid)
    } else if str_eq(code, "nm") {
        Some(ResultStatus::NoMark)
    } else if str_eq(code, "dns") {
        Some(ResultStatus::DidNotStart)
    } else if str_eq(code, "dnf") {
        Some(ResultStatus::DidNotFinish)
    } else if str_eq(code, "dq") {
        Some(ResultStatus::Disqualified)
    } else {
        None
    }
}

/// Reads an optional status field; an absent status means valid.
pub fn parse_status(status: &Option<String>) -> (parsed: Option<ResultStatus>)
    ensures
        parsed == status_of(*status),
{
    match status {
        Some(code) => parse_status_code(code.as_str()),
        None => Some(ResultStatus::Valid),
    }
}

impl ResultStatus {
    /// Only a valid result can hold or threaten a record.
    pub open spec fn is_valid(self) -> bool {
        self == ResultStatus::Valid
    }

    /// The code under which the status is stored.
    pub fn code(self) -> (code: &'static str)
        ensures
            status_of_code(code@) == Some(self),
    {
        proof {
            reveal_strlit("valid");
            reveal_strlit("nm");
            reveal_strlit("dns");
            reveal_strlit("dnf");
            reveal_strlit("dq");
            assert("valid"@.len() == 5);
            assert("nm"@.len() == 2);
            assert("dns"@[1] == 'n');
            assert("dnf"@[2] == 'f');
            assert("dq"@[1] == 'q');
        }
        match self {
            ResultStatus::Valid => "valid",
            ResultStatus::NoMark => "nm",
            ResultStatus::DidNotStart => "dns",
            ResultStatus::DidNotFinish => "dnf",
            ResultStatus::Disqualified => "dq",
        }
    }
}

} // verus!
