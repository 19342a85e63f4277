//! The result store with its two reference catalogs, held in memory.

use vstd::prelude::*;

use crate::partition::RecordScope;
use crate::rules::{
    comparison_direction, direction_of, is_wind_affected_discipline, key_under, partition_key,
    partition_rule, rule_of, wind_affected,
};
use crate::types::Result as AthleteResult;
use crate::types::{Athlete, Discipline};

verus! {

/// Why an operation on the store was refused.
#[derive(Clone, Copy, Debug, PartialEq, Eq, Structural)]
pub enum RecordError {
    /// The athlete or the discipline named by the request is not on file.
    ReferenceNotFound,
    /// The store cannot carry the request out: the result to edit is not on
    /// file, a status code is none of the five, or the ids are used up.
    StoreError,
}

/// Whether `i` is the first position of `id` in `ids`.
pub open spec fn is_first_position(ids: Seq<i64>, id: i64, i: int) -> bool {
    &&& 0 <= i < ids.len()
    &&& ids[i] == id
    &&& forall|j: int| 0 <= j < i ==> ids[j] != id
}

/// The first position of `id` in `ids`, if it occurs.
pub open spec fn first_position(ids: Seq<i64>, id: i64) -> Option<int> {
    if exists|i: int| is_first_position(ids, id, i) {
        Some(choose|i: int| is_first_position(ids, id, i))
    } else {
        None
    }
}

/// The first position of an id is the only one that no earlier one precedes.
pub proof fn lemma_first_position(ids: Seq<i64>, id: i64, i: int)
    requires
        is_first_position(ids, id, i),
    ensures
        first_position(ids, id) == Some(i),
{
    let c = choose|c: int| is_first_position(ids, id, c);
    assert(is_first_position(ids, id, c));
    if c < i {
        assert(ids[c] != id);
    }
    if i < c {
        assert(ids[i] != id);
    }
}

/// An id that occurs nowhere has no first position.
pub proof fn lemma_no_position(ids: Seq<i64>, id: i64)
    requires
        forall|j: int| 0 <= j < ids.len() ==> ids[j] != id,
    ensures
        first_position(ids, id) is None,
{
}

/// The partition of a result of `athlete` in `discipline` with the given
/// equipment values, with the rules that govern it.
pub open spec fn scope_of(
    athlete: Athlete,
    discipline: Discipline,
    equipment_weight: Option<i64>,
    hurdle_height: Option<i32>,
) -> RecordScope {
    let rule = rule_of(discipline.category@);
    RecordScope {
        athlete_id: athlete.id,
        discipline_id: discipline.id,
        rule,
        key: key_under(rule, equipment_weight, hurdle_height),
        direction: direction_of(discipline.lower_is_better),
        wind_sensitive: wind_affected(discipline.name@),
        birth_year: athlete.birth_year,
    }
}

/// The athlete registry, the discipline catalog and the results on file.
///
/// Results are kept in the order in which they were recorded. An id is
/// looked up from the front, so the first entry that carries it is the one
/// it names.
#[derive(Clone, Debug)]
pub struct ResultStore {
    pub athletes: Vec<Athlete>,
    pub disciplines: Vec<Discipline>,
    pub results: Vec<AthleteResult>,
}

impl ResultStore {
    /// The ids of the athletes, in registry order.
    pub open spec fn athlete_ids(self) -> Seq<i64> {
        self.athletes@.map_values(|a: Athlete| a.id)
    }

    /// The ids of the disciplines, in catalog order.
    pub open spec fn discipline_ids(self) -> Seq<i64> {
        self.disciplines@.map_values(|d: Discipline| d.id)
    }

    /// The ids of the results, in the order they were recorded.
    pub open spec fn result_ids(self) -> Seq<i64> {
        self.results@.map_values(|r: AthleteResult| r.id)
    }

    /// The athlete that `id` names.
    pub open spec fn athlete(self, id: i64) -> Option<Athlete> {
        match first_position(self.athlete_ids(), id) {
            Some(i) => Some(self.athletes@[i]),
            None => None,
        }
    }

    /// The discipline that `id` names.
    pub open spec fn discipline(self, id: i64) -> Option<Discipline> {
        match first_position(self.discipline_ids(), id) {
            Some(i) => Some(self.disciplines@[i]),
            None => None,
        }
    }

    /// The partition that a result of the given athlete and discipline with
    /// the given equipment values belongs to; `None` unless both are on file.
    pub open spec fn scope(
        self,
        athlete_id: i64,
        discipline_id: i64,
        equipment_weight: Option<i64>,
        hurdle_height: Option<i32>,
    ) -> Option<RecordScope> {
        match (self.athlete(athlete_id), self.discipline(discipline_id)) {
            (Some(athlete), Some(discipline)) => Some(
                scope_of(athlete, discipline, equipment_weight, hurdle_height),
            ),
            _ => None,
        }
    }

    /// An empty store.
    pub fn new() -> (store: ResultStore)
        ensures
            store.athletes@.len() == 0,
            store.disciplines@.len() == 0,
            store.results@.len() == 0,
    {
        ResultStore { athletes: Vec::new(), disciplines: Vec::new(), results: Vec::new() }
    }

    /// Looks an athlete up by id.
    pub fn find_athlete(&self, id: i64) -> (found: Option<&Athlete>)
        ensures
            match found {
                Some(athlete) => self.athlete(id) == Some(*athlete) && athlete.id == id,
                None => self.athlete(id) is None,
            },
    {
        let mut i: usize = 0;
        while i < self.athletes.len()
            invariant
                i <= self.athletes.len(),
                forall|j: int| 0 <= j < i ==> self.athlete_ids()[j] != id,
            decreases self.athletes.len() - i,
        {
            if self.athletes[i].id == id {
                proof {
                    lemma_first_position(self.athlete_ids(), id, i as int);
                }
                return Some(&self.athletes[i]);
            }
            i += 1;
        }
        proof {
            lemma_no_position(self.athlete_ids(), id);
        }
        None
    }

    /// Looks a discipline up by id.
    pub fn find_discipline(&self, id: i64) -> (found: Option<&Discipline>)
        ensures
            match found {
                Some(discipline) => self.discipline(id) == Some(*discipline) && discipline.id == id,
                None => self.discipline(id) is None,
            },
    {
        let mut i: usize = 0;
        while i < self.disciplines.len()
            invariant
                i <= self.disciplines.len(),
                forall|j: int| 0 <= j < i ==> self.discipline_ids()[j] != id,
            decreases self.disciplines.len() - i,
        {
            if self.disciplines[i].id == id {
                proof {
                    lemma_first_position(self.discipline_ids(), id, i as int);
                }
                return Some(&self.disciplines[i]);
            }
            i += 1;
        }
        proof {
            lemma_no_position(self.discipline_ids(), id);
        }
        None
    }

    /// Looks a result up by id and says where it stands.
    pub fn find_result(&self, id: i64) -> (found: Option<usize>)
        ensures
            match found {
                Some(i) => first_position(self.result_ids(), id) == Some(i as int) && i
                    < self.results@.len() && self.results@[i as int].id == id,
                None => first_position(self.result_ids(), id) is None,
            },
    {
        let mut i: usize = 0;
        while i < self.results.len()
            invariant
                i <= self.results.len(),
                forall|j: int| 0 <= j < i ==> self.result_ids()[j] != id,
            decreases self.results.len() - i,
        {
            if self.results[i].id == id {
                proof {
                    lemma_first_position(self.result_ids(), id, i as int);
                }
                return Some(i);
            }
            i += 1;
        }
        proof {
            lemma_no_position(self.result_ids(), id);
        }
        None
    }

    /// Resolves an athlete and a discipline to the partition of a result
    /// with the given equipment values, reading the comparison direction,
    /// the category and the wind sensitivity off the discipline and the
    /// birth year off the athlete.
    pub fn resolve_scope(
        &self,
        athlete_id: i64,
        discipline_id: i64,
        equipment_weight: Option<i64>,
        hurdle_height: Option<i32>,
    ) -> (resolved: Result<RecordScope, RecordError>)
        ensures
            match resolved {
                Ok(scope) => {
                    &&& self.scope(athlete_id, discipline_id, equipment_weight, hurdle_height)
                        == Some(scope)
                    &&& scope.athlete_id == athlete_id
                    &&& scope.discipline_id == discipline_id
                },
                Err(e) => e == RecordError::ReferenceNotFound && self.scope(
                    athlete_id,
                    discipline_id,
                    equipment_weight,
                    hurdle_height,
                ) is None,
            },
    {
        let discipline = match self.find_discipline(discipline_id) {
            Some(discipline) => discipline,
            None => {
                return Err(RecordError::ReferenceNotFound);
            },
        };
        let athlete = match self.find_athlete(athlete_id) {
            Some(athlete) => athlete,
            None => {
                return Err(RecordError::ReferenceNotFound);
            },
        };
        let rule = partition_rule(discipline.category.as_str());
        Ok(
            RecordScope {
                athlete_id: athlete.id,
                discipline_id: discipline.id,
                rule,
                key: partition_key(rule, equipment_weight, hurdle_height),
                direction: comparison_direction(discipline.lower_is_better),
                wind_sensitive: is_wind_affected_discipline(discipline.name.as_str()),
                birth_year: athlete.birth_year,
            },
        )
    }
}

} // verus!
