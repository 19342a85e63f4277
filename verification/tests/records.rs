use loikka::crud::{
    create_result, create_result_at, delete_result, evaluate_new_result, update_result,
    update_result_at,
};
use loikka::records::{
    check_personal_best_extended, check_personal_best_in_year, check_personal_best_internal,
    check_season_best_extended, check_season_best_internal, recalculate_records,
};
use loikka::store::{RecordError, ResultStore};
use loikka::types::Result as AthleteResult;
use loikka::types::{
    parse_status_code, Athlete, CreateResult, Discipline, RecordCheckParams, ResultStatus,
    UpdateResult,
};

// ==================== Test helpers ====================

fn thousandths(value: f64) -> i64 {
    (value * 1000.0).round() as i64
}

fn wind(metres_per_second: f64) -> Option<i64> {
    Some((metres_per_second * 100.0).round() as i64)
}

fn kilograms(weight: f64) -> Option<i64> {
    Some((weight * 1000.0).round() as i64)
}

fn discipline(id: i64, name: &str, full_name: &str, category: &str, unit: &str, lower: bool) -> Discipline {
    Discipline {
        id,
        name: name.to_string(),
        full_name: full_name.to_string(),
        category: category.to_string(),
        unit: unit.to_string(),
        lower_is_better: lower,
        icon_name: None,
    }
}

fn setup_test_db() -> ResultStore {
    let mut store = ResultStore::new();
    store.disciplines.push(discipline(1, "100m", "100 metriä", "sprints", "time", true));
    store.disciplines.push(discipline(2, "Pituus", "Pituushyppy", "jumps", "distance", false));
    store.disciplines.push(discipline(3, "Kuula", "Kuulantyöntö", "throws", "distance", false));
    store.disciplines.push(discipline(4, "60m aj", "60 metriä aidat", "hurdles", "time", true));
    store.disciplines.push(discipline(5, "800m", "800 metriä", "middleDistance", "time", true));
    store
}

fn create_test_athlete(store: &mut ResultStore, birth_year: i32) -> i64 {
    let id = store.athletes.len() as i64 + 1;
    store.athletes.push(Athlete {
        id,
        first_name: "Test".to_string(),
        last_name: "Athlete".to_string(),
        birth_year,
        gender: "T".to_string(),
        club_name: None,
        photo_path: None,
        created_at: String::new(),
        updated_at: String::new(),
    });
    id
}

fn year_of(date: &str) -> i32 {
    loikka::dates::parse_year(date).expect("test dates open with a year")
}

#[allow(clippy::too_many_arguments)]
fn insert_result(
    store: &mut ResultStore,
    athlete_id: i64,
    discipline_id: i64,
    date: &str,
    value: f64,
    wind: Option<i64>,
    equipment_weight: Option<i64>,
    hurdle_height: Option<i32>,
    status: &str,
) -> i64 {
    let id = store.next_result_id().expect("ids left");
    store.results.push(AthleteResult {
        id,
        athlete_id,
        discipline_id,
        year: year_of(date),
        value: thousandths(value),
        wind,
        status: parse_status_code(status).expect("a status code"),
        equipment_weight,
        hurdle_height,
        is_personal_best: false,
        is_season_best: false,
        is_national_record: false,
    });
    id
}

fn submission(athlete_id: i64, discipline_id: i64, date: &str, value: f64) -> CreateResult {
    CreateResult {
        athlete_id,
        discipline_id,
        date: date.to_string(),
        value: thousandths(value),
        wind: None,
        status: None,
        equipment_weight: None,
        hurdle_height: None,
        is_national_record: None,
    }
}

fn no_edit() -> UpdateResult {
    UpdateResult {
        athlete_id: None,
        discipline_id: None,
        date: None,
        value: None,
        wind: None,
        status: None,
        equipment_weight: None,
        hurdle_height: None,
        is_national_record: None,
    }
}

fn flags(store: &ResultStore, id: i64) -> (bool, bool) {
    let row = store.results.iter().find(|r| r.id == id).expect("result on file");
    (row.is_personal_best, row.is_season_best)
}

fn personal_best_holders(store: &ResultStore) -> Vec<i64> {
    store.results.iter().filter(|r| r.is_personal_best).map(|r| r.id).collect()
}

fn season_best_holders(store: &ResultStore) -> Vec<i64> {
    store.results.iter().filter(|r| r.is_season_best).map(|r| r.id).collect()
}

// ==================== PB check integration tests ====================

#[test]
fn test_pb_first_result_is_always_pb() {
    let mut store = setup_test_db();
    let athlete_id = create_test_athlete(&mut store, 2010);

    // First result should always be PB
    let is_pb = check_personal_best_internal(&store, athlete_id, 1, thousandths(12.50)).unwrap();
    assert!(is_pb, "First result should be PB");
}

#[test]
fn test_pb_lower_is_better_sprint() {
    let mut store = setup_test_db();
    let athlete_id = create_test_athlete(&mut store, 2010);

    // Insert initial result: 12.50s
    insert_result(&mut store, athlete_id, 1, "2025-01-01", 12.50, None, None, None, "valid");

    // Slower time should NOT be PB
    let is_pb = check_personal_best_internal(&store, athlete_id, 1, thousandths(12.60)).unwrap();
    assert!(!is_pb, "Slower time should not be PB");

    // Faster time SHOULD be PB
    let is_pb = check_personal_best_internal(&store, athlete_id, 1, thousandths(12.40)).unwrap();
    assert!(is_pb, "Faster time should be PB");

    // Same time should NOT be PB
    let is_pb = check_personal_best_internal(&store, athlete_id, 1, thousandths(12.50)).unwrap();
    assert!(!is_pb, "Same time should not be PB");
}

#[test]
fn test_pb_higher_is_better_jump() {
    let mut store = setup_test_db();
    let athlete_id = create_test_athlete(&mut store, 2010);

    // Insert initial result: 4.50m (Pituus, id=2)
    insert_result(&mut store, athlete_id, 2, "2025-01-01", 4.50, None, None, None, "valid");

    // Shorter jump should NOT be PB
    let is_pb = check_personal_best_internal(&store, athlete_id, 2, thousandths(4.40)).unwrap();
    assert!(!is_pb, "Shorter jump should not be PB");

    // Longer jump SHOULD be PB
    let is_pb = check_personal_best_internal(&store, athlete_id, 2, thousandths(4.60)).unwrap();
    assert!(is_pb, "Longer jump should be PB");
}

#[test]
fn test_pb_invalid_status_ignored() {
    let mut store = setup_test_db();
    let athlete_id = create_test_athlete(&mut store, 2010);

    // Insert invalid result (NM)
    insert_result(&mut store, athlete_id, 1, "2025-01-01", 12.00, None, None, None, "nm");

    // New result should be PB since invalid results are ignored
    let is_pb = check_personal_best_internal(&store, athlete_id, 1, thousandths(12.50)).unwrap();
    assert!(is_pb, "First valid result should be PB (invalid ignored)");
}

#[test]
fn test_pb_wind_assisted_not_eligible() {
    let mut store = setup_test_db();
    // Athlete born 2010 = 15 years old in 2025 (wind rules apply)
    let athlete_id = create_test_athlete(&mut store, 2010);

    // Insert valid result: 12.50s
    insert_result(&mut store, athlete_id, 1, "2025-01-01", 12.50, wind(1.5), None, None, "valid");

    // Wind-assisted result (wind > 2.0) should NOT be PB even if faster
    let params = RecordCheckParams { wind: wind(2.5), equipment_weight: None, hurdle_height: None };
    let is_pb =
        check_personal_best_extended(&store, athlete_id, 1, thousandths(12.00), &params).unwrap();
    assert!(!is_pb, "Wind-assisted result should not be PB");
}

#[test]
fn test_pb_wind_ok_for_young_athlete() {
    let mut store = setup_test_db();
    // Athlete born 2015 = 10 years old in 2025 (wind rules don't apply)
    let athlete_id = create_test_athlete(&mut store, 2015);

    // Insert result: 12.50s
    insert_result(&mut store, athlete_id, 1, "2025-01-01", 12.50, wind(1.5), None, None, "valid");

    // Wind > 2.0 should still be eligible for PB for young athlete
    let params = RecordCheckParams { wind: wind(2.5), equipment_weight: None, hurdle_height: None };
    let is_pb =
        check_personal_best_in_year(&store, athlete_id, 1, thousandths(12.00), 2025, &params)
            .unwrap();
    assert!(is_pb, "Wind should not affect young athlete's PB eligibility");
}

#[test]
fn test_pb_equipment_weight_separate() {
    let mut store = setup_test_db();
    let athlete_id = create_test_athlete(&mut store, 2010);

    // Insert result with 3kg shot put: 8.00m (Kuula, id=3)
    insert_result(&mut store, athlete_id, 3, "2025-01-01", 8.00, None, kilograms(3.0), None, "valid");

    // Better throw with 4kg should be PB (different weight class)
    let params =
        RecordCheckParams { wind: None, equipment_weight: kilograms(4.0), hurdle_height: None };
    let is_pb =
        check_personal_best_extended(&store, athlete_id, 3, thousandths(7.50), &params).unwrap();
    assert!(is_pb, "First result with different weight should be PB");

    // Insert 4kg result
    insert_result(&mut store, athlete_id, 3, "2025-01-02", 7.50, None, kilograms(4.0), None, "valid");

    // Worse throw with 4kg should NOT be PB
    let is_pb =
        check_personal_best_extended(&store, athlete_id, 3, thousandths(7.00), &params).unwrap();
    assert!(!is_pb, "Worse throw with same weight should not be PB");
}

#[test]
fn test_pb_hurdle_height_separate() {
    let mut store = setup_test_db();
    let athlete_id = create_test_athlete(&mut store, 2010);

    // Insert result with 76cm hurdles: 10.50s (60m aj, id=4)
    insert_result(&mut store, athlete_id, 4, "2025-01-01", 10.50, None, None, Some(76), "valid");

    // Slower time with 84cm should be PB (different height class)
    let params = RecordCheckParams { wind: None, equipment_weight: None, hurdle_height: Some(84) };
    let is_pb =
        check_personal_best_extended(&store, athlete_id, 4, thousandths(11.00), &params).unwrap();
    assert!(is_pb, "First result with different hurdle height should be PB");
}

// ==================== SB check integration tests ====================

#[test]
fn test_sb_first_result_of_year_is_sb() {
    let mut store = setup_test_db();
    let athlete_id = create_test_athlete(&mut store, 2010);

    // First result of year should be SB
    let is_sb =
        check_season_best_internal(&store, athlete_id, 1, thousandths(12.50), 2025).unwrap();
    assert!(is_sb, "First result of year should be SB");
}

#[test]
fn test_sb_better_result_same_year() {
    let mut store = setup_test_db();
    let athlete_id = create_test_athlete(&mut store, 2010);

    // Insert result in 2025
    insert_result(&mut store, athlete_id, 1, "2025-01-01", 12.50, None, None, None, "valid");

    // Slower should NOT be SB
    let is_sb =
        check_season_best_internal(&store, athlete_id, 1, thousandths(12.60), 2025).unwrap();
    assert!(!is_sb, "Slower time should not be SB");

    // Faster SHOULD be SB
    let is_sb =
        check_season_best_internal(&store, athlete_id, 1, thousandths(12.40), 2025).unwrap();
    assert!(is_sb, "Faster time should be SB");
}

#[test]
fn test_sb_different_years_separate() {
    let mut store = setup_test_db();
    let athlete_id = create_test_athlete(&mut store, 2010);

    // Insert result in 2024
    insert_result(&mut store, athlete_id, 1, "2024-06-01", 12.00, None, None, None, "valid");

    // Slower time in 2025 should still be SB (different year)
    let is_sb =
        check_season_best_internal(&store, athlete_id, 1, thousandths(12.50), 2025).unwrap();
    assert!(is_sb, "First result of new year should be SB regardless of previous year");
}

#[test]
fn test_sb_wind_assisted_not_eligible() {
    let mut store = setup_test_db();
    let athlete_id = create_test_athlete(&mut store, 2010);

    // Insert result in 2025
    insert_result(&mut store, athlete_id, 1, "2025-01-01", 12.50, wind(1.5), None, None, "valid");

    // Wind-assisted should NOT be SB
    let params = RecordCheckParams { wind: wind(2.5), equipment_weight: None, hurdle_height: None };
    let is_sb =
        check_season_best_extended(&store, athlete_id, 1, thousandths(12.00), 2025, &params)
            .unwrap();
    assert!(!is_sb, "Wind-assisted result should not be SB");
}

#[test]
fn test_sb_non_wind_affected_discipline() {
    let mut store = setup_test_db();
    let athlete_id = create_test_athlete(&mut store, 2010);

    // Insert 800m result (not wind-affected)
    insert_result(&mut store, athlete_id, 5, "2025-01-01", 150.0, None, None, None, "valid");

    // Even with high wind, should be SB (800m not wind-affected)
    let params = RecordCheckParams { wind: wind(5.0), equipment_weight: None, hurdle_height: None };
    let is_sb =
        check_season_best_extended(&store, athlete_id, 5, thousandths(145.0), 2025, &params)
            .unwrap();
    assert!(is_sb, "Wind should not affect 800m SB eligibility");
}

// ==================== Record checks: further cases ====================

#[test]
fn check_reports_unresolved_references() {
    let mut store = setup_test_db();
    let athlete_id = create_test_athlete(&mut store, 2010);
    assert_eq!(
        check_personal_best_internal(&store, athlete_id + 1, 1, 1),
        Err(RecordError::ReferenceNotFound)
    );
    assert_eq!(
        check_personal_best_internal(&store, athlete_id, 99, 1),
        Err(RecordError::ReferenceNotFound)
    );
    assert_eq!(
        check_season_best_internal(&store, athlete_id, 99, 1, 2025),
        Err(RecordError::ReferenceNotFound)
    );
}

#[test]
fn wind_assisted_rows_on_file_do_not_block_a_record() {
    let mut store = setup_test_db();
    let athlete_id = create_test_athlete(&mut store, 2010);
    // the fastest time on file is wind-assisted, so the best eligible one is 12.50
    insert_result(&mut store, athlete_id, 1, "2025-01-01", 11.00, wind(3.0), None, None, "valid");
    insert_result(&mut store, athlete_id, 1, "2025-01-02", 12.50, wind(0.5), None, None, "valid");
    let params = RecordCheckParams::default();
    assert_eq!(
        check_personal_best_in_year(&store, athlete_id, 1, thousandths(12.00), 2025, &params),
        Ok(true)
    );
    assert_eq!(
        check_personal_best_in_year(&store, athlete_id, 1, thousandths(12.50), 2025, &params),
        Ok(false)
    );
}

#[test]
fn other_athletes_do_not_compete() {
    let mut store = setup_test_db();
    let first = create_test_athlete(&mut store, 2010);
    let second = create_test_athlete(&mut store, 2010);
    insert_result(&mut store, first, 1, "2025-01-01", 11.00, None, None, None, "valid");
    assert_eq!(check_personal_best_internal(&store, second, 1, thousandths(15.0)), Ok(true));
}

// ==================== Insertion-time evaluation ====================

#[test]
fn first_result_takes_both_records() {
    let mut store = setup_test_db();
    let athlete_id = create_test_athlete(&mut store, 2010);
    let result = submission(athlete_id, 1, "2025-05-01", 12.50);
    assert_eq!(evaluate_new_result(&store, &result, 2030), Ok((true, true)));
    let stored = create_result_at(&mut store, &result, 2030).unwrap();
    assert_eq!(stored.id, 1);
    assert_eq!(stored.year, 2025);
    assert!(stored.is_personal_best && stored.is_season_best);
    assert_eq!(store.results, vec![stored]);
}

#[test]
fn lower_is_better_with_tie() {
    let mut store = setup_test_db();
    let athlete_id = create_test_athlete(&mut store, 2010);
    let first = create_result_at(&mut store, &submission(athlete_id, 1, "2025-05-01", 12.50), 2025)
        .unwrap();
    assert_eq!(
        evaluate_new_result(&store, &submission(athlete_id, 1, "2025-06-01", 12.60), 2025),
        Ok((false, false))
    );
    assert_eq!(
        evaluate_new_result(&store, &submission(athlete_id, 1, "2025-06-01", 12.40), 2025),
        Ok((true, true))
    );
    assert_eq!(
        evaluate_new_result(&store, &submission(athlete_id, 1, "2025-06-01", 12.50), 2025),
        Ok((false, false))
    );
    // a tie leaves the flags with the incumbent
    let tie = create_result_at(&mut store, &submission(athlete_id, 1, "2025-06-01", 12.50), 2025)
        .unwrap();
    assert!(!tie.is_personal_best && !tie.is_season_best);
    assert_eq!(flags(&store, first.id), (true, true));
    // a faster time takes them over
    let faster =
        create_result_at(&mut store, &submission(athlete_id, 1, "2025-07-01", 12.40), 2025)
            .unwrap();
    assert!(faster.is_personal_best && faster.is_season_best);
    assert_eq!(flags(&store, first.id), (false, false));
    assert_eq!(personal_best_holders(&store), vec![faster.id]);
    assert_eq!(season_best_holders(&store), vec![faster.id]);
}

#[test]
fn wind_blocks_record_at_fifteen() {
    let mut store = setup_test_db();
    let athlete_id = create_test_athlete(&mut store, 2010);
    let mut legal = submission(athlete_id, 1, "2025-05-01", 12.50);
    legal.wind = wind(1.5);
    let legal = create_result_at(&mut store, &legal, 2025).unwrap();
    let mut assisted = submission(athlete_id, 1, "2025-06-01", 12.00);
    assisted.wind = wind(2.5);
    assert_eq!(evaluate_new_result(&store, &assisted, 2025), Ok((false, false)));
    let assisted = create_result_at(&mut store, &assisted, 2025).unwrap();
    assert!(!assisted.is_personal_best && !assisted.is_season_best);
    assert_eq!(flags(&store, legal.id), (true, true));
}

#[test]
fn wind_does_not_block_record_at_ten() {
    let mut store = setup_test_db();
    let athlete_id = create_test_athlete(&mut store, 2015);
    let mut legal = submission(athlete_id, 1, "2025-05-01", 12.50);
    legal.wind = wind(1.5);
    let legal = create_result_at(&mut store, &legal, 2025).unwrap();
    let mut windy = submission(athlete_id, 1, "2025-06-01", 12.00);
    windy.wind = wind(2.5);
    assert_eq!(evaluate_new_result(&store, &windy, 2025), Ok((true, true)));
    let windy = create_result_at(&mut store, &windy, 2025).unwrap();
    assert!(windy.is_personal_best);
    assert_eq!(flags(&store, legal.id), (false, false));
}

#[test]
fn equipment_weights_are_separate_partitions() {
    let mut store = setup_test_db();
    let athlete_id = create_test_athlete(&mut store, 2010);
    let mut light = submission(athlete_id, 3, "2025-05-01", 8.00);
    light.equipment_weight = kilograms(3.0);
    let mut heavy = submission(athlete_id, 3, "2025-05-02", 7.50);
    heavy.equipment_weight = kilograms(4.0);
    let light = create_result_at(&mut store, &light, 2025).unwrap();
    let heavy = create_result_at(&mut store, &heavy, 2025).unwrap();
    assert!(light.is_personal_best && light.is_season_best);
    assert!(heavy.is_personal_best && heavy.is_season_best);
    // the new personal best with 4 kg has not touched the one with 3 kg
    assert_eq!(flags(&store, light.id), (true, true));
    assert_eq!(flags(&store, heavy.id), (true, true));
    // a better 4 kg throw demotes the 4 kg holder only
    let mut better = submission(athlete_id, 3, "2025-05-03", 7.80);
    better.equipment_weight = kilograms(4.0);
    let better = create_result_at(&mut store, &better, 2025).unwrap();
    assert_eq!(flags(&store, light.id), (true, true));
    assert_eq!(flags(&store, heavy.id), (false, false));
    assert_eq!(flags(&store, better.id), (true, true));
}

#[test]
fn hurdle_heights_are_separate_partitions() {
    let mut store = setup_test_db();
    let athlete_id = create_test_athlete(&mut store, 2010);
    let mut low = submission(athlete_id, 4, "2025-05-01", 10.50);
    low.hurdle_height = Some(76);
    let mut high = submission(athlete_id, 4, "2025-05-02", 11.00);
    high.hurdle_height = Some(84);
    let low = create_result_at(&mut store, &low, 2025).unwrap();
    let high = create_result_at(&mut store, &high, 2025).unwrap();
    assert_eq!(flags(&store, low.id), (true, true));
    assert_eq!(flags(&store, high.id), (true, true));
}

#[test]
fn equipment_is_ignored_outside_throws_and_hurdles() {
    let mut store = setup_test_db();
    let athlete_id = create_test_athlete(&mut store, 2010);
    // a weight on a sprint result does not open a partition
    let mut first = submission(athlete_id, 1, "2025-05-01", 12.50);
    first.equipment_weight = kilograms(3.0);
    let mut second = submission(athlete_id, 1, "2025-05-02", 12.60);
    second.equipment_weight = kilograms(4.0);
    create_result_at(&mut store, &first, 2025).unwrap();
    let second = create_result_at(&mut store, &second, 2025).unwrap();
    assert!(!second.is_personal_best && !second.is_season_best);
}

#[test]
fn invalid_submission_takes_no_record_and_displaces_nobody() {
    let mut store = setup_test_db();
    let athlete_id = create_test_athlete(&mut store, 2010);
    let holder = create_result_at(&mut store, &submission(athlete_id, 1, "2025-05-01", 12.50), 2025)
        .unwrap();
    for code in ["nm", "dns", "dnf", "dq"] {
        let mut invalid = submission(athlete_id, 1, "2025-06-01", 10.00);
        invalid.status = Some(code.to_string());
        assert_eq!(evaluate_new_result(&store, &invalid, 2025), Ok((false, false)));
        let stored = create_result_at(&mut store, &invalid, 2025).unwrap();
        assert!(!stored.is_personal_best && !stored.is_season_best);
        assert_ne!(stored.status, ResultStatus::Valid);
    }
    assert_eq!(flags(&store, holder.id), (true, true));
    // an invalid submission is not even looked up
    let mut stray = submission(athlete_id + 7, 99, "2025-06-01", 10.00);
    stray.status = Some("dq".to_string());
    assert_eq!(evaluate_new_result(&store, &stray, 2025), Ok((false, false)));
}

#[test]
fn explicit_valid_status_counts_as_valid() {
    let mut store = setup_test_db();
    let athlete_id = create_test_athlete(&mut store, 2010);
    let mut result = submission(athlete_id, 1, "2025-05-01", 12.50);
    result.status = Some("valid".to_string());
    assert_eq!(evaluate_new_result(&store, &result, 2025), Ok((true, true)));
}

#[test]
fn season_best_goes_by_the_year_of_the_date() {
    let mut store = setup_test_db();
    let athlete_id = create_test_athlete(&mut store, 2010);
    let old = create_result_at(&mut store, &submission(athlete_id, 1, "2024-06-01", 12.00), 2025)
        .unwrap();
    let new = create_result_at(&mut store, &submission(athlete_id, 1, "2025-06-01", 12.50), 2025)
        .unwrap();
    assert_eq!((old.is_personal_best, old.is_season_best), (true, true));
    assert_eq!((new.is_personal_best, new.is_season_best), (false, true));
    assert_eq!(flags(&store, old.id), (true, true));
}

#[test]
fn date_without_a_year_counts_for_the_fallback_year() {
    let mut store = setup_test_db();
    let athlete_id = create_test_athlete(&mut store, 2010);
    let stored =
        create_result_at(&mut store, &submission(athlete_id, 1, "last summer", 12.50), 2031)
            .unwrap();
    assert_eq!(stored.year, 2031);
}

#[test]
fn create_refuses_bad_submissions_and_changes_nothing() {
    let mut store = setup_test_db();
    let athlete_id = create_test_athlete(&mut store, 2010);
    create_result_at(&mut store, &submission(athlete_id, 1, "2025-05-01", 12.50), 2025).unwrap();
    let before = store.results.clone();

    let mut unknown_status = submission(athlete_id, 1, "2025-05-01", 12.00);
    unknown_status.status = Some("finished".to_string());
    assert_eq!(create_result_at(&mut store, &unknown_status, 2025), Err(RecordError::StoreError));

    let no_athlete = submission(athlete_id + 1, 1, "2025-05-01", 12.00);
    assert_eq!(create_result_at(&mut store, &no_athlete, 2025), Err(RecordError::ReferenceNotFound));

    let no_discipline = submission(athlete_id, 42, "2025-05-01", 12.00);
    assert_eq!(
        create_result_at(&mut store, &no_discipline, 2025),
        Err(RecordError::ReferenceNotFound)
    );
    assert_eq!(evaluate_new_result(&store, &no_discipline, 2025), Err(RecordError::ReferenceNotFound));

    store.results[0].id = i64::MAX;
    let before_full = store.results.clone();
    assert_eq!(
        create_result_at(&mut store, &submission(athlete_id, 1, "2025-05-01", 12.00), 2025),
        Err(RecordError::StoreError)
    );
    assert_eq!(store.results, before_full);
    store.results[0].id = before[0].id;
    assert_eq!(store.results, before);
}

#[test]
fn ids_count_up_from_the_largest_on_file() {
    let mut store = setup_test_db();
    let athlete_id = create_test_athlete(&mut store, 2010);
    assert_eq!(store.next_result_id(), Some(1));
    let a = create_result_at(&mut store, &submission(athlete_id, 1, "2025-05-01", 12.50), 2025)
        .unwrap();
    let b = create_result_at(&mut store, &submission(athlete_id, 1, "2025-05-02", 12.60), 2025)
        .unwrap();
    assert_eq!((a.id, b.id), (1, 2));
    store.results[0].id = 40;
    assert_eq!(store.next_result_id(), Some(41));
}

// ==================== Recalculation ====================

#[test]
fn deleting_the_holder_promotes_the_next_best_eligible() {
    let mut store = setup_test_db();
    let athlete_id = create_test_athlete(&mut store, 2010);
    let best = insert_result(&mut store, athlete_id, 1, "2025-01-01", 11.80, wind(1.0), None, None, "valid");
    let assisted = insert_result(&mut store, athlete_id, 1, "2025-01-02", 11.90, wind(2.6), None, None, "valid");
    let invalid = insert_result(&mut store, athlete_id, 1, "2025-01-03", 11.95, None, None, None, "dq");
    let next = insert_result(&mut store, athlete_id, 1, "2025-01-04", 12.10, wind(0.3), None, None, "valid");
    recalculate_records(&mut store, athlete_id, 1, None, None).unwrap();
    assert_eq!(personal_best_holders(&store), vec![best]);
    assert_eq!(season_best_holders(&store), vec![best]);

    assert_eq!(delete_result(&mut store, best), Ok(true));
    // the wind-assisted and the disqualified result are passed over
    assert_eq!(personal_best_holders(&store), vec![next]);
    assert_eq!(season_best_holders(&store), vec![next]);
    assert_eq!(flags(&store, assisted), (false, false));
    assert_eq!(flags(&store, invalid), (false, false));

    assert_eq!(delete_result(&mut store, next), Ok(true));
    // only a wind-assisted valid result is left: nobody holds the record
    assert!(personal_best_holders(&store).is_empty());
    assert!(season_best_holders(&store).is_empty());
    assert_eq!(store.results.len(), 2);
}

#[test]
fn delete_of_a_missing_result_changes_nothing() {
    let mut store = setup_test_db();
    let athlete_id = create_test_athlete(&mut store, 2010);
    create_result_at(&mut store, &submission(athlete_id, 1, "2025-05-01", 12.50), 2025).unwrap();
    let before = store.results.clone();
    assert_eq!(delete_result(&mut store, 77), Ok(false));
    assert_eq!(store.results, before);
}

#[test]
fn recalculation_sets_one_season_best_per_year() {
    let mut store = setup_test_db();
    let athlete_id = create_test_athlete(&mut store, 2010);
    let a = insert_result(&mut store, athlete_id, 2, "2023-06-01", 4.10, None, None, None, "valid");
    let b = insert_result(&mut store, athlete_id, 2, "2023-07-01", 4.30, None, None, None, "valid");
    let c = insert_result(&mut store, athlete_id, 2, "2024-06-01", 4.60, None, None, None, "valid");
    let d = insert_result(&mut store, athlete_id, 2, "2024-07-01", 4.60, None, None, None, "valid");
    let e = insert_result(&mut store, athlete_id, 2, "2025-06-01", 4.90, wind(2.4), None, None, "valid");
    let f = insert_result(&mut store, athlete_id, 2, "2025-07-01", 4.20, wind(2.0), None, None, "valid");
    recalculate_records(&mut store, athlete_id, 2, None, None).unwrap();
    // 4.60 is the best wind-legal jump; of the two, the earlier entry holds the record
    assert_eq!(personal_best_holders(&store), vec![c]);
    assert_eq!(season_best_holders(&store), vec![b, c, f]);
    assert_eq!(flags(&store, a), (false, false));
    assert_eq!(flags(&store, d), (false, false));
    assert_eq!(flags(&store, e), (false, false));
}

#[test]
fn recalculation_is_idempotent() {
    let mut store = setup_test_db();
    let athlete_id = create_test_athlete(&mut store, 2010);
    insert_result(&mut store, athlete_id, 1, "2024-01-01", 12.50, wind(2.5), None, None, "valid");
    insert_result(&mut store, athlete_id, 1, "2024-02-01", 12.70, None, None, None, "valid");
    insert_result(&mut store, athlete_id, 1, "2025-01-01", 12.60, None, None, None, "valid");
    insert_result(&mut store, athlete_id, 1, "2025-02-01", 12.90, None, None, None, "dnf");
    // start from flags that are wrong everywhere
    for row in store.results.iter_mut() {
        row.is_personal_best = true;
        row.is_season_best = true;
    }
    recalculate_records(&mut store, athlete_id, 1, None, None).unwrap();
    let once = store.results.clone();
    recalculate_records(&mut store, athlete_id, 1, None, None).unwrap();
    assert_eq!(store.results, once);
    let held: Vec<(bool, bool)> =
        once.iter().map(|r| (r.is_personal_best, r.is_season_best)).collect();
    assert_eq!(held, vec![(false, false), (false, true), (true, true), (false, false)]);
}

#[test]
fn recalculation_leaves_other_partitions_alone() {
    let mut store = setup_test_db();
    let athlete_id = create_test_athlete(&mut store, 2010);
    let other_athlete = create_test_athlete(&mut store, 2011);
    let light = insert_result(&mut store, athlete_id, 3, "2025-01-01", 8.00, None, kilograms(3.0), None, "valid");
    let heavy = insert_result(&mut store, athlete_id, 3, "2025-01-02", 7.50, None, kilograms(4.0), None, "valid");
    let bare = insert_result(&mut store, athlete_id, 3, "2025-01-03", 9.00, None, None, None, "valid");
    let foreign = insert_result(&mut store, other_athlete, 3, "2025-01-04", 9.50, None, kilograms(4.0), None, "valid");
    let sprint = insert_result(&mut store, athlete_id, 1, "2025-01-05", 12.00, None, kilograms(4.0), None, "valid");
    for row in store.results.iter_mut() {
        row.is_season_best = true;
    }
    recalculate_records(&mut store, athlete_id, 3, kilograms(4.0), None).unwrap();
    assert_eq!(flags(&store, heavy), (true, true));
    // everything outside the 4 kg partition of this athlete is as it was
    assert_eq!(flags(&store, light), (false, true));
    assert_eq!(flags(&store, bare), (false, true));
    assert_eq!(flags(&store, foreign), (false, true));
    assert_eq!(flags(&store, sprint), (false, true));
}

#[test]
fn recalculation_fails_whole_when_a_reference_is_missing() {
    let mut store = setup_test_db();
    let athlete_id = create_test_athlete(&mut store, 2010);
    insert_result(&mut store, athlete_id, 1, "2025-01-01", 12.50, None, None, None, "valid");
    store.results[0].is_personal_best = true;
    let before = store.results.clone();
    assert_eq!(
        recalculate_records(&mut store, athlete_id + 1, 1, None, None),
        Err(RecordError::ReferenceNotFound)
    );
    assert_eq!(
        recalculate_records(&mut store, athlete_id, 6, None, None),
        Err(RecordError::ReferenceNotFound)
    );
    assert_eq!(store.results, before);
}

#[test]
fn fast_path_agrees_with_a_rebuild() {
    let mut store = setup_test_db();
    let athlete_id = create_test_athlete(&mut store, 2010);
    let values = [12.50, 12.40, 12.40, 12.90, 12.10, 12.10, 13.00];
    let winds = [None, wind(2.5), None, wind(1.0), wind(2.1), None, None];
    let dates = [
        "2024-05-01", "2024-06-01", "2024-07-01", "2025-05-01", "2025-06-01", "2025-07-01",
        "2025-08-01",
    ];
    for k in 0..values.len() {
        let mut result = submission(athlete_id, 1, dates[k], values[k]);
        result.wind = winds[k];
        create_result_at(&mut store, &result, 2025).unwrap();
        let fast = store.results.clone();
        recalculate_records(&mut store, athlete_id, 1, None, None).unwrap();
        assert_eq!(store.results, fast);
    }
    assert_eq!(personal_best_holders(&store), vec![6]);
    assert_eq!(season_best_holders(&store), vec![3, 6]);
}

// ==================== Edits ====================

#[test]
fn edit_rebuilds_the_partition() {
    let mut store = setup_test_db();
    let athlete_id = create_test_athlete(&mut store, 2010);
    let a = create_result_at(&mut store, &submission(athlete_id, 1, "2025-05-01", 12.50), 2025)
        .unwrap();
    let b = create_result_at(&mut store, &submission(athlete_id, 1, "2025-06-01", 12.70), 2025)
        .unwrap();
    // slowing the holder down hands the records to the other result
    let mut edit = no_edit();
    edit.value = Some(thousandths(13.00));
    let edited = update_result_at(&mut store, a.id, &edit, 2025).unwrap();
    assert_eq!(edited.value, thousandths(13.00));
    assert!(!edited.is_personal_best && !edited.is_season_best);
    assert_eq!(flags(&store, b.id), (true, true));
    // disqualifying the new holder hands them back
    let mut edit = no_edit();
    edit.status = Some("dq".to_string());
    let edited = update_result_at(&mut store, b.id, &edit, 2025).unwrap();
    assert_eq!(edited.status, ResultStatus::Disqualified);
    assert!(!edited.is_personal_best && !edited.is_season_best);
    assert_eq!(flags(&store, a.id), (true, true));
}

#[test]
fn edit_that_moves_a_result_rebuilds_both_partitions() {
    let mut store = setup_test_db();
    let athlete_id = create_test_athlete(&mut store, 2010);
    let mut light_a = submission(athlete_id, 3, "2025-05-01", 8.00);
    light_a.equipment_weight = kilograms(3.0);
    let mut light_b = submission(athlete_id, 3, "2025-05-02", 7.00);
    light_b.equipment_weight = kilograms(3.0);
    let mut heavy = submission(athlete_id, 3, "2025-05-03", 7.50);
    heavy.equipment_weight = kilograms(4.0);
    let light_a = create_result_at(&mut store, &light_a, 2025).unwrap();
    let light_b = create_result_at(&mut store, &light_b, 2025).unwrap();
    let heavy = create_result_at(&mut store, &heavy, 2025).unwrap();
    // the 3 kg holder turns out to have been thrown with 4 kg
    let mut edit = no_edit();
    edit.equipment_weight = kilograms(4.0);
    let moved = update_result_at(&mut store, light_a.id, &edit, 2025).unwrap();
    assert_eq!(moved.equipment_weight, kilograms(4.0));
    assert!(moved.is_personal_best && moved.is_season_best);
    assert_eq!(flags(&store, heavy.id), (false, false));
    assert_eq!(flags(&store, light_b.id), (true, true));
}

#[test]
fn edit_keeps_what_it_does_not_mention_and_clears_wind_and_equipment() {
    let mut store = setup_test_db();
    let athlete_id = create_test_athlete(&mut store, 2010);
    let mut result = submission(athlete_id, 3, "2024-05-01", 8.00);
    result.wind = wind(1.0);
    result.equipment_weight = kilograms(3.0);
    result.is_national_record = Some(true);
    let stored = create_result_at(&mut store, &result, 2025).unwrap();
    let edited = update_result_at(&mut store, stored.id, &no_edit(), 2025).unwrap();
    assert_eq!(edited.id, stored.id);
    assert_eq!(edited.athlete_id, athlete_id);
    assert_eq!(edited.discipline_id, 3);
    assert_eq!(edited.year, 2024);
    assert_eq!(edited.value, thousandths(8.00));
    assert_eq!(edited.status, ResultStatus::Valid);
    assert!(edited.is_national_record);
    assert_eq!(edited.wind, None);
    assert_eq!(edited.equipment_weight, None);
    assert_eq!(edited.hurdle_height, None);
    let mut edit = no_edit();
    edit.date = Some("2023-09-09".to_string());
    edit.is_national_record = Some(false);
    let edited = update_result_at(&mut store, stored.id, &edit, 2025).unwrap();
    assert_eq!(edited.year, 2023);
    assert!(!edited.is_national_record);
}

#[test]
fn edit_is_refused_whole() {
    let mut store = setup_test_db();
    let athlete_id = create_test_athlete(&mut store, 2010);
    let stored = create_result_at(&mut store, &submission(athlete_id, 1, "2025-05-01", 12.50), 2025)
        .unwrap();
    let before = store.results.clone();
    assert_eq!(update_result_at(&mut store, 99, &no_edit(), 2025), Err(RecordError::StoreError));
    let mut edit = no_edit();
    edit.status = Some("void".to_string());
    assert_eq!(update_result_at(&mut store, stored.id, &edit, 2025), Err(RecordError::StoreError));
    let mut edit = no_edit();
    edit.athlete_id = Some(athlete_id + 5);
    assert_eq!(
        update_result_at(&mut store, stored.id, &edit, 2025),
        Err(RecordError::ReferenceNotFound)
    );
    let mut edit = no_edit();
    edit.discipline_id = Some(77);
    assert_eq!(
        update_result_at(&mut store, stored.id, &edit, 2025),
        Err(RecordError::ReferenceNotFound)
    );
    assert_eq!(store.results, before);
}

// ==================== The invariant over a run of operations ====================

fn assert_consistent(store: &ResultStore) {
    for a in store.results.iter() {
        if a.status != ResultStatus::Valid {
            assert!(!a.is_personal_best && !a.is_season_best);
        }
        for b in store.results.iter() {
            let same_partition = a.athlete_id == b.athlete_id
                && a.discipline_id == b.discipline_id
                && partition(store, a) == partition(store, b);
            if a.id != b.id && same_partition {
                assert!(!(a.is_personal_best && b.is_personal_best), "two personal bests");
                assert!(
                    !(a.year == b.year && a.is_season_best && b.is_season_best),
                    "two season bests in {}",
                    a.year
                );
            }
        }
    }
}

/// Every flag on file is what a rebuild of its partition would make it.
fn assert_up_to_date(store: &ResultStore) {
    let mut rebuilt = store.clone();
    for row in store.results.iter() {
        recalculate_records(
            &mut rebuilt,
            row.athlete_id,
            row.discipline_id,
            row.equipment_weight,
            row.hurdle_height,
        )
        .unwrap();
    }
    assert_eq!(rebuilt.results, store.results);
}

fn partition(store: &ResultStore, row: &AthleteResult) -> loikka::rules::PartitionKey {
    let category = &store.find_discipline(row.discipline_id).expect("discipline on file").category;
    loikka::rules::derive_partition_key(category, row.equipment_weight, row.hurdle_height)
}

#[test]
fn flags_stay_consistent_through_a_run_of_operations() {
    let mut store = setup_test_db();
    let athlete_id = create_test_athlete(&mut store, 2010);
    let mut seed: u64 = 7;
    let mut next = |bound: u64| {
        seed = seed.wrapping_mul(6364136223846793005).wrapping_add(1442695040888963407);
        (seed >> 33) % bound
    };
    for step in 0..200 {
        let discipline_id = 1 + next(5) as i64;
        match next(4) {
            0 | 1 => {
                let date = format!("{}-06-01", 2023 + next(3));
                let mut result = submission(athlete_id, discipline_id, &date, 5.0 + next(40) as f64 / 10.0);
                result.wind = [None, wind(1.0), wind(2.0), wind(2.1)][next(4) as usize];
                result.equipment_weight = [None, kilograms(3.0), kilograms(4.0)][next(3) as usize];
                result.hurdle_height = [None, Some(76), Some(84)][next(3) as usize];
                result.status = [None, None, Some("dq".to_string())][next(3) as usize].clone();
                create_result_at(&mut store, &result, 2025).unwrap();
            }
            2 => {
                if !store.results.is_empty() {
                    let id = store.results[next(store.results.len() as u64) as usize].id;
                    let mut edit = no_edit();
                    edit.discipline_id = Some(discipline_id);
                    edit.value = Some(thousandths(5.0 + next(40) as f64 / 10.0));
                    edit.wind = [None, wind(2.5)][next(2) as usize];
                    edit.equipment_weight = [None, kilograms(3.0), kilograms(4.0)][next(3) as usize];
                    edit.hurdle_height = [None, Some(76), Some(84)][next(3) as usize];
                    update_result_at(&mut store, id, &edit, 2025).unwrap();
                }
            }
            _ => {
                if !store.results.is_empty() {
                    let id = store.results[next(store.results.len() as u64) as usize].id;
                    assert_eq!(delete_result(&mut store, id), Ok(true));
                }
            }
        }
        assert_consistent(&store);
        assert_up_to_date(&store);
        assert!(store.results.len() <= step + 1);
    }
}

#[test]
fn operations_by_the_clock() {
    let mut store = setup_test_db();
    let athlete_id = create_test_athlete(&mut store, 2010);
    let dated = create_result(&mut store, &submission(athlete_id, 5, "2022-08-01", 150.0)).unwrap();
    assert_eq!(dated.year, 2022);
    assert!(dated.is_personal_best && dated.is_season_best);
    let undated = create_result(&mut store, &submission(athlete_id, 5, "today", 151.0)).unwrap();
    assert_eq!(undated.year, loikka::clock::current_year());
    assert!(undated.year > 2022);
    assert!(!undated.is_personal_best && undated.is_season_best);
    let mut edit = no_edit();
    edit.date = Some("2022-09-01".to_string());
    edit.value = Some(thousandths(149.0));
    let edited = update_result(&mut store, undated.id, &edit).unwrap();
    assert_eq!(edited.year, 2022);
    assert!(edited.is_personal_best && edited.is_season_best);
    assert_eq!(flags(&store, dated.id), (false, false));
    assert_eq!(update_result(&mut store, 404, &no_edit()), Err(RecordError::StoreError));
}
