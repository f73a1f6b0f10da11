use ow2stats::error::AppError;
use ow2stats::ingest::{batch_result_from_outcomes, batch_upload, check_batch_nonempty};
use ow2stats::model::{CreateHeroStats, HeroClass, MapType};
use ow2stats::store::StatStore;

fn candidate(hero: &str, ts: Option<i64>) -> CreateHeroStats {
    CreateHeroStats {
        hero_id: hero.to_string(),
        hero_class: HeroClass::Support,
        pick_rate: Some(100_000),
        win_rate: Some(500_000),
        region: "NA".to_string(),
        platform: "pc".to_string(),
        gamemode: "competitive".to_string(),
        map: "ilios".to_string(),
        map_type: MapType::Control,
        tier: "gold".to_string(),
        timestamp: ts,
    }
}

#[test]
fn empty_batch_is_rejected_without_store_interaction() {
    let mut store = StatStore::new();
    let r = batch_upload(&mut store, &Vec::new(), 1_000);
    match r {
        Err(AppError::Validation { message }) => assert_eq!(message, "No heroes provided"),
        _ => panic!("an empty batch must be a validation error"),
    }
    assert_eq!(store.rows.len(), 0);
    assert_eq!(store.next_id, 1);
    assert!(check_batch_nonempty(&Vec::new()).is_err());
    assert!(check_batch_nonempty(&vec![candidate("ana", None)]).is_ok());
}

#[test]
fn batch_inserts_every_valid_row() {
    let mut store = StatStore::new();
    let batch = vec![candidate("ana", Some(10)), candidate("mercy", Some(10))];
    let res = batch_upload(&mut store, &batch, 99).expect("non-empty batch");
    assert_eq!(res.total, 2);
    assert_eq!(res.successful, 2);
    assert_eq!(res.failures.len(), 0);
    assert_eq!(store.rows.len(), 2);
    assert_eq!(store.rows[0].hero_id, "ana");
    assert_eq!(store.rows[0].inserted_at, 10);
    assert_eq!(store.rows[0].updated_at, 99);
    assert_eq!(store.rows[1].hero_id, "mercy");
}

#[test]
fn ingesting_same_natural_key_twice_merges_into_one_row() {
    let mut store = StatStore::new();
    let first = candidate("ana", Some(1_000));
    let mut second = candidate("ana", Some(1_000));
    second.pick_rate = Some(250_000);
    second.win_rate = Some(640_000);

    let r1 = batch_upload(&mut store, &vec![first], 2_000).expect("non-empty batch");
    assert_eq!(r1.successful, 1);
    let r2 = batch_upload(&mut store, &vec![second], 3_000).expect("non-empty batch");
    assert_eq!(r2.successful, 1);

    assert_eq!(store.rows.len(), 1, "the same snapshot must not be duplicated");
    let row = &store.rows[0];
    assert_eq!(row.pick_rate, Some(250_000), "rates come from the second call");
    assert_eq!(row.win_rate, Some(640_000));
    assert_eq!(row.inserted_at, 1_000, "inserted_at is unchanged");
    assert_eq!(row.updated_at, 3_000, "updated_at advances to the second call");
    assert_eq!(row.id, 1, "the surrogate id is kept");
}

#[test]
fn batch_tolerates_one_malformed_row_and_keeps_the_rest() {
    let mut store = StatStore::new();
    let batch = vec![
        candidate("ana", Some(1)),
        candidate("", Some(2)),
        candidate("mercy", Some(3)),
    ];
    let res = batch_upload(&mut store, &batch, 50).expect("non-empty batch");
    assert_eq!(res.total, 3);
    assert_eq!(res.successful, 2);
    assert_eq!(res.failures.len(), 1);
    assert_eq!(res.failures[0].index, 1, "the middle row (input position 1) failed");
    assert_eq!(res.failures[0].hero_id, "");
    assert_eq!(store.rows.len(), 2, "the transaction is not rolled back wholesale");
    assert_eq!(store.rows[0].hero_id, "ana");
    assert_eq!(store.rows[1].hero_id, "mercy");
}

#[test]
fn batch_with_every_row_failing_still_reports_counts() {
    let mut store = StatStore::new();
    let batch = vec![candidate("", None), candidate("", None)];
    let res = batch_upload(&mut store, &batch, 7).expect("non-empty batch");
    assert_eq!(res.total, 2);
    assert_eq!(res.successful, 0);
    assert_eq!(res.failures.len(), 2);
    assert_eq!(res.failures[0].index, 0);
    assert_eq!(res.failures[1].index, 1);
    assert_eq!(store.rows.len(), 0);
}

#[test]
fn outcome_summary_matches_reported_errors() {
    let batch = vec![candidate("ana", None), candidate("mercy", None), candidate("lucio", None)];
    let outcomes: Vec<Result<(), String>> = vec![
        Ok(()),
        Err("value too long for type".to_string()),
        Ok(()),
    ];
    let res = batch_result_from_outcomes(&batch, &outcomes);
    assert_eq!(res.total, 3);
    assert_eq!(res.successful, 2);
    assert_eq!(res.failures.len(), 1);
    assert_eq!(res.failures[0].index, 1);
    assert_eq!(res.failures[0].hero_id, "mercy");
    assert_eq!(res.failures[0].error, "value too long for type");
}
