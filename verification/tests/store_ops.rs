use ow2stats::error::AppError;
use ow2stats::model::{CreateHeroStats, HeroClass, MapType};
use ow2stats::query::{HeroQueryParams, Order, OrderBy};
use ow2stats::store::StatStore;

fn candidate(hero: &str, region: &str, win_ppm: Option<u32>, ts: i64) -> CreateHeroStats {
    CreateHeroStats {
        hero_id: hero.to_string(),
        hero_class: HeroClass::Damage,
        pick_rate: Some(50_000),
        win_rate: win_ppm,
        region: region.to_string(),
        platform: "pc".to_string(),
        gamemode: "quickplay".to_string(),
        map: "numbani".to_string(),
        map_type: MapType::Hybrid,
        tier: "platinum".to_string(),
        timestamp: Some(ts),
    }
}

#[test]
fn region_filter_with_descending_win_rate_sort() {
    let mut store = StatStore::new();
    store.upsert(&candidate("ana", "NA", Some(510_000), 1), 100);
    store.upsert(&candidate("mercy", "EU", Some(990_000), 2), 100);
    store.upsert(&candidate("genji", "NA", Some(470_000), 3), 100);
    store.upsert(&candidate("lucio", "NA", Some(620_000), 4), 100);

    let mut p = HeroQueryParams::none();
    p.region = Some("NA".to_string());
    p.order_by = Some(OrderBy::WinRate);
    p.order = Some(Order::Desc);
    let rows = store.run_query(&p);

    assert_eq!(rows.len(), 3, "only NA records are returned");
    for row in &rows {
        assert_eq!(row.region, "NA");
    }
    assert_eq!(rows[0].hero_id, "lucio");
    assert_eq!(rows[1].hero_id, "ana");
    assert_eq!(rows[2].hero_id, "genji");
}

#[test]
fn time_window_includes_start_and_excludes_end() {
    let mut store = StatStore::new();
    store.upsert(&candidate("ana", "NA", Some(1), 100), 100);
    store.upsert(&candidate("mercy", "NA", Some(2), 150), 150);
    store.upsert(&candidate("genji", "NA", Some(3), 200), 200);

    let mut p = HeroQueryParams::none();
    p.start_time = Some(100);
    p.end_time = Some(200);
    let rows = store.run_query(&p);

    assert_eq!(rows.len(), 2);
    assert_eq!(rows[0].inserted_at, 100, "a record exactly at start_time is included");
    assert_eq!(rows[1].inserted_at, 150);
    assert!(
        rows.iter().all(|r| r.inserted_at != 200),
        "a record exactly at end_time is excluded"
    );
}

#[test]
fn empty_filter_lists_everything() {
    let mut store = StatStore::new();
    store.upsert(&candidate("ana", "NA", None, 1), 9);
    store.upsert(&candidate("mercy", "EU", None, 2), 9);
    let rows = store.run_query(&HeroQueryParams::none());
    assert_eq!(rows.len(), 2);
}

#[test]
fn absent_rates_sort_after_present_values_ascending() {
    let mut store = StatStore::new();
    store.upsert(&candidate("ana", "NA", None, 1), 9);
    store.upsert(&candidate("mercy", "NA", Some(300_000), 2), 9);
    let mut p = HeroQueryParams::none();
    p.order_by = Some(OrderBy::WinRate);
    let rows = store.run_query(&p);
    assert_eq!(rows[0].hero_id, "mercy");
    assert_eq!(rows[1].hero_id, "ana");
}

#[test]
fn get_by_id_finds_a_row_or_reports_not_found() {
    let mut store = StatStore::new();
    store.upsert(&candidate("ana", "NA", Some(1), 1), 9);
    let row = store.get_by_id(1).expect("id 1 exists");
    assert_eq!(row.hero_id, "ana");
    match store.get_by_id(77) {
        Err(AppError::NotFound { resource }) => assert_eq!(resource, "Hero"),
        _ => panic!("a missing id must be a not-found error"),
    }
}

#[test]
fn delete_by_id_removes_the_row_once() {
    let mut store = StatStore::new();
    store.upsert(&candidate("ana", "NA", Some(1), 1), 9);
    store.upsert(&candidate("mercy", "NA", Some(2), 2), 9);
    assert!(store.delete_by_id(1).is_ok());
    assert_eq!(store.rows.len(), 1);
    assert_eq!(store.rows[0].hero_id, "mercy");
    match store.delete_by_id(1) {
        Err(AppError::NotFound { resource }) => assert_eq!(resource, "Hero"),
        _ => panic!("deleting a deleted id must be a not-found error"),
    }
}

#[test]
fn insert_new_rejects_duplicates_and_invalid_rows() {
    let mut store = StatStore::new();
    let c = candidate("ana", "NA", Some(1), 5);
    let row = store.insert_new(&c, 5).expect("fresh row");
    assert_eq!(row.id, 1);
    assert_eq!(row.inserted_at, 5);
    match store.insert_new(&c, 5) {
        Err(AppError::Database { .. }) => {}
        _ => panic!("a natural-key conflict on plain insert is a store error"),
    }
    let bad = candidate("", "NA", Some(1), 6);
    match store.insert_new(&bad, 6) {
        Err(AppError::Database { .. }) => {}
        _ => panic!("an invalid row on plain insert is a store error"),
    }
    assert_eq!(store.rows.len(), 1);
}

#[test]
fn upsert_assigns_sequential_ids_to_distinct_keys() {
    let mut store = StatStore::new();
    store.upsert(&candidate("ana", "NA", Some(1), 1), 9);
    store.upsert(&candidate("ana", "EU", Some(1), 1), 9);
    assert_eq!(store.rows.len(), 2, "a different region is a different natural key");
    assert_eq!(store.rows[0].id, 1);
    assert_eq!(store.rows[1].id, 2);
    assert_eq!(store.next_id, 3);
}
