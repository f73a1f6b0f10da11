use ow2stats::query::{build_query, HeroQueryParams, Order, OrderBy, QueryParam};

fn text_param(p: &QueryParam) -> &str {
    match p {
        QueryParam::Text(s) => s.as_str(),
        QueryParam::Time(_) => panic!("expected a text parameter"),
    }
}

fn time_param(p: &QueryParam) -> i64 {
    match p {
        QueryParam::Time(t) => *t,
        QueryParam::Text(_) => panic!("expected a time parameter"),
    }
}

#[test]
fn no_filters_builds_bare_select() {
    let (text, params) = build_query(&HeroQueryParams::none());
    assert_eq!(text, "SELECT * FROM hero_stats");
    assert!(!text.contains("WHERE"));
    assert_eq!(params.len(), 0);
}

#[test]
fn single_filter_binds_one_parameter() {
    let mut p = HeroQueryParams::none();
    p.hero_id = Some("ana".to_string());
    let (text, params) = build_query(&p);
    assert_eq!(text, "SELECT * FROM hero_stats WHERE hero_id = $1");
    assert_eq!(params.len(), 1);
    assert_eq!(text_param(&params[0]), "ana");
}

#[test]
fn two_filters_join_with_and() {
    let mut p = HeroQueryParams::none();
    p.region = Some("NA".to_string());
    p.tier = Some("grandmaster".to_string());
    let (text, params) = build_query(&p);
    assert_eq!(
        text,
        "SELECT * FROM hero_stats WHERE region = $1 AND tier = $2"
    );
    assert_eq!(params.len(), 2);
    assert_eq!(text_param(&params[0]), "NA");
    assert_eq!(text_param(&params[1]), "grandmaster");
}

#[test]
fn time_bounds_form_half_open_interval() {
    let mut p = HeroQueryParams::none();
    p.start_time = Some(1_000);
    p.end_time = Some(2_000);
    let (text, params) = build_query(&p);
    assert_eq!(
        text,
        "SELECT * FROM hero_stats WHERE inserted_at >= $1 AND inserted_at < $2"
    );
    assert_eq!(time_param(&params[0]), 1_000);
    assert_eq!(time_param(&params[1]), 2_000);
}

#[test]
fn all_filters_bind_eight_parameters_in_fixed_order() {
    let p = HeroQueryParams {
        hero_id: Some("ana".to_string()),
        region: Some("NA".to_string()),
        platform: Some("pc".to_string()),
        gamemode: Some("competitive".to_string()),
        map: Some("ilios".to_string()),
        tier: Some("gold".to_string()),
        start_time: Some(5),
        end_time: Some(9),
        order_by: None,
        order: None,
    };
    let (text, params) = build_query(&p);
    assert_eq!(
        text,
        "SELECT * FROM hero_stats WHERE hero_id = $1 AND region = $2 \
         AND platform = $3 AND gamemode = $4 AND map = $5 AND tier = $6 \
         AND inserted_at >= $7 AND inserted_at < $8"
    );
    assert_eq!(params.len(), 8);
    assert_eq!(text_param(&params[0]), "ana");
    assert_eq!(text_param(&params[5]), "gold");
    assert_eq!(time_param(&params[6]), 5);
    assert_eq!(time_param(&params[7]), 9);
}

#[test]
fn sort_key_appends_order_by_with_direction() {
    let mut p = HeroQueryParams::none();
    p.order_by = Some(OrderBy::WinRate);
    p.order = Some(Order::Desc);
    let (text, params) = build_query(&p);
    assert_eq!(text, "SELECT * FROM hero_stats ORDER BY win_rate DESC");
    assert_eq!(params.len(), 0);
}

#[test]
fn sort_direction_defaults_to_ascending() {
    let mut p = HeroQueryParams::none();
    p.order_by = Some(OrderBy::PickRate);
    let (text, _) = build_query(&p);
    assert_eq!(text, "SELECT * FROM hero_stats ORDER BY pick_rate ASC");
}

#[test]
fn filter_and_sort_combine() {
    let mut p = HeroQueryParams::none();
    p.region = Some("EU".to_string());
    p.order_by = Some(OrderBy::InsertedAt);
    p.order = Some(Order::Asc);
    let (text, params) = build_query(&p);
    assert_eq!(
        text,
        "SELECT * FROM hero_stats WHERE region = $1 ORDER BY inserted_at ASC"
    );
    assert_eq!(params.len(), 1);
}

#[test]
fn same_present_filters_give_identical_predicate_order() {
    let mut a = HeroQueryParams::none();
    a.region = Some("NA".to_string());
    a.map = Some("ilios".to_string());
    let mut b = HeroQueryParams::none();
    b.region = Some("EU".to_string());
    b.map = Some("busan".to_string());
    let (text_a, _) = build_query(&a);
    let (text_b, _) = build_query(&b);
    assert_eq!(text_a, "SELECT * FROM hero_stats WHERE region = $1 AND map = $2");
    assert_eq!(text_a, text_b);
}

#[test]
fn repeated_calls_are_deterministic() {
    let mut p = HeroQueryParams::none();
    p.hero_id = Some("mercy".to_string());
    p.start_time = Some(42);
    let (text1, params1) = build_query(&p);
    let (text2, params2) = build_query(&p);
    assert_eq!(text1, text2);
    assert_eq!(params1.len(), params2.len());
    assert_eq!(text_param(&params1[0]), text_param(&params2[0]));
    assert_eq!(time_param(&params1[1]), time_param(&params2[1]));
}

#[test]
fn column_names_and_keywords() {
    assert_eq!(OrderBy::PickRate.column_name(), "pick_rate");
    assert_eq!(OrderBy::WinRate.column_name(), "win_rate");
    assert_eq!(OrderBy::InsertedAt.column_name(), "inserted_at");
    assert_eq!(Order::Asc.keyword(), "ASC");
    assert_eq!(Order::Desc.keyword(), "DESC");
}
