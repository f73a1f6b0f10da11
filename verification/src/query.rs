//! The query builder: a pure translation of a set of optional filters into a
//! parameterized SELECT statement.
//!
//! Every filter value is bound as a numbered parameter, never spliced into
//! the statement text, and the predicate order is the fixed field
//! enumeration (hero_id, region, platform, gamemode, map, tier, start_time,
//! end_time), so the generated text is deterministic and injection-free.

use vstd::prelude::*;

verus! {

use vstd::string::StringExecFns;

/// Sort keys a caller may ask for.
#[derive(Clone, Copy, PartialEq, Eq, Structural, Debug)]
pub enum OrderBy {
    PickRate,
    WinRate,
    InsertedAt,
}

/// Sort direction; ascending is the default when only a sort key is given.
#[derive(Clone, Copy, PartialEq, Eq, Structural, Debug)]
pub enum Order {
    Asc,
    Desc,
}

/// A value bound as a query parameter: a categorical tag or a timestamp.
pub enum QueryParam {
    Text(String),
    Time(i64),
}

impl Clone for QueryParam {
    fn clone(&self) -> (res: Self)
        ensures
            res == *self,
    {
        match self {
            QueryParam::Text(s) => QueryParam::Text(s.clone()),
            QueryParam::Time(t) => QueryParam::Time(*t),
        }
    }
}

/// Comparison operator of one predicate. Equality for the categorical
/// filters; `>=` and `<` bound the half-open time window.
#[derive(Clone, Copy, PartialEq, Eq, Structural, Debug)]
pub enum CmpOp {
    Equal,
    AtLeast,
    Below,
}

/// One predicate of the WHERE clause: column, operator, bound value.
pub struct Predicate {
    pub column: String,
    pub op: CmpOp,
    pub value: QueryParam,
}

/// Specification-level image of a [`Predicate`].
pub struct PredicateModel {
    pub column: Seq<char>,
    pub op: CmpOp,
    pub value: QueryParam,
}

impl View for Predicate {
    type V = PredicateModel;

    open spec fn view(&self) -> PredicateModel {
        PredicateModel { column: self.column@, op: self.op, value: self.value }
    }
}

/// The set of optional filters and the optional sort directive of one read
/// request. All fields absent means "list everything", which is valid.
pub struct HeroQueryParams {
    pub hero_id: Option<String>,
    pub region: Option<String>,
    pub platform: Option<String>,
    pub gamemode: Option<String>,
    pub map: Option<String>,
    pub tier: Option<String>,
    /// Lower bound on `inserted_at`, inclusive (microseconds since epoch).
    pub start_time: Option<i64>,
    /// Upper bound on `inserted_at`, exclusive (microseconds since epoch).
    pub end_time: Option<i64>,
    pub order_by: Option<OrderBy>,
    pub order: Option<Order>,
}

impl HeroQueryParams {
    /// The request that filters and sorts on nothing.
    pub fn none() -> (r: HeroQueryParams)
        ensures
            r.hero_id is None,
            r.region is None,
            r.platform is None,
            r.gamemode is None,
            r.map is None,
            r.tier is None,
            r.start_time is None,
            r.end_time is None,
            r.order_by is None,
            r.order is None,
    {
        HeroQueryParams {
            hero_id: None,
            region: None,
            platform: None,
            gamemode: None,
            map: None,
            tier: None,
            start_time: None,
            end_time: None,
            order_by: None,
            order: None,
        }
    }
}

/// The predicate a present text filter contributes; nothing when absent.
pub open spec fn opt_text_pred(v: Option<String>, column: Seq<char>) -> Seq<PredicateModel> {
    match v {
        Some(s) => seq![
            (PredicateModel { column: column, op: CmpOp::Equal, value: QueryParam::Text(s) }),
        ],
        None => seq![],
    }
}

/// The predicate a present time bound contributes; nothing when absent.
pub open spec fn opt_time_pred(v: Option<i64>, column: Seq<char>, op: CmpOp) -> Seq<
    PredicateModel,
> {
    match v {
        Some(t) => seq![
            (PredicateModel { column: column, op: op, value: QueryParam::Time(t) }),
        ],
        None => seq![],
    }
}

/// The predicates contributed by the first `k` fields of the fixed field
/// enumeration.
pub open spec fn predicates_upto(p: HeroQueryParams, k: int) -> Seq<PredicateModel>
    decreases k,
{
    if k <= 0 {
        seq![]
    } else if k == 1 {
        opt_text_pred(p.hero_id, "hero_id"@)
    } else if k == 2 {
        predicates_upto(p, 1) + opt_text_pred(p.region, "region"@)
    } else if k == 3 {
        predicates_upto(p, 2) + opt_text_pred(p.platform, "platform"@)
    } else if k == 4 {
        predicates_upto(p, 3) + opt_text_pred(p.gamemode, "gamemode"@)
    } else if k == 5 {
        predicates_upto(p, 4) + opt_text_pred(p.map, "map"@)
    } else if k == 6 {
        predicates_upto(p, 5) + opt_text_pred(p.tier, "tier"@)
    } else if k == 7 {
        predicates_upto(p, 6) + opt_time_pred(p.start_time, "inserted_at"@, CmpOp::AtLeast)
    } else {
        predicates_upto(p, 7) + opt_time_pred(p.end_time, "inserted_at"@, CmpOp::Below)
    }
}

/// The full predicate list of a request, in the fixed field enumeration
/// order.
pub open spec fn predicates_of(p: HeroQueryParams) -> Seq<PredicateModel> {
    predicates_upto(p, 8)
}

/// The ordered parameter list the built query binds.
pub open spec fn param_list(p: HeroQueryParams) -> Seq<QueryParam> {
    predicates_of(p).map_values(|pr: PredicateModel| pr.value)
}

/// How many filters are present in a request.
pub open spec fn filter_count(p: HeroQueryParams) -> int {
    (if p.hero_id is Some { 1int } else { 0 })
    + (if p.region is Some { 1int } else { 0 })
    + (if p.platform is Some { 1int } else { 0 })
    + (if p.gamemode is Some { 1int } else { 0 })
    + (if p.map is Some { 1int } else { 0 })
    + (if p.tier is Some { 1int } else { 0 })
    + (if p.start_time is Some { 1int } else { 0 })
    + (if p.end_time is Some { 1int } else { 0 })
}

/// Which filters are present, as one value: the shape a request's predicate
/// list depends on, and nothing else.
pub open spec fn presence(p: HeroQueryParams) -> (
    bool, bool, bool, bool, bool, bool, bool, bool,
) {
    (
        p.hero_id is Some,
        p.region is Some,
        p.platform is Some,
        p.gamemode is Some,
        p.map is Some,
        p.tier is Some,
        p.start_time is Some,
        p.end_time is Some,
    )
}

/// Collect the predicates of a request, in the fixed field order.
#[verifier::rlimit(100)]
pub fn collect_predicates(p: &HeroQueryParams) -> (r: Vec<Predicate>)
    ensures
        r@.len() == predicates_of(*p).len(),
        forall|j: int| 0 <= j < r@.len() ==> (#[trigger] r@[j])@ == predicates_of(*p)[j],
{
    let ghost f = |q: Predicate| q@;
    let mut r: Vec<Predicate> = Vec::new();
    assert(r@.map_values(f) =~= predicates_upto(*p, 0));
    if let Some(v) = &p.hero_id {
        r.push(Predicate {
            column: String::from_str("hero_id"),
            op: CmpOp::Equal,
            value: QueryParam::Text(v.clone()),
        });
    }
    assert(r@.map_values(f) =~= predicates_upto(*p, 1));
    if let Some(v) = &p.region {
        r.push(Predicate {
            column: String::from_str("region"),
            op: CmpOp::Equal,
            value: QueryParam::Text(v.clone()),
        });
    }
    assert(r@.map_values(f) =~= predicates_upto(*p, 2));
    if let Some(v) = &p.platform {
        r.push(Predicate {
            column: String::from_str("platform"),
            op: CmpOp::Equal,
            value: QueryParam::Text(v.clone()),
        });
    }
    assert(r@.map_values(f) =~= predicates_upto(*p, 3));
    if let Some(v) = &p.gamemode {
        r.push(Predicate {
            column: String::from_str("gamemode"),
            op: CmpOp::Equal,
            value: QueryParam::Text(v.clone()),
        });
    }
    assert(r@.map_values(f) =~= predicates_upto(*p, 4));
    if let Some(v) = &p.map {
        r.push(Predicate {
            column: String::from_str("map"),
            op: CmpOp::Equal,
            value: QueryParam::Text(v.clone()),
        });
    }
    assert(r@.map_values(f) =~= predicates_upto(*p, 5));
    if let Some(v) = &p.tier {
        r.push(Predicate {
            column: String::from_str("tier"),
            op: CmpOp::Equal,
            value: QueryParam::Text(v.clone()),
        });
    }
    assert(r@.map_values(f) =~= predicates_upto(*p, 6));
    if let Some(v) = &p.start_time {
        r.push(Predicate {
            column: String::from_str("inserted_at"),
            op: CmpOp::AtLeast,
            value: QueryParam::Time(*v),
        });
    }
    assert(r@.map_values(f) =~= predicates_upto(*p, 7));
    if let Some(v) = &p.end_time {
        r.push(Predicate {
            column: String::from_str("inserted_at"),
            op: CmpOp::Below,
            value: QueryParam::Time(*v),
        });
    }
    assert(r@.map_values(f) =~= predicates_upto(*p, 8));
    assert forall|j: int| 0 <= j < r@.len() implies (#[trigger] r@[j])@ == predicates_of(*p)[j] by {
        assert(predicates_of(*p)[j] == r@.map_values(f)[j]);
    }
    r
}

/// The statement text every query starts from.
pub open spec fn select_base() -> Seq<char> {
    "SELECT * FROM hero_stats"@
}

/// Text of one predicate's comparison operator.
pub open spec fn op_text(op: CmpOp) -> Seq<char> {
    match op {
        CmpOp::Equal => " = "@,
        CmpOp::AtLeast => " >= "@,
        CmpOp::Below => " < "@,
    }
}

/// Text of the `n`-th bind placeholder; at most eight filters exist.
pub open spec fn placeholder_text(n: int) -> Seq<char> {
    if n == 1 {
        "$1"@
    } else if n == 2 {
        "$2"@
    } else if n == 3 {
        "$3"@
    } else if n == 4 {
        "$4"@
    } else if n == 5 {
        "$5"@
    } else if n == 6 {
        "$6"@
    } else if n == 7 {
        "$7"@
    } else {
        "$8"@
    }
}

/// The connective put before the predicate at position `i`: the clause
/// opener for the first, a conjunction for every later one.
pub open spec fn separator_text(i: int) -> Seq<char> {
    if i == 0 {
        " WHERE "@
    } else {
        " AND "@
    }
}

/// Full text of the predicate at position `i`, its bind placeholder
/// numbered `i + 1`.
pub open spec fn fragment_text(pr: PredicateModel, i: int) -> Seq<char> {
    separator_text(i) + pr.column + op_text(pr.op) + placeholder_text(i + 1)
}

/// Text of the first `k` predicates.
pub open spec fn where_text_upto(preds: Seq<PredicateModel>, k: int) -> Seq<char>
    decreases k,
{
    if k <= 0 {
        Seq::empty()
    } else {
        where_text_upto(preds, k - 1) + fragment_text(preds[k - 1], k - 1)
    }
}

/// Text of the whole WHERE clause; empty when no filter is present.
pub open spec fn where_text(preds: Seq<PredicateModel>) -> Seq<char> {
    where_text_upto(preds, preds.len() as int)
}

/// Column name a sort key maps to.
pub open spec fn order_column_text(k: OrderBy) -> Seq<char> {
    match k {
        OrderBy::PickRate => "pick_rate"@,
        OrderBy::WinRate => "win_rate"@,
        OrderBy::InsertedAt => "inserted_at"@,
    }
}

/// Keyword a sort direction maps to.
pub open spec fn order_dir_text(d: Order) -> Seq<char> {
    match d {
        Order::Asc => "ASC"@,
        Order::Desc => "DESC"@,
    }
}

/// The direction a request sorts in: the requested one, ascending when a
/// sort key is given without a direction.
pub open spec fn effective_order(p: HeroQueryParams) -> Order {
    match p.order {
        Some(d) => d,
        None => Order::Asc,
    }
}

/// Text of the ORDER BY clause; empty when no sort key is present.
pub open spec fn order_text(p: HeroQueryParams) -> Seq<char> {
    match p.order_by {
        Some(k) => " ORDER BY "@ + order_column_text(k) + " "@ + order_dir_text(
            effective_order(p),
        ),
        None => Seq::empty(),
    }
}

/// Full text of the query built for a request.
pub open spec fn query_text(p: HeroQueryParams) -> Seq<char> {
    select_base() + where_text(predicates_of(p)) + order_text(p)
}

impl OrderBy {
    /// The column this sort key orders on.
    pub fn column_name(&self) -> (r: String)
        ensures
            r@ == order_column_text(*self),
    {
        match self {
            OrderBy::PickRate => String::from_str("pick_rate"),
            OrderBy::WinRate => String::from_str("win_rate"),
            OrderBy::InsertedAt => String::from_str("inserted_at"),
        }
    }
}

impl Order {
    /// The direction keyword of the ORDER BY clause.
    pub fn keyword(&self) -> (r: String)
        ensures
            r@ == order_dir_text(*self),
    {
        match self {
            Order::Asc => String::from_str("ASC"),
            Order::Desc => String::from_str("DESC"),
        }
    }
}

/// Append the `n`-th bind placeholder to the statement text.
fn push_placeholder(text: &mut String, n: usize)
    requires
        1 <= n <= 8,
    ensures
        final(text)@ == old(text)@ + placeholder_text(n as int),
{
    if n == 1 {
        text.append("$1");
    } else if n == 2 {
        text.append("$2");
    } else if n == 3 {
        text.append("$3");
    } else if n == 4 {
        text.append("$4");
    } else if n == 5 {
        text.append("$5");
    } else if n == 6 {
        text.append("$6");
    } else if n == 7 {
        text.append("$7");
    } else {
        text.append("$8");
    }
}

/// Build the parameterized read query for a request: the statement text and
/// the ordered list of values to bind, one per present filter, in the fixed
/// field enumeration order. Pure: no store access, no side effect.
pub fn build_query(p: &HeroQueryParams) -> (r: (String, Vec<QueryParam>))
    ensures
        r.0@ == query_text(*p),
        r.1@ == param_list(*p),
{
    let preds = collect_predicates(p);
    let ghost pm = predicates_of(*p);
    assert(pm.len() <= 8) by {
        reveal_with_fuel(predicates_upto, 9);
    }
    let mut text = String::from_str("SELECT * FROM hero_stats");
    let mut params: Vec<QueryParam> = Vec::new();
    let mut i: usize = 0;
    assert(params@ =~= pm.take(0).map_values(|pr: PredicateModel| pr.value));
    while i < preds.len()
        invariant
            preds@.len() == pm.len() <= 8,
            forall|j: int| 0 <= j < preds@.len() ==> (#[trigger] preds@[j])@ == pm[j],
            i <= preds.len(),
            text@ == select_base() + where_text_upto(pm, i as int),
            params@ == pm.take(i as int).map_values(|pr: PredicateModel| pr.value),
        decreases preds.len() - i,
    {
        assert(preds@[i as int]@ == pm[i as int]);
        if i == 0 {
            text.append(" WHERE ");
        } else {
            text.append(" AND ");
        }
        text.append(preds[i].column.as_str());
        match preds[i].op {
            CmpOp::Equal => text.append(" = "),
            CmpOp::AtLeast => text.append(" >= "),
            CmpOp::Below => text.append(" < "),
        }
        push_placeholder(&mut text, i + 1);
        assert(text@ =~= select_base() + where_text_upto(pm, i as int + 1));
        let value = preds[i].value.clone();
        params.push(value);
        assert(params@ =~= pm.take(i as int + 1).map_values(|pr: PredicateModel| pr.value));
        i = i + 1;
    }
    assert(pm.take(pm.len() as int) =~= pm);
    if let Some(k) = &p.order_by {
        text.append(" ORDER BY ");
        let col = k.column_name();
        text.append(col.as_str());
        text.append(" ");
        let dir = match &p.order {
            Some(d) => *d,
            None => Order::Asc,
        };
        let kw = dir.keyword();
        text.append(kw.as_str());
        assert(text@ =~= query_text(*p));
    } else {
        assert(text@ =~= query_text(*p));
    }
    (text, params)
}

/// A query binds exactly one predicate and one parameter per present
/// filter.
pub proof fn lemma_predicate_count(p: HeroQueryParams)
    ensures
        predicates_of(p).len() == filter_count(p),
        param_list(p).len() == filter_count(p),
{
    reveal_with_fuel(predicates_upto, 9);
}

/// A request with no filters builds a predicate-free query: no WHERE
/// fragment at all, no bound parameter; the text is the bare SELECT followed
/// only by the ORDER BY clause, if any.
pub proof fn lemma_no_filters_no_where(p: HeroQueryParams)
    requires
        filter_count(p) == 0,
    ensures
        predicates_of(p).len() == 0,
        param_list(p).len() == 0,
        where_text(predicates_of(p)) == Seq::<char>::empty(),
        query_text(p) == select_base() + order_text(p),
{
    reveal_with_fuel(predicates_upto, 9);
    assert(predicates_of(p) =~= Seq::<PredicateModel>::empty());
    assert(select_base() + Seq::<char>::empty() + order_text(p) =~= select_base() + order_text(
        p,
    ));
}

/// A request with exactly one filter builds exactly one predicate and binds
/// exactly one parameter: that filter's value, under that filter's column
/// and operator.
pub proof fn lemma_one_filter_one_predicate(p: HeroQueryParams)
    requires
        filter_count(p) == 1,
    ensures
        predicates_of(p).len() == 1,
        param_list(p).len() == 1,
        param_list(p)[0] == predicates_of(p)[0].value,
        p.hero_id matches Some(v) ==> predicates_of(p)[0] == (PredicateModel {
            column: "hero_id"@,
            op: CmpOp::Equal,
            value: QueryParam::Text(v),
        }),
        p.region matches Some(v) ==> predicates_of(p)[0] == (PredicateModel {
            column: "region"@,
            op: CmpOp::Equal,
            value: QueryParam::Text(v),
        }),
        p.platform matches Some(v) ==> predicates_of(p)[0] == (PredicateModel {
            column: "platform"@,
            op: CmpOp::Equal,
            value: QueryParam::Text(v),
        }),
        p.gamemode matches Some(v) ==> predicates_of(p)[0] == (PredicateModel {
            column: "gamemode"@,
            op: CmpOp::Equal,
            value: QueryParam::Text(v),
        }),
        p.map matches Some(v) ==> predicates_of(p)[0] == (PredicateModel {
            column: "map"@,
            op: CmpOp::Equal,
            value: QueryParam::Text(v),
        }),
        p.tier matches Some(v) ==> predicates_of(p)[0] == (PredicateModel {
            column: "tier"@,
            op: CmpOp::Equal,
            value: QueryParam::Text(v),
        }),
        p.start_time matches Some(t) ==> predicates_of(p)[0] == (PredicateModel {
            column: "inserted_at"@,
            op: CmpOp::AtLeast,
            value: QueryParam::Time(t),
        }),
        p.end_time matches Some(t) ==> predicates_of(p)[0] == (PredicateModel {
            column: "inserted_at"@,
            op: CmpOp::Below,
            value: QueryParam::Time(t),
        }),
{
    reveal_with_fuel(predicates_upto, 9);
}

/// Helper for [`lemma_predicate_order_deterministic`]: over the first `k`
/// fields of the enumeration, two requests with the same filters present
/// produce predicate lists of the same length with the same column and
/// operator at every position.
#[verifier::rlimit(100)]
proof fn lemma_shape_upto(p1: HeroQueryParams, p2: HeroQueryParams, k: int)
    requires
        presence(p1) == presence(p2),
        0 <= k <= 8,
    ensures
        predicates_upto(p1, k).len() == predicates_upto(p2, k).len(),
        forall|j: int| 0 <= j < predicates_upto(p1, k).len() ==> (#[trigger] predicates_upto(
            p1,
            k,
        )[j]).column == predicates_upto(p2, k)[j].column && predicates_upto(p1, k)[j].op
            == predicates_upto(p2, k)[j].op,
    decreases k,
{
    if k > 0 {
        lemma_shape_upto(p1, p2, k - 1);
        let a1 = predicates_upto(p1, k - 1);
        let a2 = predicates_upto(p2, k - 1);
        let s1 = predicates_upto(p1, k);
        let s2 = predicates_upto(p2, k);
        assert(s1.len() == s2.len() && forall|j: int|
            0 <= j < s1.len() ==> (#[trigger] s1[j]).column == s2[j].column && s1[j].op
                == s2[j].op) by {
            assert(a1.len() == a2.len());
            assert(s1.len() == s2.len());
            assert forall|j: int| 0 <= j < s1.len() implies (#[trigger] s1[j]).column
                == s2[j].column && s1[j].op == s2[j].op by {
                if j < a1.len() {
                    assert(s1[j] == a1[j]);
                    assert(s2[j] == a2[j]);
                } else {
                    assert(j == a1.len());
                    assert(s1[j].column == s2[j].column && s1[j].op == s2[j].op);
                }
            }
        }
    }
}

/// Helper for [`lemma_predicate_order_deterministic`]: predicate lists of
/// the same length with the same column and operator at every position fold
/// into the same WHERE text.
proof fn lemma_where_text_same_shape(s1: Seq<PredicateModel>, s2: Seq<PredicateModel>, k: int)
    requires
        s1.len() == s2.len(),
        forall|j: int| 0 <= j < s1.len() ==> (#[trigger] s1[j]).column == s2[j].column && s1[j].op
            == s2[j].op,
        0 <= k <= s1.len(),
    ensures
        where_text_upto(s1, k) == where_text_upto(s2, k),
    decreases k,
{
    if k > 0 {
        lemma_where_text_same_shape(s1, s2, k - 1);
        assert(fragment_text(s1[k - 1], k - 1) == fragment_text(s2[k - 1], k - 1));
    }
}

/// Predicate ordering is deterministic: two requests with the same set of
/// filters present build predicate lists with identical column and operator
/// sequences — and so an identical WHERE clause — whatever the filter
/// values are.
pub proof fn lemma_predicate_order_deterministic(p1: HeroQueryParams, p2: HeroQueryParams)
    requires
        presence(p1) == presence(p2),
    ensures
        predicates_of(p1).len() == predicates_of(p2).len(),
        forall|j: int| 0 <= j < predicates_of(p1).len() ==> (#[trigger] predicates_of(
            p1,
        )[j]).column == predicates_of(p2)[j].column && predicates_of(p1)[j].op == predicates_of(
            p2,
        )[j].op,
        where_text(predicates_of(p1)) == where_text(predicates_of(p2)),
{
    lemma_shape_upto(p1, p2, 8);
    lemma_where_text_same_shape(
        predicates_of(p1),
        predicates_of(p2),
        predicates_of(p1).len() as int,
    );
}

} // verus!
