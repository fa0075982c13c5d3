use vstd::prelude::*;
use crate::decimal::{decimal_of_text, decimal_text, Decimal};
use crate::models::{SaqWine, WineRecommendation};
use crate::text::{ilike, like, lower_of, push_char};
use crate::utils::{dedup, dedup_wines, lemma_dedup_one_row_per_wine};
use crate::types::WineColorEnum;

verus! {

/// Whether a catalog text matches a recommendation's field: an empty field
/// matches anything, any other is a pattern compared regardless of case.
pub open spec fn field_matches(text: Seq<char>, field: Seq<char>) -> bool {
    field.len() == 0 || like(lower_of(text), lower_of(field))
}

/// Like `field_matches`, the field being taken as a prefix of the text.
pub open spec fn prefix_matches(text: Seq<char>, field: Seq<char>) -> bool {
    field.len() == 0 || like(lower_of(text), lower_of(field.push('%')))
}

/// Whether a recommended grape variety matches, as a text, one of the
/// catalog's varieties taken as patterns; an empty variety matches any wine.
pub open spec fn grape_matches(varieties: Seq<String>, grape: Seq<char>) -> bool {
    grape.len() == 0 || exists|k: int|
        0 <= k < varieties.len() && like(lower_of(grape), lower_of(#[trigger] varieties[k]@))
}

/// Whether a catalog wine answers a recommendation.
pub open spec fn answers(c: SaqWine, r: WineRecommendation) -> bool {
    &&& field_matches(c.country@, r.country@)
    &&& field_matches(c.region@, r.region@)
    &&& prefix_matches(c.designation_of_origin@, r.designation_of_origin@)
    &&& prefix_matches(c.name@, r.name@)
    &&& field_matches(c.producer@, r.producer@)
    &&& grape_matches(c.grape_varieties@, r.grape_variety@)
    &&& c.color == r.color
}

fn field_ok(text: &String, field: &String) -> (r: bool)
    ensures
        r == field_matches(text@, field@),
{
    if field.as_str().unicode_len() == 0 {
        return true;
    }
    ilike(text.as_str(), field.as_str())
}

fn prefix_ok(text: &String, field: &String) -> (r: bool)
    ensures
        r == prefix_matches(text@, field@),
{
    if field.as_str().unicode_len() == 0 {
        return true;
    }
    let mut pattern = field.clone();
    push_char(&mut pattern, '%');
    ilike(text.as_str(), pattern.as_str())
}

fn grape_ok(varieties: &Vec<String>, grape: &String) -> (r: bool)
    ensures
        r == grape_matches(varieties@, grape@),
{
    if grape.as_str().unicode_len() == 0 {
        return true;
    }
    let mut k: usize = 0;
    while k < varieties.len()
        invariant
            k <= varieties@.len(),
            grape@.len() > 0,
            forall|j: int| 0 <= j < k ==> !like(lower_of(grape@), lower_of(#[trigger] varieties@[j]@)),
        decreases varieties.len() - k,
    {
        if ilike(grape.as_str(), varieties[k].as_str()) {
            return true;
        }
        k = k + 1;
    }
    false
}

/// Whether a catalog wine answers a recommendation: every non-empty field of
/// the recommendation matches, regardless of case (designation and name as
/// prefixes, the grape variety against any of the wine's), and the colours
/// are equal.
pub fn reco_matches(c: &SaqWine, r: &WineRecommendation) -> (b: bool)
    ensures
        b == answers(*c, *r),
{
    field_ok(&c.country, &r.country) && field_ok(&c.region, &r.region) && prefix_ok(
        &c.designation_of_origin,
        &r.designation_of_origin,
    ) && prefix_ok(&c.name, &r.name) && field_ok(&c.producer, &r.producer) && grape_ok(
        &c.grape_varieties,
        &r.grape_variety,
    ) && c.color == r.color
}

/// A recommendation whose text fields are all empty matches exactly the
/// catalog wines of its colour.
pub proof fn lemma_empty_recommendation_matches_color(c: SaqWine, r: WineRecommendation)
    requires
        r.country@.len() == 0,
        r.region@.len() == 0,
        r.designation_of_origin@.len() == 0,
        r.name@.len() == 0,
        r.producer@.len() == 0,
        r.grape_variety@.len() == 0,
    ensures
        answers(c, r) == (c.color == r.color),
{
}


/// One wine of a query's result, with the rating of the recommendation that
/// selected it.
pub struct WineRow {
    pub id: i32,
    pub name: String,
    pub available_online: bool,
    pub country: String,
    pub region: String,
    pub designation_of_origin: String,
    pub producer: String,
    pub color: WineColorEnum,
    /// In millilitres.
    pub volume: Decimal,
    pub price: Decimal,
    pub rating: i32,
}

impl WineRow {
    /// The volume as it is displayed, such as `750 ml`.
    pub fn volume_text(&self) -> (r: String)
        ensures
            r@ == decimal_text(self.volume, 0) + seq![' ', 'm', 'l'],
    {
        let mut s = self.volume.to_text(0);
        push_char(&mut s, ' ');
        push_char(&mut s, 'm');
        push_char(&mut s, 'l');
        assert(s@ =~= decimal_text(self.volume, 0) + seq![' ', 'm', 'l']);
        s
    }

    /// The price as it is displayed, with at least two decimals, such as
    /// `$12.99` or `$8.50`.
    pub fn price_text(&self) -> (r: String)
        ensures
            r@ == seq!['$'] + decimal_text(self.price, 2),
    {
        let mut s = String::new();
        push_char(&mut s, '$');
        let t = self.price.to_text(2);
        s.append(t.as_str());
        assert(s@ =~= seq!['$'] + decimal_text(self.price, 2));
        s
    }
}

/// A copy of a result row.
pub fn copy_row(w: &WineRow) -> (r: WineRow)
    ensures
        r == *w,
{
    WineRow {
        id: w.id,
        name: w.name.clone(),
        available_online: w.available_online,
        country: w.country.clone(),
        region: w.region.clone(),
        designation_of_origin: w.designation_of_origin.clone(),
        producer: w.producer.clone(),
        color: w.color,
        volume: w.volume,
        price: w.price,
        rating: w.rating,
    }
}


/// Whether the first row's wine costs strictly less per millilitre than the
/// second's: `a.price / a.volume < b.price / b.volume`, cross-multiplied, the
/// volumes being positive.
pub open spec fn cheaper(a: WineRow, b: WineRow) -> bool {
    a.price.units * b.volume.units < b.price.units * a.volume.units
}

/// A row put into a list that is ordered by unit price: after every row that
/// does not cost more per millilitre.
pub open spec fn insert_by_unit_price(s: Seq<WineRow>, x: WineRow) -> Seq<WineRow>
    decreases s.len(),
{
    if s.len() == 0 {
        seq![x]
    } else if cheaper(x, s[0]) {
        seq![x] + s
    } else {
        seq![s[0]] + insert_by_unit_price(s.drop_first(), x)
    }
}

/// The rows ordered by unit price, cheapest first; rows of equal unit price
/// keep their order.
pub open spec fn by_unit_price(s: Seq<WineRow>) -> Seq<WineRow>
    decreases s.len(),
{
    if s.len() == 0 {
        s
    } else {
        insert_by_unit_price(by_unit_price(s.drop_last()), s.last())
    }
}

proof fn lemma_insert_at(s: Seq<WineRow>, x: WineRow, k: int)
    requires
        0 <= k <= s.len(),
        forall|j: int| 0 <= j < k ==> !cheaper(x, #[trigger] s[j]),
        k < s.len() ==> cheaper(x, s[k]),
    ensures
        insert_by_unit_price(s, x) == s.take(k).push(x) + s.skip(k),
    decreases s.len(),
{
    if s.len() == 0 {
        assert(s.take(k).push(x) + s.skip(k) =~= seq![x]);
    } else if k == 0 {
        assert(s.take(0).push(x) + s.skip(0) =~= seq![x] + s);
    } else {
        assert(!cheaper(x, s[0]));
        let t = s.drop_first();
        assert forall|j: int| 0 <= j < k - 1 implies !cheaper(x, #[trigger] t[j]) by {
            assert(t[j] == s[j + 1]);
        }
        if k - 1 < t.len() {
            assert(t[k - 1] == s[k]);
        }
        lemma_insert_at(t, x, k - 1);
        assert(seq![s[0]] + (t.take(k - 1).push(x) + t.skip(k - 1)) =~= s.take(k).push(x) + s.skip(
            k,
        ));
    }
}

/// The exact product of two 64-bit integers.
fn wide_mul(a: i64, b: i64) -> (r: i128)
    ensures
        r == a * b,
{
    proof {
        assert(-0x4000_0000_0000_0000_0000_0000_0000_0000 <= (a as int) * (b as int)
            <= 0x4000_0000_0000_0000_0000_0000_0000_0000) by (nonlinear_arith)
            requires
                -0x8000_0000_0000_0000 <= a <= 0x7fff_ffff_ffff_ffff,
                -0x8000_0000_0000_0000 <= b <= 0x7fff_ffff_ffff_ffff,
        ;
    }
    (a as i128) * (b as i128)
}

/// No row is cheaper per millilitre than the row before it.
pub open spec fn ordered_by_unit_price(s: Seq<WineRow>) -> bool {
    forall|i: int| 0 < i < s.len() ==> !cheaper(#[trigger] s[i], s[i - 1])
}

proof fn lemma_insert_is_insert_at(s: Seq<WineRow>, x: WineRow)
    ensures
        exists|k: int| 0 <= k <= s.len() && insert_by_unit_price(s, x) == s.insert(k, x),
    decreases s.len(),
{
    if s.len() == 0 {
        assert(insert_by_unit_price(s, x) =~= s.insert(0, x));
    } else if cheaper(x, s[0]) {
        assert(insert_by_unit_price(s, x) =~= s.insert(0, x));
    } else {
        let t = s.drop_first();
        lemma_insert_is_insert_at(t, x);
        let k = choose|k: int| 0 <= k <= t.len() && insert_by_unit_price(t, x) == t.insert(k, x);
        assert(insert_by_unit_price(s, x) =~= s.insert(k + 1, x));
    }
}

proof fn lemma_insert_ordered(s: Seq<WineRow>, x: WineRow)
    requires
        ordered_by_unit_price(s),
    ensures
        ordered_by_unit_price(insert_by_unit_price(s, x)),
        insert_by_unit_price(s, x).len() == s.len() + 1,
        insert_by_unit_price(s, x)[0] == x || (s.len() > 0 && insert_by_unit_price(s, x)[0]
            == s[0]),
    decreases s.len(),
{
    let r = insert_by_unit_price(s, x);
    if s.len() == 0 {
    } else if cheaper(x, s[0]) {
        assert forall|i: int| 0 < i < r.len() implies !cheaper(#[trigger] r[i], r[i - 1]) by {
            if i == 1 {
                assert(r[1] == s[0]);
            } else {
                assert(r[i] == s[i - 1] && r[i - 1] == s[i - 2]);
            }
        }
    } else {
        let t = s.drop_first();
        assert forall|i: int| 0 < i < t.len() implies !cheaper(#[trigger] t[i], t[i - 1]) by {
            assert(t[i] == s[i + 1] && t[i - 1] == s[i]);
        }
        lemma_insert_ordered(t, x);
        let u = insert_by_unit_price(t, x);
        assert(r == seq![s[0]] + u);
        assert forall|i: int| 0 < i < r.len() implies !cheaper(#[trigger] r[i], r[i - 1]) by {
            if i == 1 {
                assert(r[1] == u[0]);
                if u[0] != x {
                    assert(u[0] == t[0] && t[0] == s[1]);
                }
            } else {
                assert(r[i] == u[i - 1] && r[i - 1] == u[i - 2]);
            }
        }
    }
}

/// Ordering by unit price rearranges the rows and nothing more, and leaves no
/// row cheaper per millilitre than the one before it.
pub proof fn lemma_by_unit_price_orders(s: Seq<WineRow>)
    ensures
        ordered_by_unit_price(by_unit_price(s)),
        by_unit_price(s).to_multiset() == s.to_multiset(),
    decreases s.len(),
{
    broadcast use vstd::seq_lib::to_multiset_insert, vstd::seq_lib::to_multiset_build;

    if s.len() > 0 {
        let t = s.drop_last();
        lemma_by_unit_price_orders(t);
        lemma_insert_ordered(by_unit_price(t), s.last());
        lemma_insert_is_insert_at(by_unit_price(t), s.last());
        assert(t.push(s.last()) =~= s);
    }
}

/// Whether the first row costs strictly less per millilitre.
fn is_cheaper(a: &WineRow, b: &WineRow) -> (r: bool)
    ensures
        r == cheaper(*a, *b),
{
    wide_mul(a.price.units, b.volume.units) < wide_mul(b.price.units, a.volume.units)
}

/// Orders rows by unit price (price per millilitre), cheapest first, rows of
/// equal unit price keeping their order.
pub fn sort_by_unit_price(rows: Vec<WineRow>) -> (r: Vec<WineRow>)
    ensures
        r@ == by_unit_price(rows@),
{
    let mut r: Vec<WineRow> = Vec::new();
    let mut i: usize = 0;
    assert(rows@.take(0) =~= Seq::<WineRow>::empty());
    while i < rows.len()
        invariant
            i <= rows@.len(),
            r@ == by_unit_price(rows@.take(i as int)),
        decreases rows.len() - i,
    {
        let x = copy_row(&rows[i]);
        let mut k: usize = 0;
        while k < r.len() && !is_cheaper(&x, &r[k])
            invariant
                k <= r@.len(),
                forall|j: int| 0 <= j < k ==> !cheaper(x, #[trigger] r@[j]),
            decreases r.len() - k,
        {
            k = k + 1;
        }
        proof {
            lemma_insert_at(r@, x, k as int);
            assert(rows@.take(i + 1).drop_last() =~= rows@.take(i as int));
        }
        r.insert(k, x);
        i = i + 1;
        assert(r@ =~= by_unit_price(rows@.take(i as int)));
    }
    assert(rows@.take(rows@.len() as int) =~= rows@);
    r
}

/// What a query asks of the wines and recommendations it returns; an absent
/// criterion does not filter.
pub struct WineCriteria {
    /// The lowest rating.
    pub min_rating: Option<i32>,
    /// The highest price of a 750 ml bottle, as a decimal text.
    pub max_price: Option<String>,
    pub color: Option<WineColorEnum>,
    pub available_online: Option<bool>,
}

/// Why a query cannot run.
#[derive(Debug, Clone, Copy, PartialEq, Eq, Structural)]
pub enum QueryError {
    /// The highest price is not a decimal number.
    MalformedMaxPrice,
}

/// The price ceiling that the criteria give: `Some(None)` for none, `None`
/// when the text is not a decimal number.
pub open spec fn ceiling_of(criteria: WineCriteria) -> Option<Option<Decimal>> {
    match criteria.max_price {
        None => Some(None),
        Some(t) => match decimal_of_text(t@) {
            Some(d) => Some(Some(d)),
            None => None,
        },
    }
}

/// Whether a wine's price, brought to a 750 ml bottle, is at most `max`:
/// `price / (volume / 750) <= max`, the volume being positive.
pub open spec fn bottle_price_at_most(c: SaqWine, max: Decimal) -> bool {
    c.price.units * 750 * 10000 <= max.units * c.volume.units
}

/// Whether a pair of a wine and a recommendation passes the criteria and the
/// owner restriction: with a user, only that user's recommendations count;
/// without one, all do. A wine without a positive volume is not a valid
/// catalog entry and never passes, so that prices per millilitre compare by
/// cross-multiplication.
pub open spec fn passes(
    c: SaqWine,
    r: WineRecommendation,
    criteria: WineCriteria,
    ceiling: Option<Decimal>,
    user: Option<i32>,
) -> bool {
    &&& c.volume.units > 0
    &&& (criteria.min_rating matches Some(m) ==> r.rating >= m)
    &&& (ceiling matches Some(max) ==> bottle_price_at_most(c, max))
    &&& (criteria.color matches Some(col) ==> c.color == col)
    &&& (criteria.available_online matches Some(a) ==> c.available_online == a)
    &&& (user matches Some(u) ==> r.user_id == Some(u))
}

/// The result row that a wine and the recommendation that selected it give.
pub open spec fn row_of(c: SaqWine, r: WineRecommendation) -> WineRow {
    WineRow {
        id: c.id,
        name: c.name,
        available_online: c.available_online,
        country: c.country,
        region: c.region,
        designation_of_origin: c.designation_of_origin,
        producer: c.producer,
        color: c.color,
        volume: c.volume,
        price: c.price,
        rating: r.rating,
    }
}

/// The rows that a wine gives with the first `n` recommendations.
pub open spec fn rows_for(
    c: SaqWine,
    recos: Seq<WineRecommendation>,
    n: int,
    criteria: WineCriteria,
    ceiling: Option<Decimal>,
    user: Option<i32>,
) -> Seq<WineRow>
    decreases n,
{
    if n <= 0 {
        Seq::empty()
    } else {
        let before = rows_for(c, recos, n - 1, criteria, ceiling, user);
        if answers(c, recos[n - 1]) && passes(c, recos[n - 1], criteria, ceiling, user) {
            before.push(row_of(c, recos[n - 1]))
        } else {
            before
        }
    }
}

/// The rows that the first `n` wines of the catalog give, wine by wine.
pub open spec fn joined(
    catalog: Seq<SaqWine>,
    recos: Seq<WineRecommendation>,
    n: int,
    criteria: WineCriteria,
    ceiling: Option<Decimal>,
    user: Option<i32>,
) -> Seq<WineRow>
    decreases n,
{
    if n <= 0 {
        Seq::empty()
    } else {
        joined(catalog, recos, n - 1, criteria, ceiling, user) + rows_for(
            catalog[n - 1],
            recos,
            recos.len() as int,
            criteria,
            ceiling,
            user,
        )
    }
}

/// The result of a query: every pair of a catalog wine and a recommendation
/// that it answers and that passes the criteria, ordered by unit price, one row
/// per wine.
pub open spec fn query_result(
    catalog: Seq<SaqWine>,
    recos: Seq<WineRecommendation>,
    criteria: WineCriteria,
    ceiling: Option<Decimal>,
    user: Option<i32>,
) -> Seq<WineRow> {
    dedup(by_unit_price(joined(catalog, recos, catalog.len() as int, criteria, ceiling, user)))
}

fn passes_exec(
    c: &SaqWine,
    r: &WineRecommendation,
    criteria: &WineCriteria,
    ceiling: Option<Decimal>,
    user: Option<i32>,
) -> (b: bool)
    ensures
        b == passes(*c, *r, *criteria, ceiling, user),
{
    let rating_ok = match criteria.min_rating {
        Some(m) => r.rating >= m,
        None => true,
    };
    let price_ok = match ceiling {
        Some(max) => wide_mul(c.price.units, 7_500_000) <= wide_mul(max.units, c.volume.units),
        None => true,
    };
    let color_ok = match criteria.color {
        Some(col) => c.color == col,
        None => true,
    };
    let online_ok = match criteria.available_online {
        Some(a) => c.available_online == a,
        None => true,
    };
    let owner_ok = match user {
        Some(u) => r.user_id == Some(u),
        None => true,
    };
    c.volume.units > 0 && rating_ok && price_ok && color_ok && online_ok && owner_ok
}

fn row_from(c: &SaqWine, r: &WineRecommendation) -> (w: WineRow)
    ensures
        w == row_of(*c, *r),
{
    WineRow {
        id: c.id,
        name: c.name.clone(),
        available_online: c.available_online,
        country: c.country.clone(),
        region: c.region.clone(),
        designation_of_origin: c.designation_of_origin.clone(),
        producer: c.producer.clone(),
        color: c.color,
        volume: c.volume,
        price: c.price,
        rating: r.rating,
    }
}

/// Joins the catalog with the recommendations, wine by wine, keeping the pairs
/// that match and pass the criteria.
pub fn join_wines(
    catalog: &Vec<SaqWine>,
    recos: &Vec<WineRecommendation>,
    criteria: &WineCriteria,
    ceiling: Option<Decimal>,
    user: Option<i32>,
) -> (r: Vec<WineRow>)
    ensures
        r@ == joined(catalog@, recos@, catalog@.len() as int, *criteria, ceiling, user),
{
    let mut rows: Vec<WineRow> = Vec::new();
    let mut i: usize = 0;
    while i < catalog.len()
        invariant
            i <= catalog@.len(),
            rows@ == joined(catalog@, recos@, i as int, *criteria, ceiling, user),
        decreases catalog.len() - i,
    {
        let c = &catalog[i];
        let ghost before = rows@;
        let mut k: usize = 0;
        while k < recos.len()
            invariant
                i < catalog@.len(),
                *c == catalog@[i as int],
                k <= recos@.len(),
                rows@ == before + rows_for(*c, recos@, k as int, *criteria, ceiling, user),
            decreases recos.len() - k,
        {
            let r = &recos[k];
            if reco_matches(c, r) && passes_exec(c, r, criteria, ceiling, user) {
                rows.push(row_from(c, r));
            }
            k = k + 1;
            assert(rows@ =~= before + rows_for(*c, recos@, k as int, *criteria, ceiling, user));
        }
        i = i + 1;
    }
    rows
}

/// Lists the catalog wines that the recommendations select under the criteria:
/// ordered by unit price, cheapest first, one row per wine with the highest
/// rating that selects it. Fails only when the price ceiling is not a decimal
/// number.
pub fn match_wines(
    catalog: &Vec<SaqWine>,
    recos: &Vec<WineRecommendation>,
    criteria: &WineCriteria,
    user: Option<i32>,
) -> (r: Result<Vec<WineRow>, QueryError>)
    ensures
        r is Err <==> ceiling_of(*criteria) is None,
        r matches Err(e) ==> e == QueryError::MalformedMaxPrice,
        r matches Ok(rows) ==> rows@ == query_result(
            catalog@,
            recos@,
            *criteria,
            ceiling_of(*criteria)->0,
            user,
        ),
{
    let ceiling = match &criteria.max_price {
        None => None,
        Some(t) => match Decimal::parse(t.as_str()) {
            Some(d) => Some(d),
            None => {
                return Err(QueryError::MalformedMaxPrice);
            },
        },
    };
    let rows = join_wines(catalog, recos, criteria, ceiling, user);
    let sorted = sort_by_unit_price(rows);
    Ok(dedup_wines(&sorted))
}


proof fn lemma_joined_rows_of_colour(
    catalog: Seq<SaqWine>,
    r: WineRecommendation,
    criteria: WineCriteria,
    n: int,
)
    requires
        0 <= n <= catalog.len(),
        r.country@.len() == 0,
        r.region@.len() == 0,
        r.designation_of_origin@.len() == 0,
        r.name@.len() == 0,
        r.producer@.len() == 0,
        r.grape_variety@.len() == 0,
        criteria.min_rating is None,
        criteria.max_price is None,
        criteria.color is None,
        criteria.available_online is None,
        forall|i: int| 0 <= i < catalog.len() ==> (#[trigger] catalog[i]).volume.units > 0,
    ensures
        forall|x: WineRow|
            #[trigger] joined(catalog, seq![r], n, criteria, None, None).contains(x) <==> exists|i: int|
                0 <= i < n && catalog[i].color == r.color && x == row_of(catalog[i], r),
    decreases n,
{
    if n > 0 {
        lemma_joined_rows_of_colour(catalog, r, criteria, n - 1);
        let c = catalog[n - 1];
        assert(c.volume.units > 0);
        lemma_empty_recommendation_matches_color(c, r);
        let before = joined(catalog, seq![r], n - 1, criteria, None, None);
        let extra = rows_for(c, seq![r], 1, criteria, None, None);
        let all = joined(catalog, seq![r], n, criteria, None, None);
        assert(all == before + extra);
        assert(rows_for(c, seq![r], 0, criteria, None, None) == Seq::<WineRow>::empty());
        assert forall|x: WineRow| #[trigger] all.contains(x) <==> exists|i: int|
            0 <= i < n && catalog[i].color == r.color && x == row_of(catalog[i], r) by {
            if all.contains(x) {
                let k = choose|k: int| 0 <= k < all.len() && all[k] == x;
                if k < before.len() {
                    assert(before[k] == x);
                    assert(before.contains(x));
                } else {
                    assert(extra[k - before.len()] == x);
                }
            }
            if exists|i: int| 0 <= i < n && catalog[i].color == r.color && x == row_of(catalog[i], r) {
                let i = choose|i: int|
                    0 <= i < n && catalog[i].color == r.color && x == row_of(catalog[i], r);
                if i < n - 1 {
                    assert(before.contains(x));
                    let k = choose|k: int| 0 <= k < before.len() && before[k] == x;
                    assert(all[k] == x);
                } else {
                    assert(all[before.len() as int] == x);
                }
            }
        }
    }
}

/// Without criteria, over a catalog of valid entries (positive volumes), a
/// single recommendation whose text fields are all empty selects exactly the
/// catalog wines of its colour: each of them has a row in
/// the result, and every row of the result is one of them.
pub proof fn lemma_empty_recommendation_selects_colour(
    catalog: Seq<SaqWine>,
    r: WineRecommendation,
    criteria: WineCriteria,
)
    requires
        r.country@.len() == 0,
        r.region@.len() == 0,
        r.designation_of_origin@.len() == 0,
        r.name@.len() == 0,
        r.producer@.len() == 0,
        r.grape_variety@.len() == 0,
        criteria.min_rating is None,
        criteria.max_price is None,
        criteria.color is None,
        criteria.available_online is None,
        forall|i: int| 0 <= i < catalog.len() ==> (#[trigger] catalog[i]).volume.units > 0,
    ensures
        forall|i: int|
            0 <= i < catalog.len() && (#[trigger] catalog[i]).color == r.color ==> exists|a: int|
                0 <= a < query_result(catalog, seq![r], criteria, None, None).len() && (#[trigger] query_result(
                    catalog,
                    seq![r],
                    criteria,
                    None,
                    None,
                )[a]).id == catalog[i].id,
        forall|a: int|
            0 <= a < query_result(catalog, seq![r], criteria, None, None).len() ==> exists|i: int|
                0 <= i < catalog.len() && (#[trigger] catalog[i]).color == r.color && (#[trigger] query_result(
                    catalog,
                    seq![r],
                    criteria,
                    None,
                    None,
                )[a]).id == catalog[i].id,
{
    broadcast use vstd::seq_lib::to_multiset_contains;

    let n = catalog.len() as int;
    let j = joined(catalog, seq![r], n, criteria, None, None);
    let s = by_unit_price(j);
    let out = query_result(catalog, seq![r], criteria, None, None);
    assert(out == dedup(s));
    lemma_joined_rows_of_colour(catalog, r, criteria, n);
    lemma_by_unit_price_orders(j);
    lemma_dedup_one_row_per_wine(s);
    assert forall|x: WineRow| s.contains(x) <==> j.contains(x) by {
        assert(s.to_multiset().count(x) == j.to_multiset().count(x));
    }
    assert forall|i: int| 0 <= i < catalog.len() && (#[trigger] catalog[i]).color == r.color implies exists|
        a: int,
    | 0 <= a < out.len() && (#[trigger] out[a]).id == catalog[i].id by {
        let x = row_of(catalog[i], r);
        assert(j.contains(x));
        assert(s.contains(x));
        let k = choose|k: int| 0 <= k < s.len() && s[k] == x;
        assert(s[k].id == catalog[i].id);
    }
    assert forall|a: int| 0 <= a < out.len() implies exists|i: int|
        0 <= i < catalog.len() && (#[trigger] catalog[i]).color == r.color && (#[trigger] out[a]).id
            == catalog[i].id by {
        assert(s.contains(out[a]));
        assert(j.contains(out[a]));
    }
}

} // verus!
