use vstd::prelude::*;
use crate::decimal::{
    decimal_of_text, parts_of_text, rounded_at, scaled, text_parts, Decimal, MAX_UNITS,
};
use crate::models::NewSaqWine;
use crate::page::ListingPage;
use crate::text::{
    chars_of, find, find_from, occurs_at, lower_of, regex_replace_all, regex_replaced, same_text, split,
    split_on, string_of, trim, trimmed,
};
use crate::types::{color_of_name, parse_color_any_case, WineColorEnum};

verus! {

/// One label/value row of a product's detail list, the value as it was read.
pub struct DetailRow {
    pub label: String,
    pub value: String,
}

/// What a product's detail page shows.
pub struct DetailPage {
    /// The product's title.
    pub title: Option<String>,
    /// The displayed price, such as `$12.99`.
    pub price_text: Option<String>,
    /// The detail list, in page order.
    pub rows: Vec<DetailRow>,
    /// Whether the page carries the marker that the wine is out of stock online.
    pub out_of_stock_online: bool,
}

/// A field of a catalog entry.
#[derive(Debug, Clone, Copy, PartialEq, Eq, Structural)]
pub enum WineField {
    Name,
    Price,
    Country,
    Producer,
    Size,
    Alcohol,
    Color,
}

/// Why a product page gives no catalog entry.
#[derive(Debug, Clone, Copy, PartialEq, Eq, Structural)]
pub enum NormalizationError {
    /// A required field is absent.
    Missing(WineField),
    /// A field does not hold a number of the expected form.
    Malformed(WineField),
    /// The colour is none of red, white and pink.
    UnrecognizedColor,
}

/// The value of the first row labelled exactly `label`, trimmed.
pub open spec fn info_of(rows: Seq<DetailRow>, label: Seq<char>) -> Option<Seq<char>>
    decreases rows.len(),
{
    if rows.len() == 0 {
        None
    } else if rows[0].label@ == label {
        Some(trimmed(rows[0].value@))
    } else {
        info_of(rows.drop_first(), label)
    }
}

/// Looks a field up in the detail list: the first row whose label is exactly
/// `info_selector`, its value trimmed.
pub fn parse_wine_info(rows: &Vec<DetailRow>, info_selector: &str) -> (r: Option<String>)
    ensures
        r is Some <==> info_of(rows@, info_selector@) is Some,
        r matches Some(v) ==> info_of(rows@, info_selector@) == Some(v@),
{
    let mut i: usize = 0;
    assert(rows@.skip(0) =~= rows@);
    while i < rows.len()
        invariant
            i <= rows@.len(),
            info_of(rows@, info_selector@) == info_of(rows@.skip(i as int), info_selector@),
        decreases rows.len() - i,
    {
        assert(rows@.skip(i as int).drop_first() =~= rows@.skip(i + 1));
        if same_text(rows[i].label.as_str(), info_selector) {
            let v = trim(&chars_of(rows[i].value.as_str()));
            return Some(string_of(&v));
        }
        i = i + 1;
    }
    None
}

/// The millilitre marker.
pub open spec fn ml_marker() -> Seq<char> {
    seq!['m', 'l']
}

/// The litre marker.
pub open spec fn litre_marker() -> Seq<char> {
    seq!['L']
}

/// The volume, in millilitres, that a size text gives: a number before `ml` is
/// taken as it stands; otherwise a number before `L` is in litres, rounded to
/// the nearest whole millilitre (halves up). The volume must be positive, and
/// stay so after rounding; a millilitre value keeps four decimals.
pub open spec fn volume_of(t: Seq<char>) -> Result<Decimal, NormalizationError> {
    match find_from(t, ml_marker(), 0) {
        Some(i) => match decimal_of_text(trimmed(t.take(i))) {
            Some(d) => if d.units > 0 {
                Ok(d)
            } else {
                Err(NormalizationError::Malformed(WineField::Size))
            },
            None => Err(NormalizationError::Malformed(WineField::Size)),
        },
        None => match find_from(t, litre_marker(), 0) {
            Some(i) => match parts_of_text(trimmed(t.take(i))) {
                Some((d, e)) => {
                    let ml = scaled(d as int, 3 - e);
                    if 0 < ml <= 1_000_000_000_000 {
                        Ok(Decimal { units: (ml * 10000) as i64 })
                    } else {
                        Err(NormalizationError::Malformed(WineField::Size))
                    }
                },
                None => Err(NormalizationError::Malformed(WineField::Size)),
            },
            None => Err(NormalizationError::Malformed(WineField::Size)),
        },
    }
}

/// The number written before position `end` of a text, trimmed.
fn decimal_before(t: &Vec<char>, end: usize) -> (r: Option<Decimal>)
    requires
        end <= t@.len(),
    ensures
        r == decimal_of_text(trimmed(t@.take(end as int))),
        r matches Some(d) ==> d.wf(),
{
    let mut head: Vec<char> = Vec::new();
    let mut i: usize = 0;
    while i < end
        invariant
            end <= t@.len(),
            i <= end,
            head@ == t@.take(i as int),
        decreases end - i,
    {
        head.push(t[i]);
        i = i + 1;
        assert(head@ =~= t@.take(i as int));
    }
    let s = string_of(&trim(&head));
    Decimal::parse(s.as_str())
}

/// The digits and scale of the number written before position `end` of a
/// text, trimmed.
fn parts_before(t: &Vec<char>, end: usize) -> (r: Option<(i64, i64)>)
    requires
        end <= t@.len(),
    ensures
        r == parts_of_text(trimmed(t@.take(end as int))),
{
    let head = slice_chars(t, 0, end);
    assert(head@ =~= t@.take(end as int));
    let s = string_of(&trim(&head));
    text_parts(s.as_str())
}

/// Reads a size text such as `750 ml` or `1.5 L` as a volume in millilitres.
pub fn normalize_volume(text: &str) -> (r: Result<Decimal, NormalizationError>)
    ensures
        r == volume_of(text@),
        r matches Ok(d) ==> d.wf() && d.units > 0,
{
    let t = chars_of(text);
    let ml = vec!['m', 'l'];
    assert(ml@ =~= ml_marker());
    match find(&t, &ml, 0) {
        Some(i) => match decimal_before(&t, i) {
            Some(d) => if d.units > 0 {
                Ok(d)
            } else {
                Err(NormalizationError::Malformed(WineField::Size))
            },
            None => Err(NormalizationError::Malformed(WineField::Size)),
        },
        None => {
            let l = vec!['L'];
            assert(l@ =~= litre_marker());
            match find(&t, &l, 0) {
                Some(i) => match parts_before(&t, i) {
                    Some((d, e)) => match rounded_at(d, e, 3) {
                        Some(ml) => if 0 < ml && ml <= 1_000_000_000_000 {
                            assert(10000 <= ml * 10000 <= MAX_UNITS) by (nonlinear_arith)
                                requires
                                    1 <= ml <= 1_000_000_000_000,
                            ;
                            Ok(Decimal { units: ml * 10000 })
                        } else {
                            Err(NormalizationError::Malformed(WineField::Size))
                        },
                        None => Err(NormalizationError::Malformed(WineField::Size)),
                    },
                    None => Err(NormalizationError::Malformed(WineField::Size)),
                },
                None => Err(NormalizationError::Malformed(WineField::Size)),
            }
        },
    }
}


/// Whether a character is an ASCII digit.
pub open spec fn is_digit(c: char) -> bool {
    '0' <= c <= '9'
}

/// Whether the comma three places from the end of an amount is its decimal
/// mark: it is followed by exactly two digits.
pub open spec fn has_decimal_comma(a: Seq<char>) -> bool {
    a.len() >= 3 && a[a.len() - 3] == ',' && is_digit(a[a.len() - 2]) && is_digit(a[a.len() - 1])
}

/// What the character at `k` of an amount becomes: a decimal comma becomes a
/// point, any other comma separates thousands and is dropped.
pub open spec fn amount_char(a: Seq<char>, k: int) -> Seq<char> {
    if a[k] == ',' {
        if has_decimal_comma(a) && k == a.len() - 3 {
            seq!['.']
        } else {
            Seq::empty()
        }
    } else {
        seq![a[k]]
    }
}

/// The first `n` characters of an amount, commas resolved.
pub open spec fn amount_prefix(a: Seq<char>, n: int) -> Seq<char>
    decreases n,
{
    if n <= 0 {
        Seq::empty()
    } else {
        amount_prefix(a, n - 1) + amount_char(a, n - 1)
    }
}

/// The amount that a displayed price gives: what follows the currency sign,
/// up to a promotional `*` or the end, with its commas resolved and trimmed.
pub open spec fn price_amount(t: Seq<char>) -> Option<Seq<char>> {
    match find_from(t, seq!['$'], 0) {
        None => None,
        Some(i) => {
            let rest = t.skip(i + 1);
            let body = match find_from(rest, seq!['*'], 0) {
                Some(j) => rest.take(j),
                None => rest,
            };
            Some(trimmed(amount_prefix(body, body.len() as int)))
        },
    }
}

/// The characters of `t` from `start` to `end`.
fn slice_chars(t: &Vec<char>, start: usize, end: usize) -> (r: Vec<char>)
    requires
        start <= end <= t@.len(),
    ensures
        r@ == t@.subrange(start as int, end as int),
{
    let mut r: Vec<char> = Vec::new();
    let mut i: usize = start;
    while i < end
        invariant
            start <= i <= end <= t@.len(),
            r@ == t@.subrange(start as int, i as int),
        decreases end - i,
    {
        r.push(t[i]);
        i = i + 1;
        assert(r@ =~= t@.subrange(start as int, i as int));
    }
    r
}

/// Resolves the commas of an amount.
fn resolve_commas(a: &Vec<char>) -> (r: Vec<char>)
    ensures
        r@ == amount_prefix(a@, a@.len() as int),
{
    let n = a.len();
    let decimal_comma = n >= 3 && a[n - 3] == ',' && '0' <= a[n - 2] && a[n - 2] <= '9'
        && '0' <= a[n - 1] && a[n - 1] <= '9';
    assert(decimal_comma == has_decimal_comma(a@));
    let mut r: Vec<char> = Vec::new();
    let mut k: usize = 0;
    while k < n
        invariant
            n == a@.len(),
            k <= n,
            decimal_comma == has_decimal_comma(a@),
            r@ == amount_prefix(a@, k as int),
        decreases n - k,
    {
        if a[k] == ',' {
            if decimal_comma && k == n - 3 {
                r.push('.');
            }
        } else {
            r.push(a[k]);
        }
        k = k + 1;
        assert(r@ =~= amount_prefix(a@, k as int));
    }
    r
}

/// Reads the amount of a displayed price: `$12,99*` gives `12.99`, `$8.50`
/// gives `8.50`; nothing without a currency sign.
pub fn parse_price(text: &str) -> (r: Option<String>)
    ensures
        r is Some <==> price_amount(text@) is Some,
        r matches Some(x) ==> price_amount(text@) == Some(x@),
{
    let t = chars_of(text);
    let dollar = vec!['$'];
    assert(dollar@ =~= seq!['$']);
    match find(&t, &dollar, 0) {
        None => None,
        Some(i) => {
            assert(occurs_at(t@, dollar@, i as int));
            assert(dollar@.len() == 1);
            assert(i < t.len());
            let rest = slice_chars(&t, i + 1, t.len());
            assert(rest@ =~= t@.skip(i + 1));
            let star = vec!['*'];
            assert(star@ =~= seq!['*']);
            let body = match find(&rest, &star, 0) {
                Some(j) => {
                    let b = slice_chars(&rest, 0, j);
                    assert(b@ =~= rest@.take(j as int));
                    b
                },
                None => rest,
            };
            let amount = trim(&resolve_commas(&body));
            Some(string_of(&amount))
        },
    }
}

/// The alcohol content that the detail list gives: the number before `%`;
/// zero when the field is absent.
pub open spec fn alcohol_of(info: Option<Seq<char>>) -> Result<Decimal, NormalizationError> {
    match info {
        None => Ok(Decimal { units: 0 }),
        Some(t) => match find_from(t, seq!['%'], 0) {
            Some(i) => match decimal_of_text(trimmed(t.take(i))) {
                Some(d) => if d.units >= 0 {
                    Ok(d)
                } else {
                    Err(NormalizationError::Malformed(WineField::Alcohol))
                },
                None => Err(NormalizationError::Malformed(WineField::Alcohol)),
            },
            None => Err(NormalizationError::Malformed(WineField::Alcohol)),
        },
    }
}

/// Reads the alcohol content, in percent, from the text of its field, if any.
pub fn normalize_alcohol(info: &Option<String>) -> (r: Result<Decimal, NormalizationError>)
    ensures
        r == alcohol_of(
            match info {
                Some(t) => Some(t@),
                None => None,
            },
        ),
        r matches Ok(d) ==> d.wf() && d.units >= 0,
{
    match info {
        None => Ok(Decimal { units: 0 }),
        Some(text) => {
            let t = chars_of(text.as_str());
            let percent = vec!['%'];
            assert(percent@ =~= seq!['%']);
            match find(&t, &percent, 0) {
                Some(i) => match decimal_before(&t, i) {
                    Some(d) => if d.units >= 0 {
                        Ok(d)
                    } else {
                        Err(NormalizationError::Malformed(WineField::Alcohol))
                    },
                    None => Err(NormalizationError::Malformed(WineField::Alcohol)),
                },
                None => Err(NormalizationError::Malformed(WineField::Alcohol)),
            }
        },
    }
}

/// The label under which an unregulated designation appears.
pub open spec fn table_wine() -> Seq<char> {
    "Table wine"@
}

/// Whether a designation of origin is regulated: the designation and the
/// regulated-designation label are both present, and the label is not
/// `Table wine`.
pub open spec fn is_regulated(designation: Option<Seq<char>>, label: Option<Seq<char>>) -> bool {
    designation is Some && label is Some && label->0 != table_wine()
}

/// Applies the designation rule: the designation is kept only when it is
/// regulated, and is empty otherwise. Returns the designation and whether it is
/// regulated.
pub fn designation_rule(designation: Option<String>, regulated_label: Option<String>) -> (r: (
    String,
    bool,
))
    ensures
        r.1 == is_regulated(
            match designation {
                Some(d) => Some(d@),
                None => None,
            },
            match regulated_label {
                Some(l) => Some(l@),
                None => None,
            },
        ),
        r.1 ==> r.0@ == designation->0@,
        !r.1 ==> r.0@.len() == 0,
{
    let regulated = match &regulated_label {
        Some(label) => designation.is_some() && !same_text(label.as_str(), "Table wine"),
        None => false,
    };
    if regulated {
        match designation {
            Some(d) => (d, true),
            None => (String::new(), false),
        }
    } else {
        (String::new(), false)
    }
}

/// The pattern of a blend share such as ` 60 %`.
pub open spec fn share_pattern() -> Seq<char> {
    "\\s[0-9]+\\s%"@
}

/// The separator between grape varieties.
pub open spec fn variety_separator() -> Seq<char> {
    seq![',', ' ']
}

/// The varieties that a text lists once its blend shares are gone: the pieces
/// between `, ` separators, each trimmed.
pub open spec fn varieties_of(stripped: Seq<char>) -> Seq<Seq<char>> {
    split_on(stripped, variety_separator()).map(|k: int, p: Seq<char>| trimmed(p))
}

/// Splits a list of grape varieties, whose blend shares were removed, on `, `
/// and trims each variety.
pub fn varieties_from_stripped(stripped: &str) -> (r: Vec<String>)
    ensures
        r@.len() == varieties_of(stripped@).len(),
        forall|k: int| 0 <= k < r@.len() ==> #[trigger] r@[k]@ == varieties_of(stripped@)[k],
{
    let sep = vec![',', ' '];
    assert(sep@ =~= variety_separator());
    let pieces = split(&chars_of(stripped), &sep);
    let mut r: Vec<String> = Vec::new();
    let mut k: usize = 0;
    while k < pieces.len()
        invariant
            k <= pieces@.len(),
            pieces@.len() == split_on(stripped@, variety_separator()).len(),
            forall|j: int| 0 <= j < pieces@.len() ==> #[trigger] pieces@[j]@ == split_on(
                stripped@,
                variety_separator(),
            )[j],
            r@.len() == k,
            forall|j: int| 0 <= j < k ==> #[trigger] r@[j]@ == varieties_of(stripped@)[j],
        decreases pieces.len() - k,
    {
        let v = string_of(&trim(&pieces[k]));
        r.push(v);
        k = k + 1;
    }
    r
}

/// The grape varieties that a detail list gives: none without the field;
/// otherwise the field's text with its blend shares removed, split and trimmed.
pub open spec fn grapes_of(rows: Seq<DetailRow>) -> Seq<Seq<char>> {
    match info_of(rows, "Grape variety"@) {
        None => Seq::empty(),
        Some(t) => match regex_replaced(share_pattern(), t, Seq::empty()) {
            Some(x) => varieties_of(x),
            None => Seq::empty(),
        },
    }
}

/// Reads the grape varieties from the detail list, as `grapes_of` states.
pub fn parse_grape_varieties(rows: &Vec<DetailRow>) -> (r: Vec<String>)
    ensures
        r@.len() == grapes_of(rows@).len(),
        forall|k: int| 0 <= k < r@.len() ==> #[trigger] r@[k]@ == grapes_of(rows@)[k],
{
    match parse_wine_info(rows, "Grape variety") {
        None => Vec::new(),
        Some(text) => {
            let empty = String::new();
            proof {
                assert(empty@ =~= Seq::<char>::empty());
            }
            match regex_replace_all("\\s[0-9]+\\s%", text.as_str(), empty.as_str()) {
                Some(stripped) => varieties_from_stripped(stripped.as_str()),
                None => Vec::new(),
            }
        },
    }
}


/// The text that the retailer appends after a producer's name.
pub open spec fn producer_link_text() -> Seq<char> {
    "All products from this producer"@
}

/// A producer's name without the text appended after it, trimmed again.
pub open spec fn producer_name(t: Seq<char>) -> Seq<char> {
    match find_from(t, producer_link_text(), 0) {
        Some(i) => trimmed(t.take(i)),
        None => t,
    }
}

/// Removes the text that the retailer appends after a producer's name.
pub fn strip_producer_link(t: &String) -> (r: String)
    ensures
        r@ == producer_name(t@),
{
    let chars = chars_of(t.as_str());
    let marker = chars_of("All products from this producer");
    match find(&chars, &marker, 0) {
        Some(i) => {
            let head = slice_chars(&chars, 0, i);
            assert(head@ =~= chars@.take(i as int));
            string_of(&trim(&head))
        },
        None => t.clone(),
    }
}

/// The price that a page shows, when it reads as a non-negative amount.
pub open spec fn price_of(page: DetailPage) -> Option<Decimal> {
    match page.price_text {
        None => None,
        Some(t) => match price_amount(t@) {
            None => None,
            Some(a) => match decimal_of_text(a) {
                Some(d) => if d.units >= 0 {
                    Some(d)
                } else {
                    None
                },
                None => None,
            },
        },
    }
}

/// The first problem that keeps a page from giving a catalog entry, checked in
/// the order name, price, country, producer, size, alcohol, colour.
pub open spec fn page_problem(page: DetailPage) -> Option<NormalizationError> {
    let rows = page.rows@;
    if page.title is None {
        Some(NormalizationError::Missing(WineField::Name))
    } else if page.price_text is None {
        Some(NormalizationError::Missing(WineField::Price))
    } else if price_of(page) is None {
        Some(NormalizationError::Malformed(WineField::Price))
    } else if info_of(rows, "Country"@) is None {
        Some(NormalizationError::Missing(WineField::Country))
    } else if info_of(rows, "Producer"@) is None {
        Some(NormalizationError::Missing(WineField::Producer))
    } else if info_of(rows, "Size"@) is None {
        Some(NormalizationError::Missing(WineField::Size))
    } else if volume_of(info_of(rows, "Size"@)->0) is Err {
        Some(volume_of(info_of(rows, "Size"@)->0)->Err_0)
    } else if alcohol_of(info_of(rows, "Degree of alcohol"@)) is Err {
        Some(alcohol_of(info_of(rows, "Degree of alcohol"@))->Err_0)
    } else if info_of(rows, "Color"@) is None {
        Some(NormalizationError::Missing(WineField::Color))
    } else if color_of_name(lower_of(info_of(rows, "Color"@)->0)) is None {
        Some(NormalizationError::UnrecognizedColor)
    } else {
        None
    }
}

/// Whether `w` is the catalog entry that a page gives, once `page_problem`
/// finds nothing wrong with it.
pub open spec fn entry_of_page(page: DetailPage, w: NewSaqWine) -> bool {
    let rows = page.rows@;
    &&& w.name@ == trimmed(page.title->0@)
    &&& w.price == price_of(page)->0
    &&& w.country@ == info_of(rows, "Country"@)->0
    &&& w.region@ == (match info_of(rows, "Region"@) {
        Some(v) => v,
        None => Seq::empty(),
    })
    &&& w.regulated_designation == is_regulated(
        info_of(rows, "Designation of origin"@),
        info_of(rows, "Regulated Designation"@),
    )
    &&& w.designation_of_origin@ == (if w.regulated_designation {
        info_of(rows, "Designation of origin"@)->0
    } else {
        Seq::empty()
    })
    &&& w.producer@ == producer_name(info_of(rows, "Producer"@)->0)
    &&& w.volume == volume_of(info_of(rows, "Size"@)->0)->Ok_0
    &&& w.alcohol_percent == alcohol_of(info_of(rows, "Degree of alcohol"@))->Ok_0
    &&& Some(w.color) == color_of_name(lower_of(info_of(rows, "Color"@)->0))
    &&& w.grape_varieties@.len() == grapes_of(rows).len()
    &&& forall|k: int|
        0 <= k < w.grape_varieties@.len() ==> #[trigger] w.grape_varieties@[k]@ == grapes_of(rows)[k]
    &&& w.available_online == !page.out_of_stock_online
}

/// Turns what a product page shows into a catalog entry, or says why it
/// cannot: see `page_problem`. Optional fields (region, designation, alcohol,
/// grape varieties) may be absent; the wine is available online unless the page
/// marks it out of stock.
pub fn normalize_detail(page: &DetailPage) -> (r: Result<NewSaqWine, NormalizationError>)
    ensures
        r is Ok <==> page_problem(*page) is None,
        r matches Err(e) ==> page_problem(*page) == Some(e),
        r matches Ok(w) ==> entry_of_page(*page, w),
{
    let rows = &page.rows;
    let name = match &page.title {
        None => {
            return Err(NormalizationError::Missing(WineField::Name));
        },
        Some(t) => string_of(&trim(&chars_of(t.as_str()))),
    };
    let price = match &page.price_text {
        None => {
            return Err(NormalizationError::Missing(WineField::Price));
        },
        Some(t) => match parse_price(t.as_str()) {
            None => {
                return Err(NormalizationError::Malformed(WineField::Price));
            },
            Some(a) => match Decimal::parse(a.as_str()) {
                Some(d) => if d.units >= 0 {
                    d
                } else {
                    return Err(NormalizationError::Malformed(WineField::Price));
                },
                None => {
                    return Err(NormalizationError::Malformed(WineField::Price));
                },
            },
        },
    };
    let country = match parse_wine_info(rows, "Country") {
        None => {
            return Err(NormalizationError::Missing(WineField::Country));
        },
        Some(c) => c,
    };
    let producer = match parse_wine_info(rows, "Producer") {
        None => {
            return Err(NormalizationError::Missing(WineField::Producer));
        },
        Some(p) => strip_producer_link(&p),
    };
    let volume = match parse_wine_info(rows, "Size") {
        None => {
            return Err(NormalizationError::Missing(WineField::Size));
        },
        Some(size) => match normalize_volume(size.as_str()) {
            Ok(v) => v,
            Err(e) => {
                return Err(e);
            },
        },
    };
    let alcohol_percent = match normalize_alcohol(&parse_wine_info(rows, "Degree of alcohol")) {
        Ok(a) => a,
        Err(e) => {
            return Err(e);
        },
    };
    let color = match parse_wine_info(rows, "Color") {
        None => {
            return Err(NormalizationError::Missing(WineField::Color));
        },
        Some(c) => match parse_color_any_case(c.as_str()) {
            Ok(color) => color,
            Err(_) => {
                return Err(NormalizationError::UnrecognizedColor);
            },
        },
    };
    let region = match parse_wine_info(rows, "Region") {
        Some(r) => r,
        None => String::new(),
    };
    let (designation_of_origin, regulated_designation) = designation_rule(
        parse_wine_info(rows, "Designation of origin"),
        parse_wine_info(rows, "Regulated Designation"),
    );
    let grape_varieties = parse_grape_varieties(rows);
    let w = NewSaqWine {
        name,
        country,
        region,
        designation_of_origin,
        regulated_designation,
        producer,
        volume,
        price,
        alcohol_percent,
        color,
        grape_varieties,
        available_online: !page.out_of_stock_online,
    };
    assert(forall|k: int|
        0 <= k < w.grape_varieties@.len() ==> #[trigger] w.grape_varieties@[k]@ == grapes_of(
            page.rows@,
        )[k]);
    let ghost rws = page.rows@;
    assert(w.designation_of_origin@ == (if w.regulated_designation {
        info_of(rws, "Designation of origin"@)->0
    } else {
        Seq::empty()
    }));
    assert(entry_of_page(*page, w));
    Ok(w)
}


/// Where a crawl stands.
#[derive(Debug, Clone, Copy, PartialEq, Eq, Structural)]
pub enum CrawlStage {
    /// Not started.
    Idle,
    /// Waiting for the catalog to be emptied.
    Clearing,
    /// Waiting for a listing page.
    Listing,
    /// Waiting for a product page.
    Detail,
    /// Waiting for a catalog entry to be stored.
    Storing,
    /// Reached a listing page without a next page.
    Succeeded,
    /// Stopped on a listing page that could not be fetched, or cancelled.
    Failed,
}

/// The status of a crawl as it is reported.
#[derive(Debug, Clone, Copy, PartialEq, Eq, Structural)]
pub enum CrawlStatus {
    Idle,
    Running,
    Succeeded,
    Failed,
}

/// A crawl of the retailer's catalog: it empties the catalog, then walks the
/// listing pages from the first, storing each product that reads well.
pub struct CrawlJob {
    pub stage: CrawlStage,
    /// The first listing page.
    pub origin: String,
    /// The product links of the current listing page.
    pub links: Vec<String>,
    /// The position, among `links`, of the product being handled.
    pub cursor: usize,
    /// The listing page after the current one, if any.
    pub next_page: Option<String>,
    /// Products stored so far.
    pub stored: u64,
    /// Products skipped so far, their page failing to load or to read.
    pub skipped: u64,
}

/// What happened since the last step.
pub enum CrawlEvent {
    Start,
    Cleared,
    ListingFetched(ListingPage),
    ListingFailed,
    DetailFetched(DetailPage),
    DetailFailed,
    Stored,
    Cancel,
}

/// What the crawl asks to be done next.
pub enum CrawlAction {
    /// Delete every catalog entry.
    ClearCatalog,
    FetchListing(String),
    FetchDetail(String),
    /// Store a catalog entry.
    Store(NewSaqWine),
    /// The crawl is over and succeeded.
    Finish,
    /// The crawl is over and failed.
    Abort,
    /// Nothing: the event was not expected at this stage.
    Wait,
}

/// The status that a stage reports.
pub open spec fn status_of(stage: CrawlStage) -> CrawlStatus {
    match stage {
        CrawlStage::Idle => CrawlStatus::Idle,
        CrawlStage::Succeeded => CrawlStatus::Succeeded,
        CrawlStage::Failed => CrawlStatus::Failed,
        _ => CrawlStatus::Running,
    }
}

/// The stage that follows once the products before `cursor` are handled: the
/// next product, else the next listing page, else success.
pub open spec fn stage_after(links: Seq<String>, cursor: int, next_page: Option<String>) -> CrawlStage {
    if cursor < links.len() {
        CrawlStage::Detail
    } else if next_page is Some {
        CrawlStage::Listing
    } else {
        CrawlStage::Succeeded
    }
}

/// Whether an action is the one that goes with a stage reached by moving on.
pub open spec fn action_after(
    links: Seq<String>,
    cursor: int,
    next_page: Option<String>,
    a: CrawlAction,
) -> bool {
    match stage_after(links, cursor, next_page) {
        CrawlStage::Detail => a matches CrawlAction::FetchDetail(u) && u@ == links[cursor]@,
        CrawlStage::Listing => a matches CrawlAction::FetchListing(u) && u@ == next_page->0@,
        _ => a is Finish,
    }
}

/// One more, short of the largest value.
pub open spec fn bump(n: u64) -> u64 {
    if n < u64::MAX {
        (n + 1) as u64
    } else {
        n
    }
}

fn bump_exec(n: u64) -> (r: u64)
    ensures
        r == bump(n),
{
    if n < u64::MAX {
        n + 1
    } else {
        n
    }
}

/// Whether two crawls stand at the same place: same links, cursor and next
/// page.
pub open spec fn same_walk(a: CrawlJob, b: CrawlJob) -> bool {
    a.links == b.links && a.cursor == b.cursor && a.next_page == b.next_page
}

/// Whether two crawls have stored and skipped as many products.
pub open spec fn same_counts(a: CrawlJob, b: CrawlJob) -> bool {
    a.stored == b.stored && a.skipped == b.skipped
}

/// Whether `b` is `a` moved past its current product, with the action that
/// goes with where it lands.
pub open spec fn moved_on(a: CrawlJob, b: CrawlJob, act: CrawlAction) -> bool {
    &&& b.links == a.links
    &&& b.next_page == a.next_page
    &&& b.cursor == a.cursor + 1
    &&& b.stage == stage_after(a.links@, a.cursor + 1, a.next_page)
    &&& action_after(a.links@, a.cursor + 1, a.next_page, act)
}

impl CrawlJob {
    /// The cursor stays within the links, and points at a product while one is
    /// being fetched or stored.
    pub open spec fn wf(self) -> bool {
        &&& self.cursor <= self.links@.len()
        &&& (self.stage == CrawlStage::Detail || self.stage == CrawlStage::Storing) ==> self.cursor
            < self.links@.len()
    }

    /// A crawl that has not started, from the given first listing page.
    pub fn new(origin: String) -> (r: CrawlJob)
        ensures
            r.wf(),
            r.stage == CrawlStage::Idle,
            r.origin == origin,
            r.links@.len() == 0,
            r.cursor == 0,
            r.next_page is None,
            r.stored == 0,
            r.skipped == 0,
    {
        CrawlJob {
            stage: CrawlStage::Idle,
            origin,
            links: Vec::new(),
            cursor: 0,
            next_page: None,
            stored: 0,
            skipped: 0,
        }
    }

    /// The crawl's status.
    pub fn status(&self) -> (r: CrawlStatus)
        ensures
            r == status_of(self.stage),
    {
        match self.stage {
            CrawlStage::Idle => CrawlStatus::Idle,
            CrawlStage::Succeeded => CrawlStatus::Succeeded,
            CrawlStage::Failed => CrawlStatus::Failed,
            _ => CrawlStatus::Running,
        }
    }

    /// Goes on from the cursor: to its product, else to the next listing page,
    /// else to success.
    fn move_on(&mut self) -> (a: CrawlAction)
        requires
            old(self).cursor <= old(self).links@.len(),
        ensures
            final(self).wf(),
            final(self).stage == stage_after(final(self).links@, final(self).cursor as int, final(self).next_page),
            action_after(final(self).links@, final(self).cursor as int, final(self).next_page, a),
            final(self).cursor == old(self).cursor,
            final(self).links == old(self).links,
            final(self).origin == old(self).origin,
            final(self).stored == old(self).stored,
            final(self).skipped == old(self).skipped,
            final(self).next_page == old(self).next_page,
    {
        if self.cursor < self.links.len() {
            self.stage = CrawlStage::Detail;
            CrawlAction::FetchDetail(self.links[self.cursor].clone())
        } else {
            match &self.next_page {
                Some(u) => {
                    let url = u.clone();
                    self.stage = CrawlStage::Listing;
                    CrawlAction::FetchListing(url)
                },
                None => {
                    self.stage = CrawlStage::Succeeded;
                    CrawlAction::Finish
                },
            }
        }
    }

    /// Takes the crawl one step on an event, and says what to do next. A failed
    /// product page is skipped, a failed listing page ends the crawl; an event
    /// that the stage does not expect changes nothing.
    pub fn step(&mut self, event: CrawlEvent) -> (a: CrawlAction)
        requires
            old(self).wf(),
        ensures
            final(self).wf(),
            final(self).origin == old(self).origin,
            match (old(self).stage, event) {
                (CrawlStage::Idle, CrawlEvent::Start) => final(self).stage == CrawlStage::Clearing
                    && a is ClearCatalog && final(self).stored == 0 && final(self).skipped == 0
                    && same_walk(*old(self), *final(self)),
                (CrawlStage::Clearing, CrawlEvent::Cleared) => final(self).stage
                    == CrawlStage::Listing && (a matches CrawlAction::FetchListing(u) && u@
                    == old(self).origin@) && same_walk(*old(self), *final(self)) && same_counts(
                    *old(self),
                    *final(self),
                ),
                (CrawlStage::Listing, CrawlEvent::ListingFetched(p)) => final(self).links == p.links
                    && final(self).next_page == p.next_page && final(self).cursor == 0
                    && final(self).stage == stage_after(p.links@, 0, p.next_page) && action_after(
                    p.links@,
                    0,
                    p.next_page,
                    a,
                ) && same_counts(*old(self), *final(self)),
                (CrawlStage::Detail, CrawlEvent::DetailFetched(p)) => if page_problem(p) is None {
                    final(self).stage == CrawlStage::Storing && (a matches CrawlAction::Store(w)
                        && entry_of_page(p, w)) && same_walk(*old(self), *final(self))
                        && same_counts(*old(self), *final(self))
                } else {
                    final(self).skipped == bump(old(self).skipped) && final(self).stored
                        == old(self).stored && moved_on(*old(self), *final(self), a)
                },
                (CrawlStage::Detail, CrawlEvent::DetailFailed) => final(self).skipped == bump(
                    old(self).skipped,
                ) && final(self).stored == old(self).stored && moved_on(*old(self), *final(self), a),
                (CrawlStage::Storing, CrawlEvent::Stored) => final(self).stored == bump(
                    old(self).stored,
                ) && final(self).skipped == old(self).skipped && moved_on(*old(self), *final(self), a),
                (CrawlStage::Listing, CrawlEvent::ListingFailed) => final(self).stage
                    == CrawlStage::Failed && a is Abort && same_walk(*old(self), *final(self))
                    && same_counts(*old(self), *final(self)),
                (_, CrawlEvent::Cancel) => same_walk(*old(self), *final(self)) && same_counts(
                    *old(self),
                    *final(self),
                ) && if status_of(old(self).stage) == CrawlStatus::Running {
                    final(self).stage == CrawlStage::Failed && a is Abort
                } else {
                    final(self).stage == old(self).stage && a is Wait
                },
                _ => final(self).stage == old(self).stage && same_walk(*old(self), *final(self))
                    && same_counts(*old(self), *final(self)) && a is Wait,
            },
    {
        match (self.stage, event) {
            (CrawlStage::Idle, CrawlEvent::Start) => {
                self.stage = CrawlStage::Clearing;
                self.stored = 0;
                self.skipped = 0;
                CrawlAction::ClearCatalog
            },
            (CrawlStage::Clearing, CrawlEvent::Cleared) => {
                self.stage = CrawlStage::Listing;
                CrawlAction::FetchListing(self.origin.clone())
            },
            (CrawlStage::Listing, CrawlEvent::ListingFetched(p)) => {
                self.links = p.links;
                self.next_page = p.next_page;
                self.cursor = 0;
                self.move_on()
            },
            (CrawlStage::Detail, CrawlEvent::DetailFetched(p)) => {
                match normalize_detail(&p) {
                    Ok(w) => {
                        self.stage = CrawlStage::Storing;
                        CrawlAction::Store(w)
                    },
                    Err(_) => {
                        assert(self.cursor < self.links.len());
                        self.skipped = bump_exec(self.skipped);
                        self.cursor = self.cursor + 1;
                        self.move_on()
                    },
                }
            },
            (CrawlStage::Detail, CrawlEvent::DetailFailed) => {
                assert(self.cursor < self.links.len());
                self.skipped = bump_exec(self.skipped);
                self.cursor = self.cursor + 1;
                self.move_on()
            },
            (CrawlStage::Storing, CrawlEvent::Stored) => {
                assert(self.cursor < self.links.len());
                self.stored = bump_exec(self.stored);
                self.cursor = self.cursor + 1;
                self.move_on()
            },
            (CrawlStage::Listing, CrawlEvent::ListingFailed) => {
                self.stage = CrawlStage::Failed;
                CrawlAction::Abort
            },
            (stage, CrawlEvent::Cancel) => {
                match stage {
                    CrawlStage::Idle | CrawlStage::Succeeded | CrawlStage::Failed => CrawlAction::Wait,
                    _ => {
                        self.stage = CrawlStage::Failed;
                        CrawlAction::Abort
                    },
                }
            },
            _ => CrawlAction::Wait,
        }
    }
}

} // verus!
