use wine_reco::crawler::{
    designation_rule, normalize_alcohol, normalize_detail, normalize_volume, parse_grape_varieties,
    parse_price, parse_wine_info, varieties_from_stripped, DetailPage, DetailRow,
    NormalizationError, WineField,
};
use wine_reco::decimal::{units_from_parts, Decimal};
use wine_reco::text::{chars_of, split, string_of, trim};
use wine_reco::types::{parse_color_any_case, parse_wine_color, ColorError, WineColorEnum};

fn dec(units: i64) -> Decimal {
    Decimal { units }
}

fn row(label: &str, value: &str) -> DetailRow {
    DetailRow { label: label.to_string(), value: value.to_string() }
}

#[test]
fn volume_in_millilitres() {
    assert_eq!(normalize_volume("750 ml"), Ok(dec(750 * 10000)));
}

#[test]
fn volume_in_litres() {
    assert_eq!(normalize_volume("1.5 L"), Ok(dec(1500 * 10000)));
    assert_eq!(normalize_volume("0.75L"), Ok(dec(750 * 10000)));
}

#[test]
fn volume_in_litres_rounds_to_nearest_millilitre() {
    assert_eq!(normalize_volume("0.3755 L"), Ok(dec(376 * 10000)));
    assert_eq!(normalize_volume("0.3754 L"), Ok(dec(375 * 10000)));
    assert_eq!(normalize_volume("0.12345 L"), Ok(dec(123 * 10000)));
    assert_eq!(normalize_volume("750.00001 ml"), Ok(dec(750 * 10000)));
}

#[test]
fn volume_errors() {
    let bad = Err(NormalizationError::Malformed(WineField::Size));
    assert_eq!(normalize_volume("abc ml"), bad);
    assert_eq!(normalize_volume("750"), bad);
    assert_eq!(normalize_volume("0 ml"), bad);
    assert_eq!(normalize_volume("0.0001 L"), bad);
}

#[test]
fn designation_kept_when_regulated() {
    let (d, regulated) =
        designation_rule(Some("AOC Bordeaux".to_string()), Some("Appellation".to_string()));
    assert_eq!(d, "AOC Bordeaux");
    assert!(regulated);
}

#[test]
fn designation_forced_empty_for_table_wine() {
    let (d, regulated) =
        designation_rule(Some("AOC Bordeaux".to_string()), Some("Table wine".to_string()));
    assert_eq!(d, "");
    assert!(!regulated);
    let (d, regulated) = designation_rule(Some("AOC Bordeaux".to_string()), None);
    assert_eq!(d, "");
    assert!(!regulated);
    let (d, regulated) = designation_rule(None, Some("Appellation".to_string()));
    assert_eq!(d, "");
    assert!(!regulated);
}

#[test]
fn grape_varieties_strip_shares() {
    let rows = vec![row("Grape variety", "Cabernet Sauvignon 60 %, Merlot 40 %")];
    assert_eq!(parse_grape_varieties(&rows), vec!["Cabernet Sauvignon", "Merlot"]);
}

#[test]
fn grape_varieties_absent_or_single() {
    assert!(parse_grape_varieties(&vec![row("Country", "France")]).is_empty());
    let rows = vec![row("Grape variety", "  Syrah ")];
    assert_eq!(parse_grape_varieties(&rows), vec!["Syrah"]);
}

#[test]
fn varieties_split_and_trimmed() {
    assert_eq!(
        varieties_from_stripped("Gamay,  Pinot noir , Chardonnay"),
        vec!["Gamay", "Pinot noir", "Chardonnay"]
    );
    assert_eq!(varieties_from_stripped("A, B, C"), vec!["A", "B", "C"]);
}

#[test]
fn price_with_promo_marker() {
    assert_eq!(parse_price("$12,99*"), Some("12.99".to_string()));
}

#[test]
fn price_plain() {
    assert_eq!(parse_price("$8.50"), Some("8.50".to_string()));
}

#[test]
fn price_thousands_separator() {
    assert_eq!(parse_price("$1,234.50"), Some("1234.50".to_string()));
    assert_eq!(parse_price("$1,234"), Some("1234".to_string()));
    assert_eq!(parse_price("8.50"), None);
}

#[test]
fn decimal_parse_values() {
    assert_eq!(Decimal::parse("12.99"), Some(dec(129900)));
    assert_eq!(Decimal::parse("750"), Some(dec(7500000)));
    assert_eq!(Decimal::parse("1e3"), Some(dec(10000000)));
    assert_eq!(Decimal::parse("0.12345"), Some(dec(1235)));
    assert_eq!(Decimal::parse("-0.12345"), Some(dec(-1235)));
    assert_eq!(Decimal::parse("0.12344"), Some(dec(1234)));
    assert_eq!(Decimal::parse("0.12340"), Some(dec(1234)));
    assert_eq!(Decimal::parse("x"), None);
    assert_eq!(Decimal::parse("1e30"), None);
}

#[test]
fn alcohol_values() {
    assert_eq!(normalize_alcohol(&Some("13.5 %".to_string())), Ok(dec(135000)));
    assert_eq!(normalize_alcohol(&None), Ok(dec(0)));
    assert_eq!(normalize_alcohol(&Some("13.12345 %".to_string())), Ok(dec(131235)));
    assert_eq!(
        normalize_alcohol(&Some("13.5".to_string())),
        Err(NormalizationError::Malformed(WineField::Alcohol))
    );
}

#[test]
fn colour_names() {
    assert_eq!(parse_wine_color("red"), Ok(WineColorEnum::Red));
    assert_eq!(parse_wine_color("white"), Ok(WineColorEnum::White));
    assert_eq!(parse_wine_color("pink"), Ok(WineColorEnum::Pink));
    assert_eq!(parse_wine_color("Red"), Err(ColorError::Unrecognized("Red".to_string())));
    assert_eq!(parse_color_any_case("Red"), Ok(WineColorEnum::Red));
    assert_eq!(parse_color_any_case("WHITE"), Ok(WineColorEnum::White));
    assert_eq!(parse_color_any_case("Orange"), Err(ColorError::Unrecognized("Orange".to_string())));
}

#[test]
fn colour_bytes_round_trip() {
    for c in [WineColorEnum::Red, WineColorEnum::White, WineColorEnum::Pink] {
        assert_eq!(WineColorEnum::from_bytes_name(&c.as_bytes_name()), Some(c));
    }
    assert_eq!(WineColorEnum::as_bytes_name(&WineColorEnum::Pink), b"pink".to_vec());
    assert_eq!(WineColorEnum::from_bytes_name(b"rose"), None);
}

#[test]
fn trim_and_split_text() {
    assert_eq!(string_of(&trim(&chars_of("  a b \n"))), "a b");
    let parts = split(&chars_of("a, b, , c"), &chars_of(", "));
    let parts: Vec<String> = parts.iter().map(|p| string_of(p)).collect();
    assert_eq!(parts, vec!["a", "b", "", "c"]);
}

#[test]
fn wine_info_first_exact_label() {
    let rows = vec![row("country", "x"), row("Country", "  France "), row("Country", "Italy")];
    assert_eq!(parse_wine_info(&rows, "Country"), Some("France".to_string()));
    assert_eq!(parse_wine_info(&rows, "Region"), None);
}

fn full_page() -> DetailPage {
    DetailPage {
        title: Some("  Château Test 2018 ".to_string()),
        price_text: Some("$24,95*".to_string()),
        rows: vec![
            row("Country", "France"),
            row("Region", "Bordeaux"),
            row("Designation of origin", "Pessac-Léognan"),
            row("Regulated Designation", "AOC"),
            row("Producer", "Château Test"),
            row("Size", "1.5 L"),
            row("Degree of alcohol", "13.5 %"),
            row("Color", "Red"),
            row("Grape variety", "Merlot 70 %, Cabernet franc 30 %"),
        ],
        out_of_stock_online: false,
    }
}

#[test]
fn detail_page_normalized() {
    let w = normalize_detail(&full_page()).unwrap();
    assert_eq!(w.name, "Château Test 2018");
    assert_eq!(w.price, dec(249500));
    assert_eq!(w.country, "France");
    assert_eq!(w.region, "Bordeaux");
    assert_eq!(w.designation_of_origin, "Pessac-Léognan");
    assert!(w.regulated_designation);
    assert_eq!(w.producer, "Château Test");
    assert_eq!(w.volume, dec(1500 * 10000));
    assert_eq!(w.alcohol_percent, dec(135000));
    assert_eq!(w.color, WineColorEnum::Red);
    assert_eq!(w.grape_varieties, vec!["Merlot", "Cabernet franc"]);
    assert!(w.available_online);
}

#[test]
fn detail_page_errors() {
    let mut p = full_page();
    p.title = None;
    assert_eq!(normalize_detail(&p).err(), Some(NormalizationError::Missing(WineField::Name)));
    let mut p = full_page();
    p.price_text = Some("free".to_string());
    assert_eq!(normalize_detail(&p).err(), Some(NormalizationError::Malformed(WineField::Price)));
    let mut p = full_page();
    p.price_text = None;
    assert_eq!(normalize_detail(&p).err(), Some(NormalizationError::Missing(WineField::Price)));
    let mut p = full_page();
    p.rows.remove(0);
    assert_eq!(normalize_detail(&p).err(), Some(NormalizationError::Missing(WineField::Country)));
    let mut p = full_page();
    p.rows.remove(4);
    assert_eq!(normalize_detail(&p).err(), Some(NormalizationError::Missing(WineField::Producer)));
    let mut p = full_page();
    p.rows.remove(5);
    assert_eq!(normalize_detail(&p).err(), Some(NormalizationError::Missing(WineField::Size)));
    let mut p = full_page();
    p.rows[7] = row("Color", "Orange");
    assert_eq!(normalize_detail(&p).err(), Some(NormalizationError::UnrecognizedColor));
    let mut p = full_page();
    p.rows.remove(7);
    assert_eq!(normalize_detail(&p).err(), Some(NormalizationError::Missing(WineField::Color)));
}

#[test]
fn detail_page_optional_fields() {
    let mut p = full_page();
    p.rows.retain(|r| r.label != "Region" && r.label != "Degree of alcohol" && r.label != "Grape variety");
    p.rows[2] = row("Regulated Designation", "Table wine");
    p.out_of_stock_online = true;
    let w = normalize_detail(&p).unwrap();
    assert_eq!(w.region, "");
    assert_eq!(w.designation_of_origin, "");
    assert!(!w.regulated_designation);
    assert_eq!(w.alcohol_percent, dec(0));
    assert!(w.grape_varieties.is_empty());
    assert!(!w.available_online);
}

#[test]
fn decimal_text_forms() {
    assert_eq!(dec(129900).to_text(0), "12.99");
    assert_eq!(dec(7500000).to_text(0), "750");
    assert_eq!(dec(-5000).to_text(0), "-0.5");
    assert_eq!(dec(1).to_text(0), "0.0001");
    assert_eq!(dec(0).to_text(0), "0");
    assert_eq!(dec(85000).to_text(2), "8.50");
    assert_eq!(dec(100000).to_text(2), "10.00");
    assert_eq!(dec(123456).to_text(2), "12.3456");
}

#[test]
fn split_edge_cases() {
    let parts = split(&chars_of(""), &chars_of(", "));
    assert_eq!(parts.len(), 1);
    assert!(parts[0].is_empty());
    assert_eq!(varieties_from_stripped(""), vec![""]);
}

#[test]
fn producer_link_text_removed() {
    let mut p = full_page();
    p.rows[4] = row("Producer", "Château Test   All products from this producer");
    assert_eq!(normalize_detail(&p).unwrap().producer, "Château Test");
    assert_eq!(wine_reco::crawler::strip_producer_link(&"Maison".to_string()), "Maison");
}

#[test]
fn units_from_digits_and_scale() {
    assert_eq!(units_from_parts(1299, 2), Some(129900));
    assert_eq!(units_from_parts(5, -2), Some(5000000));
    assert_eq!(units_from_parts(123450, 5), Some(12345));
    assert_eq!(units_from_parts(123451, 5), Some(12345));
    assert_eq!(units_from_parts(123455, 5), Some(12346));
    assert_eq!(units_from_parts(5, 1000), Some(0));
    assert_eq!(units_from_parts(0, -1000), Some(0));
    assert_eq!(units_from_parts(1, -20), None);
}
