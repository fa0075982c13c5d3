use wine_reco::controllers::{is_authorized, may_edit};
use wine_reco::decimal::Decimal;
use wine_reco::matcher::{match_wines, reco_matches, sort_by_unit_price, QueryError, WineCriteria, WineRow};
use wine_reco::models::{password_matches, hash_password, compute_salt, SaqWine, User, WineRecommendation};
use wine_reco::text::{chars_of, ilike, like_text};
use wine_reco::types::WineColorEnum;
use wine_reco::utils::{dedup_wines, is_dup_wine};

fn dec(units: i64) -> Decimal {
    Decimal { units }
}

fn wine(id: i32, country: &str, color: WineColorEnum, price: i64, volume_ml: i64) -> SaqWine {
    SaqWine {
        id,
        name: format!("Wine {}", id),
        country: country.to_string(),
        region: "Somewhere".to_string(),
        designation_of_origin: "AOC Somewhere".to_string(),
        regulated_designation: true,
        producer: "Maison".to_string(),
        volume: dec(volume_ml * 10000),
        price: dec(price * 10000),
        alcohol_percent: dec(130000),
        color,
        grape_varieties: vec!["Merlot".to_string(), "Cabernet%".to_string()],
        available_online: true,
    }
}

fn reco(id: i32, color: WineColorEnum, rating: i32) -> WineRecommendation {
    WineRecommendation {
        id,
        country: String::new(),
        region: String::new(),
        designation_of_origin: String::new(),
        producer: String::new(),
        rating,
        color,
        grape_variety: String::new(),
        user_id: None,
        name: String::new(),
    }
}

fn no_criteria() -> WineCriteria {
    WineCriteria { min_rating: None, max_price: None, color: None, available_online: None }
}

fn row(id: i32, rating: i32) -> WineRow {
    WineRow {
        id,
        name: format!("Wine {}", id),
        available_online: true,
        country: "France".to_string(),
        region: String::new(),
        designation_of_origin: String::new(),
        producer: String::new(),
        color: WineColorEnum::Red,
        volume: dec(7500000),
        price: dec(100000),
        rating,
    }
}

fn ids_ratings(rows: &[WineRow]) -> Vec<(i32, i32)> {
    rows.iter().map(|r| (r.id, r.rating)).collect()
}

#[test]
fn like_patterns() {
    assert!(like_text(&chars_of("bordeaux"), &chars_of("bord%")));
    assert!(like_text(&chars_of("bordeaux"), &chars_of("b_rdeaux")));
    assert!(!like_text(&chars_of("bordeaux"), &chars_of("bord")));
    assert!(like_text(&chars_of("50%"), &chars_of("50\\%")));
    assert!(!like_text(&chars_of("50x"), &chars_of("50\\%")));
    assert!(like_text(&chars_of(""), &chars_of("%")));
}

#[test]
fn ilike_ignores_case() {
    assert!(ilike("FRANCE", "france"));
    assert!(ilike("France", "FR%"));
    assert!(!ilike("Italy", "france"));
}

#[test]
fn empty_recommendation_matches_by_colour() {
    let r = reco(1, WineColorEnum::Red, 3);
    assert!(reco_matches(&wine(1, "France", WineColorEnum::Red, 10, 750), &r));
    assert!(reco_matches(&wine(2, "Chile", WineColorEnum::Red, 99, 1500), &r));
    assert!(!reco_matches(&wine(3, "France", WineColorEnum::White, 10, 750), &r));
}

#[test]
fn recommendation_fields_filter() {
    let w = wine(1, "France", WineColorEnum::Red, 10, 750);
    let mut r = reco(1, WineColorEnum::Red, 3);
    r.country = "france".to_string();
    assert!(reco_matches(&w, &r));
    r.designation_of_origin = "aoc".to_string();
    assert!(reco_matches(&w, &r));
    r.name = "WINE".to_string();
    assert!(reco_matches(&w, &r));
    r.grape_variety = "cabernet sauvignon".to_string();
    assert!(reco_matches(&w, &r));
    r.grape_variety = "Syrah".to_string();
    assert!(!reco_matches(&w, &r));
    r.grape_variety = String::new();
    r.producer = "Other".to_string();
    assert!(!reco_matches(&w, &r));
    r.producer = String::new();
    r.region = "Elsewhere".to_string();
    assert!(!reco_matches(&w, &r));
    r.region = String::new();
    r.country = "Fr".to_string();
    assert!(!reco_matches(&w, &r));
}

#[test]
fn end_to_end_orders_by_unit_price() {
    let catalog = vec![
        wine(1, "France", WineColorEnum::Red, 20, 750),
        wine(2, "Italy", WineColorEnum::Red, 10, 750),
    ];
    let recos = vec![reco(1, WineColorEnum::Red, 5)];
    let rows = match_wines(&catalog, &recos, &no_criteria(), None).unwrap();
    assert_eq!(ids_ratings(&rows), vec![(2, 5), (1, 5)]);
    assert_eq!(rows[0].country, "Italy");
    assert_eq!(rows[1].price, dec(200000));
}

#[test]
fn bottle_price_ceiling() {
    let catalog = vec![wine(1, "France", WineColorEnum::Red, 30, 1500)];
    let recos = vec![reco(1, WineColorEnum::Red, 4)];
    let mut criteria = no_criteria();
    criteria.max_price = Some("15".to_string());
    assert_eq!(match_wines(&catalog, &recos, &criteria, None).unwrap().len(), 1);
    criteria.max_price = Some("14.99".to_string());
    assert_eq!(match_wines(&catalog, &recos, &criteria, None).unwrap().len(), 0);
    criteria.max_price = Some("cheap".to_string());
    assert_eq!(match_wines(&catalog, &recos, &criteria, None).err(), Some(QueryError::MalformedMaxPrice));
}

#[test]
fn criteria_filters() {
    let mut white = wine(2, "Italy", WineColorEnum::White, 10, 750);
    white.available_online = false;
    let catalog = vec![wine(1, "France", WineColorEnum::Red, 20, 750), white];
    let mut mine = reco(2, WineColorEnum::White, 2);
    mine.user_id = Some(7);
    let recos = vec![reco(1, WineColorEnum::Red, 5), mine];
    let mut criteria = no_criteria();
    criteria.min_rating = Some(3);
    assert_eq!(ids_ratings(&match_wines(&catalog, &recos, &criteria, None).unwrap()), vec![(1, 5)]);
    let mut criteria = no_criteria();
    criteria.color = Some(WineColorEnum::White);
    assert_eq!(ids_ratings(&match_wines(&catalog, &recos, &criteria, None).unwrap()), vec![(2, 2)]);
    let mut criteria = no_criteria();
    criteria.available_online = Some(true);
    assert_eq!(ids_ratings(&match_wines(&catalog, &recos, &criteria, None).unwrap()), vec![(1, 5)]);
    assert_eq!(ids_ratings(&match_wines(&catalog, &recos, &no_criteria(), Some(7)).unwrap()), vec![(2, 2)]);
    assert!(match_wines(&catalog, &recos, &no_criteria(), Some(8)).unwrap().is_empty());
}

#[test]
fn duplicates_keep_highest_rating() {
    let catalog = vec![wine(1, "France", WineColorEnum::Red, 20, 750)];
    let mut high = reco(2, WineColorEnum::Red, 5);
    high.country = "France".to_string();
    let recos = vec![reco(1, WineColorEnum::Red, 3), high, reco(3, WineColorEnum::Red, 4)];
    let rows = match_wines(&catalog, &recos, &no_criteria(), None).unwrap();
    assert_eq!(ids_ratings(&rows), vec![(1, 5)]);
}

#[test]
fn dedup_is_idempotent() {
    let rows = vec![row(1, 3), row(2, 4), row(1, 5), row(3, 1), row(2, 4), row(1, 2)];
    let once = dedup_wines(&rows);
    assert_eq!(ids_ratings(&once), vec![(1, 5), (3, 1), (2, 4)]);
    let twice = dedup_wines(&once);
    assert_eq!(ids_ratings(&twice), ids_ratings(&once));
}

#[test]
fn dedup_tie_keeps_last() {
    let mut a = row(1, 4);
    a.name = "first".to_string();
    let mut b = row(1, 4);
    b.name = "second".to_string();
    let once = dedup_wines(&vec![a, b]);
    assert_eq!(once.len(), 1);
    assert_eq!(once[0].name, "second");
}

#[test]
fn dup_wine_detection() {
    let rows = vec![row(1, 3), row(1, 5), row(2, 1)];
    assert!(is_dup_wine(&rows, &rows[0], 0));
    assert!(!is_dup_wine(&rows, &rows[1], 1));
    assert!(!is_dup_wine(&rows, &rows[2], 2));
}

#[test]
fn sort_is_stable_by_unit_price() {
    let mut a = row(1, 1);
    a.price = dec(200000);
    let mut b = row(2, 1);
    b.price = dec(300000);
    b.volume = dec(15000000);
    let c = row(3, 1);
    let sorted = sort_by_unit_price(vec![a, b, c]);
    assert_eq!(ids_ratings(&sorted), vec![(3, 1), (2, 1), (1, 1)]);
}

#[test]
fn password_hash_checks() {
    let salt = compute_salt(&"a@b.c".to_string(), "a secret key");
    assert_eq!(salt.len(), 32);
    assert_ne!(salt, compute_salt(&"x@b.c".to_string(), "a secret key"));
    let digest = hash_password(&"hunter22".to_string(), salt.clone());
    assert_eq!(digest.len(), 32);
    assert_ne!(digest, b"hunter22".to_vec());
    let user = User { id: 1, email: "a@b.c".to_string(), admin: false, salt, password: digest };
    assert!(password_matches(&"hunter22".to_string(), &user));
    assert!(!password_matches(&"hunter23".to_string(), &user));
    let short = User { salt: vec![1, 2, 3], ..user };
    assert!(!password_matches(&"hunter22".to_string(), &short));
}

#[test]
fn authorization_and_ownership() {
    assert!(is_authorized(Some("s3cr3t"), "s3cr3t"));
    assert!(!is_authorized(Some("guess"), "s3cr3t"));
    assert!(!is_authorized(None, "s3cr3t"));
    let mut r = reco(4, WineColorEnum::Pink, 1);
    r.user_id = Some(9);
    assert!(may_edit(&r, 9, 4));
    assert!(!may_edit(&r, 8, 4));
    assert!(!may_edit(&r, 9, 5));
}

#[test]
fn row_display_texts() {
    let r = row(1, 3);
    assert_eq!(r.volume_text(), "750 ml");
    assert_eq!(r.price_text(), "$10.00");
    let mut r2 = row(2, 3);
    r2.price = dec(129900);
    assert_eq!(r2.price_text(), "$12.99");
}

#[test]
fn empty_inputs() {
    assert!(match_wines(&vec![], &vec![reco(1, WineColorEnum::Red, 1)], &no_criteria(), None).unwrap().is_empty());
    assert!(match_wines(&vec![wine(1, "France", WineColorEnum::Red, 1, 750)], &vec![], &no_criteria(), None)
        .unwrap()
        .is_empty());
    assert!(dedup_wines(&vec![]).is_empty());
    assert!(sort_by_unit_price(vec![]).is_empty());
    assert!(like_text(&chars_of(""), &chars_of("")));
    assert!(!like_text(&chars_of("a"), &chars_of("")));
}

#[test]
fn login_error_status() {
    assert_eq!(wine_reco::errors::LoginError::ValidationError.status_code(), 400);
}

#[test]
fn wine_without_volume_not_listed() {
    let catalog = vec![wine(1, "France", WineColorEnum::Red, 20, 0), wine(2, "Italy", WineColorEnum::Red, 10, 750)];
    let recos = vec![reco(1, WineColorEnum::Red, 5)];
    let rows = match_wines(&catalog, &recos, &no_criteria(), None).unwrap();
    assert_eq!(ids_ratings(&rows), vec![(2, 5)]);
}

#[test]
fn empty_recommendation_selects_its_colour() {
    let catalog = vec![
        wine(1, "France", WineColorEnum::Red, 20, 750),
        wine(2, "Italy", WineColorEnum::White, 10, 750),
        wine(3, "Chile", WineColorEnum::Red, 15, 1500),
    ];
    let recos = vec![reco(1, WineColorEnum::Red, 2)];
    let mut ids: Vec<i32> = match_wines(&catalog, &recos, &no_criteria(), None).unwrap().iter().map(|r| r.id).collect();
    ids.sort();
    assert_eq!(ids, vec![1, 3]);
}
