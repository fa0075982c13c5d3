use wine_reco::crawler::{CrawlAction, CrawlEvent, CrawlJob, CrawlStage, CrawlStatus, DetailPage, DetailRow};
use wine_reco::page::{detail_page_of_html, listing_page_of_html, ListingPage};
use wine_reco::types::WineColorEnum;

const LISTING: &str = r#"<html><body>
<div class="product-item-info"><a class="product-item-photo" href="https://shop/wine-a">one</a></div>
<div class="product-item-info"><a class="product-item-photo" href="https://shop/wine-b">two</a></div>
<a class="other" href="https://shop/ignored">x</a>
<a class="action next" href="https://shop/list?p=2">Next</a>
</body></html>"#;

const DETAIL: &str = r#"<html><body>
<h1 class="page-title"> Vin Rouge </h1>
<span data-price-type="finalPrice" data-price-amount="12.99">$12,99*</span>
<ul>
<li><strong>Country</strong><span data-th="Country"> France </span></li>
<li><span data-th="Producer">Maison X</span></li>
<li><span data-th="Size">750 ml</span></li>
<li><span data-th="Color">Red</span></li>
<li><span data-th="Grape variety">Merlot 60 %, Malbec 40 %</span></li>
</ul>
<div class="out-of-stock-online">Out of stock online</div>
</body></html>"#;

fn page(links: &[&str], next: Option<&str>) -> ListingPage {
    ListingPage { links: links.iter().map(|l| l.to_string()).collect(), next_page: next.map(String::from) }
}

fn good_detail() -> DetailPage {
    let row = |l: &str, v: &str| DetailRow { label: l.to_string(), value: v.to_string() };
    DetailPage {
        title: Some("Vin".to_string()),
        price_text: Some("$10.00".to_string()),
        rows: vec![row("Country", "France"), row("Producer", "P"), row("Size", "750 ml"), row("Color", "red")],
        out_of_stock_online: false,
    }
}

#[test]
fn listing_page_read_from_html() {
    let listing = listing_page_of_html(LISTING);
    assert_eq!(listing.links, vec!["https://shop/wine-a", "https://shop/wine-b"]);
    assert_eq!(listing.next_page, Some("https://shop/list?p=2".to_string()));
    let last = listing_page_of_html("<html><body><p>none</p></body></html>");
    assert!(last.links.is_empty());
    assert_eq!(last.next_page, None);
}

#[test]
fn detail_page_read_from_html() {
    let p = detail_page_of_html(DETAIL);
    assert_eq!(p.title, Some(" Vin Rouge ".to_string()));
    assert_eq!(p.price_text, Some("$12,99*".to_string()));
    assert_eq!(p.rows.len(), 5);
    assert_eq!(p.rows[0].label, "Country");
    assert_eq!(p.rows[0].value, " France ");
    assert!(p.out_of_stock_online);
    let w = wine_reco::crawler::normalize_detail(&p).unwrap();
    assert_eq!(w.name, "Vin Rouge");
    assert_eq!(w.color, WineColorEnum::Red);
    assert_eq!(w.grape_varieties, vec!["Merlot", "Malbec"]);
    assert!(!w.available_online);
}

#[test]
fn crawl_walks_pages_and_skips_failures() {
    let mut job = CrawlJob::new("https://shop/list".to_string());
    assert_eq!(job.status(), CrawlStatus::Idle);
    assert!(matches!(job.step(CrawlEvent::Start), CrawlAction::ClearCatalog));
    assert_eq!(job.status(), CrawlStatus::Running);
    match job.step(CrawlEvent::Cleared) {
        CrawlAction::FetchListing(u) => assert_eq!(u, "https://shop/list"),
        _ => panic!("expected the first listing page"),
    }
    match job.step(CrawlEvent::ListingFetched(page(&["wine-a", "wine-b"], Some("list2")))) {
        CrawlAction::FetchDetail(u) => assert_eq!(u, "wine-a"),
        _ => panic!("expected the first product"),
    }
    match job.step(CrawlEvent::DetailFetched(good_detail())) {
        CrawlAction::Store(w) => assert_eq!(w.country, "France"),
        _ => panic!("expected a store"),
    }
    assert_eq!(job.stage, CrawlStage::Storing);
    match job.step(CrawlEvent::Stored) {
        CrawlAction::FetchDetail(u) => assert_eq!(u, "wine-b"),
        _ => panic!("expected the second product"),
    }
    match job.step(CrawlEvent::DetailFailed) {
        CrawlAction::FetchListing(u) => assert_eq!(u, "list2"),
        _ => panic!("expected the next listing page"),
    }
    match job.step(CrawlEvent::ListingFetched(page(&["wine-c"], None))) {
        CrawlAction::FetchDetail(u) => assert_eq!(u, "wine-c"),
        _ => panic!("expected the last product"),
    }
    let mut bad = good_detail();
    bad.rows[3].value = "blue".to_string();
    assert!(matches!(job.step(CrawlEvent::DetailFetched(bad)), CrawlAction::Finish));
    assert_eq!(job.status(), CrawlStatus::Succeeded);
    assert_eq!(job.stored, 1);
    assert_eq!(job.skipped, 2);
    assert!(matches!(job.step(CrawlEvent::Stored), CrawlAction::Wait));
}

#[test]
fn crawl_fails_on_listing_error() {
    let mut job = CrawlJob::new("https://shop/list".to_string());
    assert!(matches!(job.step(CrawlEvent::Cleared), CrawlAction::Wait));
    job.step(CrawlEvent::Start);
    job.step(CrawlEvent::Cleared);
    assert!(matches!(job.step(CrawlEvent::ListingFailed), CrawlAction::Abort));
    assert_eq!(job.status(), CrawlStatus::Failed);
}

#[test]
fn crawl_cancel() {
    let mut job = CrawlJob::new("o".to_string());
    assert!(matches!(job.step(CrawlEvent::Cancel), CrawlAction::Wait));
    job.step(CrawlEvent::Start);
    assert!(matches!(job.step(CrawlEvent::Cancel), CrawlAction::Abort));
    assert_eq!(job.status(), CrawlStatus::Failed);
}

#[test]
fn empty_listing_finishes() {
    let mut job = CrawlJob::new("o".to_string());
    job.step(CrawlEvent::Start);
    job.step(CrawlEvent::Cleared);
    assert!(matches!(job.step(CrawlEvent::ListingFetched(page(&[], None))), CrawlAction::Finish));
    assert_eq!(job.status(), CrawlStatus::Succeeded);
}

#[test]
fn product_links_need_div_container() {
    let html = r#"<html><body>
<section class="product-item-info"><a class="product-item-photo" href="https://shop/outside">x</a></section>
<div class="product-item-info"><a class="product-item-photo" href="https://shop/inside">y</a></div>
</body></html>"#;
    assert_eq!(listing_page_of_html(html).links, vec!["https://shop/inside"]);
}
