use vstd::prelude::*;
use select::document::Document;
use select::predicate::{Attr, Class, Name, Predicate};
use crate::crawler::{DetailPage, DetailRow};
use crate::text::same_text;

verus! {

/// An element of a page, with what the crawler reads of it.
pub struct HtmlElement {
    /// The tag name, for an element node.
    pub name: Option<String>,
    /// The text of the element and its descendants.
    pub text: String,
    /// The value of the link attribute, if the element has one.
    pub href: Option<String>,
}

/// A node that carries a given attribute: the attribute's value and the
/// node's text.
pub struct AttributeNode {
    pub value: Option<String>,
    pub text: String,
}

/// An optional text, as characters.
pub open spec fn opt_view(o: Option<String>) -> Option<Seq<char>> {
    match o {
        Some(s) => Some(s@),
        None => None,
    }
}

/// An element as plain values: its tag name, its text and its link.
pub open spec fn element_view(e: HtmlElement) -> (Option<Seq<char>>, Seq<char>, Option<Seq<char>>) {
    (opt_view(e.name), e.text@, opt_view(e.href))
}

/// Elements as plain values.
pub open spec fn elements_view(s: Seq<HtmlElement>) -> Seq<
    (Option<Seq<char>>, Seq<char>, Option<Seq<char>>),
> {
    s.map_values(|e: HtmlElement| element_view(e))
}

/// A node as plain values: the attribute's value and the text.
pub open spec fn node_view(n: AttributeNode) -> (Option<Seq<char>>, Seq<char>) {
    (opt_view(n.value), n.text@)
}

/// Nodes as plain values.
pub open spec fn nodes_view(s: Seq<AttributeNode>) -> Seq<(Option<Seq<char>>, Seq<char>)> {
    s.map_values(|n: AttributeNode| node_view(n))
}

/// What select finds in an HTML text for the elements of class `class`, in
/// document order: tag name, text, and value of the attribute `link`.
pub uninterp spec fn class_elements_found(html: Seq<char>, class: Seq<char>, link: Seq<char>) -> Seq<
    (Option<Seq<char>>, Seq<char>, Option<Seq<char>>),
>;

/// What select finds in an HTML text for the elements of class `inner` inside
/// an element named `outer_tag` of class `outer_class`, in document order: tag
/// name, text, and value of the attribute `link`.
pub uninterp spec fn nested_elements_found(
    html: Seq<char>,
    outer_tag: Seq<char>,
    outer_class: Seq<char>,
    inner: Seq<char>,
    link: Seq<char>,
) -> Seq<(Option<Seq<char>>, Seq<char>, Option<Seq<char>>)>;

/// What select finds in an HTML text for the nodes that carry the attribute
/// `attr`, in document order: the attribute's value and the node's text.
pub uninterp spec fn attribute_nodes_found(html: Seq<char>, attr: Seq<char>) -> Seq<
    (Option<Seq<char>>, Seq<char>),
>;

/// Relies on select's `Document::from(&str)`, `Document::find` with
/// `Attr(attr, ())`, `Node::attr` and `Node::text`: the nodes of the parsed text
/// that carry the attribute, in document order.
#[verifier::external_body]
fn attribute_nodes(html: &str, attr: &str) -> (r: Vec<AttributeNode>)
    ensures
        nodes_view(r@) == attribute_nodes_found(html@, attr@),
{
    Document::from(html).find(Attr(attr, ())).map(
        |n| AttributeNode { value: n.attr(attr).map(String::from), text: n.text() },
    ).collect()
}

/// Relies on select's `Document::from(&str)`, `Document::find` with
/// `Class(class)`, `Node::name`, `Node::text` and `Node::attr(link)`: the
/// elements of the parsed text with that class, in document order.
#[verifier::external_body]
fn class_elements(html: &str, class: &str, link: &str) -> (r: Vec<HtmlElement>)
    ensures
        elements_view(r@) == class_elements_found(html@, class@, link@),
{
    Document::from(html).find(Class(class)).map(
        |n| HtmlElement {
            name: n.name().map(String::from),
            text: n.text(),
            href: n.attr(link).map(String::from),
        },
    ).collect()
}

/// Relies on select's `Document::from(&str)`, `Document::find` with
/// `Name(outer_tag).and(Class(outer_class)).descendant(Class(inner))`,
/// `Node::name`, `Node::text` and `Node::attr(link)`: the matching elements of
/// the parsed text, in document order.
#[verifier::external_body]
fn nested_elements(html: &str, outer_tag: &str, outer_class: &str, inner: &str, link: &str) -> (r:
    Vec<HtmlElement>)
    ensures
        elements_view(r@) == nested_elements_found(html@, outer_tag@, outer_class@, inner@, link@),
{
    Document::from(html).find(Name(outer_tag).and(Class(outer_class)).descendant(Class(inner))).map(
        |n| HtmlElement {
            name: n.name().map(String::from),
            text: n.text(),
            href: n.attr(link).map(String::from),
        },
    ).collect()
}

/// What a product listing page shows.
pub struct ListingPage {
    /// The product pages it links to, in order.
    pub links: Vec<String>,
    /// The next listing page, if any.
    pub next_page: Option<String>,
}

/// The link targets of the anchors among the first `n` elements, in order.
pub open spec fn anchor_links(
    elements: Seq<(Option<Seq<char>>, Seq<char>, Option<Seq<char>>)>,
    n: int,
) -> Seq<Seq<char>>
    decreases n,
{
    if n <= 0 {
        Seq::empty()
    } else if elements[n - 1].0 == Some("a"@) && elements[n - 1].2 is Some {
        anchor_links(elements, n - 1).push(elements[n - 1].2->0)
    } else {
        anchor_links(elements, n - 1)
    }
}

/// The link targets of all the anchors among `elements`.
pub open spec fn all_anchor_links(elements: Seq<(Option<Seq<char>>, Seq<char>, Option<Seq<char>>)>) -> Seq<
    Seq<char>,
> {
    anchor_links(elements, elements.len() as int)
}

/// The target of the first anchor with a link among `elements`.
pub open spec fn first_anchor(elements: Seq<(Option<Seq<char>>, Seq<char>, Option<Seq<char>>)>) -> Option<
    Seq<char>,
> {
    let links = all_anchor_links(elements);
    if links.len() > 0 {
        Some(links[0])
    } else {
        None
    }
}

fn is_named(e: &HtmlElement, tag: &str) -> (r: bool)
    ensures
        r == (element_view(*e).0 == Some(tag@)),
{
    match &e.name {
        Some(n) => same_text(n.as_str(), tag),
        None => false,
    }
}

fn collect_links(elements: &Vec<HtmlElement>) -> (r: Vec<String>)
    ensures
        r@.len() == all_anchor_links(elements_view(elements@)).len(),
        forall|k: int|
            0 <= k < r@.len() ==> #[trigger] r@[k]@ == all_anchor_links(elements_view(elements@))[k],
{
    let ghost ev = elements_view(elements@);
    let mut r: Vec<String> = Vec::new();
    let mut i: usize = 0;
    while i < elements.len()
        invariant
            i <= elements@.len(),
            ev == elements_view(elements@),
            ev.len() == elements@.len(),
            r@.len() == anchor_links(ev, i as int).len(),
            forall|k: int| 0 <= k < r@.len() ==> #[trigger] r@[k]@ == anchor_links(ev, i as int)[k],
        decreases elements.len() - i,
    {
        let e = &elements[i];
        assert(ev[i as int] == element_view(*e));
        if is_named(e, "a") {
            match &e.href {
                Some(h) => {
                    r.push(h.clone());
                },
                None => {},
            }
        }
        i = i + 1;
    }
    r
}

/// Reads a listing page from its product elements and its next-page elements:
/// the links of the anchors among the first, and the link of the first anchor
/// among the second.
pub fn listing_from_elements(products: &Vec<HtmlElement>, next: &Vec<HtmlElement>) -> (r:
    ListingPage)
    ensures
        r.links@.len() == all_anchor_links(elements_view(products@)).len(),
        forall|k: int|
            0 <= k < r.links@.len() ==> #[trigger] r.links@[k]@ == all_anchor_links(
                elements_view(products@),
            )[k],
        opt_view(r.next_page) == first_anchor(elements_view(next@)),
{
    let links = collect_links(products);
    let nexts = collect_links(next);
    let next_page = if nexts.len() > 0 {
        Some(nexts[0].clone())
    } else {
        None
    };
    ListingPage { links, next_page }
}

/// The product elements of a listing page: those of class
/// `product-item-photo` inside a `div` of class `product-item-info`.
pub open spec fn product_elements(html: Seq<char>) -> Seq<
    (Option<Seq<char>>, Seq<char>, Option<Seq<char>>),
> {
    nested_elements_found(html, "div"@, "product-item-info"@, "product-item-photo"@, "href"@)
}

/// The next-page elements of a listing page: those of class `next`.
pub open spec fn next_elements(html: Seq<char>) -> Seq<(Option<Seq<char>>, Seq<char>, Option<Seq<char>>)> {
    class_elements_found(html, "next"@, "href"@)
}

/// Reads a listing page from its HTML text: the links of the anchors among its
/// product elements, and the link of the first anchor among its next-page
/// elements.
pub fn listing_page_of_html(html: &str) -> (r: ListingPage)
    ensures
        r.links@.len() == all_anchor_links(product_elements(html@)).len(),
        forall|k: int|
            0 <= k < r.links@.len() ==> #[trigger] r.links@[k]@ == all_anchor_links(
                product_elements(html@),
            )[k],
        opt_view(r.next_page) == first_anchor(next_elements(html@)),
{
    let products = nested_elements(html, "div", "product-item-info", "product-item-photo", "href");
    let next = class_elements(html, "next", "href");
    listing_from_elements(&products, &next)
}

/// The text of the first element named `tag`, from position `n` on.
pub open spec fn first_text_named(
    elements: Seq<(Option<Seq<char>>, Seq<char>, Option<Seq<char>>)>,
    tag: Seq<char>,
    n: int,
) -> Option<Seq<char>>
    decreases elements.len() - n,
{
    if n < 0 || n >= elements.len() {
        None
    } else if elements[n].0 == Some(tag) {
        Some(elements[n].1)
    } else {
        first_text_named(elements, tag, n + 1)
    }
}

/// The text of the first node whose attribute has the value `value`, from
/// position `n` on.
pub open spec fn first_text_valued(
    nodes: Seq<(Option<Seq<char>>, Seq<char>)>,
    value: Seq<char>,
    n: int,
) -> Option<Seq<char>>
    decreases nodes.len() - n,
{
    if n < 0 || n >= nodes.len() {
        None
    } else if nodes[n].0 == Some(value) {
        Some(nodes[n].1)
    } else {
        first_text_valued(nodes, value, n + 1)
    }
}

/// The detail rows that the first `n` nodes give, label and value, in order.
pub open spec fn rows_of(nodes: Seq<(Option<Seq<char>>, Seq<char>)>, n: int) -> Seq<
    (Seq<char>, Seq<char>),
>
    decreases n,
{
    if n <= 0 {
        Seq::empty()
    } else if nodes[n - 1].0 is Some {
        rows_of(nodes, n - 1).push((nodes[n - 1].0->0, nodes[n - 1].1))
    } else {
        rows_of(nodes, n - 1)
    }
}

/// The text of the first element named `tag`.
fn first_named_text(elements: &Vec<HtmlElement>, tag: &str) -> (r: Option<String>)
    ensures
        opt_view(r) == first_text_named(elements_view(elements@), tag@, 0),
{
    let ghost ev = elements_view(elements@);
    let mut i: usize = 0;
    while i < elements.len()
        invariant
            i <= elements@.len(),
            ev == elements_view(elements@),
            ev.len() == elements@.len(),
            first_text_named(ev, tag@, 0) == first_text_named(ev, tag@, i as int),
        decreases elements.len() - i,
    {
        assert(ev[i as int] == element_view(elements@[i as int]));
        if is_named(&elements[i], tag) {
            return Some(elements[i].text.clone());
        }
        i = i + 1;
    }
    None
}

/// The text of the first node whose attribute has the value `value`.
fn first_valued_text(nodes: &Vec<AttributeNode>, value: &str) -> (r: Option<String>)
    ensures
        opt_view(r) == first_text_valued(nodes_view(nodes@), value@, 0),
{
    let ghost nv = nodes_view(nodes@);
    let mut j: usize = 0;
    while j < nodes.len()
        invariant
            j <= nodes@.len(),
            nv == nodes_view(nodes@),
            nv.len() == nodes@.len(),
            first_text_valued(nv, value@, 0) == first_text_valued(nv, value@, j as int),
        decreases nodes.len() - j,
    {
        assert(nv[j as int] == node_view(nodes@[j as int]));
        let found = match &nodes[j].value {
            Some(v) => same_text(v.as_str(), value),
            None => false,
        };
        if found {
            return Some(nodes[j].text.clone());
        }
        j = j + 1;
    }
    None
}

/// Whether a page's detail list holds exactly the given rows, in order.
pub open spec fn rows_are(rows: Seq<DetailRow>, expected: Seq<(Seq<char>, Seq<char>)>) -> bool {
    &&& rows.len() == expected.len()
    &&& forall|k: int| 0 <= k < rows.len() ==> ((#[trigger] rows[k]).label@, rows[k].value@) == expected[k]
}

/// Reads a product page from what it shows: the text of the first `h1` among
/// `titles`, the text of the first price node marked `finalPrice`, the labelled
/// detail rows, and whether any out-of-stock marker is present.
pub fn detail_from_parts(
    titles: &Vec<HtmlElement>,
    prices: &Vec<AttributeNode>,
    labelled: &Vec<AttributeNode>,
    out_of_stock: &Vec<HtmlElement>,
) -> (r: DetailPage)
    ensures
        opt_view(r.title) == first_text_named(elements_view(titles@), "h1"@, 0),
        opt_view(r.price_text) == first_text_valued(nodes_view(prices@), "finalPrice"@, 0),
        rows_are(r.rows@, rows_of(nodes_view(labelled@), labelled@.len() as int)),
        r.out_of_stock_online == (out_of_stock@.len() > 0),
{
    let title = first_named_text(titles, "h1");
    let price_text = first_valued_text(prices, "finalPrice");
    let ghost lv = nodes_view(labelled@);
    let mut rows: Vec<DetailRow> = Vec::new();
    let mut k: usize = 0;
    while k < labelled.len()
        invariant
            k <= labelled@.len(),
            lv == nodes_view(labelled@),
            lv.len() == labelled@.len(),
            rows_are(rows@, rows_of(lv, k as int)),
        decreases labelled.len() - k,
    {
        assert(lv[k as int] == node_view(labelled@[k as int]));
        match &labelled[k].value {
            Some(v) => {
                rows.push(DetailRow { label: v.clone(), value: labelled[k].text.clone() });
            },
            None => {},
        }
        k = k + 1;
    }
    DetailPage { title, price_text, rows, out_of_stock_online: out_of_stock.len() > 0 }
}

/// The title elements of a product page: those of class `page-title`.
pub open spec fn title_elements(html: Seq<char>) -> Seq<(Option<Seq<char>>, Seq<char>, Option<Seq<char>>)> {
    class_elements_found(html, "page-title"@, "href"@)
}

/// The price nodes of a product page: those carrying `data-price-type`.
pub open spec fn price_nodes(html: Seq<char>) -> Seq<(Option<Seq<char>>, Seq<char>)> {
    attribute_nodes_found(html, "data-price-type"@)
}

/// The labelled nodes of a product page: those carrying `data-th`.
pub open spec fn labelled_nodes(html: Seq<char>) -> Seq<(Option<Seq<char>>, Seq<char>)> {
    attribute_nodes_found(html, "data-th"@)
}

/// The out-of-stock markers of a product page: elements of class
/// `out-of-stock-online`.
pub open spec fn stock_markers(html: Seq<char>) -> Seq<(Option<Seq<char>>, Seq<char>, Option<Seq<char>>)> {
    class_elements_found(html, "out-of-stock-online"@, "href"@)
}

/// Reads a product page from its HTML text: the text of the first `h1` among
/// its title elements, the text of the first price node marked `finalPrice`,
/// the rows labelled by `data-th`, and whether an out-of-stock marker is
/// present.
pub fn detail_page_of_html(html: &str) -> (r: DetailPage)
    ensures
        opt_view(r.title) == first_text_named(title_elements(html@), "h1"@, 0),
        opt_view(r.price_text) == first_text_valued(price_nodes(html@), "finalPrice"@, 0),
        rows_are(r.rows@, rows_of(labelled_nodes(html@), labelled_nodes(html@).len() as int)),
        r.out_of_stock_online == (stock_markers(html@).len() > 0),
{
    let titles = class_elements(html, "page-title", "href");
    let prices = attribute_nodes(html, "data-price-type");
    let labelled = attribute_nodes(html, "data-th");
    let out_of_stock = class_elements(html, "out-of-stock-online", "href");
    detail_from_parts(&titles, &prices, &labelled, &out_of_stock)
}

} // verus!
