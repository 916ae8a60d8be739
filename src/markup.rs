//! The markup contract of the price list: locating the list, its entries and
//! each entry's field nodes in a document.

use vstd::prelude::*;
use scraper::{Html, Selector};
use crate::error::{ErrorKind, ParseError};

verus! {

/// The container of the price list.
pub const LIST_SELECTOR: &'static str = ".PriceList";
/// An entry of the list; advertisements are left out.
pub const ITEM_SELECTOR: &'static str = ".PriceList__item:not(.list-ad)";
/// The station's name inside an entry.
pub const NAME_SELECTOR: &'static str = ".PriceList__itemTitle";
/// The station's address inside an entry.
pub const ADDR_SELECTOR: &'static str = ".PriceList__itemSubtitle";
/// The time of the last price update inside an entry.
pub const UPDATED_SELECTOR: &'static str = ".PriceList__itemUpdated";
/// The price inside an entry.
pub const PRICE_SELECTOR: &'static str = ".PriceList__itemPrice";

/// The entries of the document `markup` as scraper reads them, with
/// attributes written in source order: the inner markup of each descendant
/// matching `item` of the first element matching `list`, in document order.
/// `None` when no element matches `list` or a selector is refused.
pub uninterp spec fn entries_of(markup: Seq<char>, list: Seq<char>, item: Seq<char>) -> Option<Seq<Seq<char>>>;

/// The inner markup of the first descendant matching `field` of the entry at
/// position `k` (as `entries_of` counts them) of the document `markup`.
/// `None` when there is no such entry or node, or a selector is refused.
pub uninterp spec fn entry_field_of(
    markup: Seq<char>,
    list: Seq<char>,
    item: Seq<char>,
    k: int,
    field: Seq<char>,
) -> Option<Seq<char>>;

/// Relies on scraper::Selector::parse, scraper::Html::parse_document,
/// scraper::Html::select, scraper::ElementRef::select and
/// scraper::ElementRef::inner_html. Parsing builds the same tree from the
/// same text, and with scraper's `deterministic` feature (asked for in
/// Cargo.toml) each element keeps its attributes in source order, so
/// `inner_html` writes the same text for the same tree: what the selectors
/// find, and its markup, depends on the three strings alone.
#[verifier::external_body]
fn entries(markup: &str, list: &str, item: &str) -> (r: Option<Vec<String>>)
    ensures
        r.deep_view() == entries_of(markup@, list@, item@),
{
    let (list, item) = (Selector::parse(list).ok()?, Selector::parse(item).ok()?);
    let document = Html::parse_document(markup);
    let found = document.select(&list).next()?;
    Some(found.select(&item).map(|e| e.inner_html()).collect())
}

/// Relies on the same scraper functions as `entries`, on the tree parsed
/// again from the same text: the entry at position `k`, then its first
/// descendant matching `field`. With the `deterministic` feature this tree,
/// and the markup written from it, are those that `entries` read.
#[verifier::external_body]
fn entry_field(markup: &str, list: &str, item: &str, k: usize, field: &str) -> (r: Option<String>)
    ensures
        r.deep_view() == entry_field_of(markup@, list@, item@, k as int, field@),
{
    let (list, item) = (Selector::parse(list).ok()?, Selector::parse(item).ok()?);
    let field = Selector::parse(field).ok()?;
    let document = Html::parse_document(markup);
    let entry = document.select(&list).next()?.select(&item).nth(k)?;
    entry.select(&field).next().map(|f| f.inner_html())
}

/// One entry of the price list, as the markup of each of its field nodes:
/// `None` where the entry has no such node.
#[derive(Debug, Clone, PartialEq, Eq)]
pub struct RawItem {
    /// The inner markup of the whole entry.
    pub html: String,
    pub name: Option<String>,
    pub addr: Option<String>,
    pub updated: Option<String>,
    pub price: Option<String>,
}

pub struct RawItemView {
    pub html: Seq<char>,
    pub name: Option<Seq<char>>,
    pub addr: Option<Seq<char>>,
    pub updated: Option<Seq<char>>,
    pub price: Option<Seq<char>>,
}

impl View for RawItem {
    type V = RawItemView;

    open spec fn view(&self) -> RawItemView {
        RawItemView {
            html: self.html@,
            name: self.name.deep_view(),
            addr: self.addr.deep_view(),
            updated: self.updated.deep_view(),
            price: self.price.deep_view(),
        }
    }
}

/// The entry at position `k` of the price list of `markup`.
pub open spec fn scraped_item(markup: Seq<char>, k: int) -> RawItemView {
    let field = |sel: Seq<char>| entry_field_of(markup, LIST_SELECTOR@, ITEM_SELECTOR@, k, sel);
    RawItemView {
        html: entries_of(markup, LIST_SELECTOR@, ITEM_SELECTOR@)->Some_0[k],
        name: field(NAME_SELECTOR@),
        addr: field(ADDR_SELECTOR@),
        updated: field(UPDATED_SELECTOR@),
        price: field(PRICE_SELECTOR@),
    }
}

/// The entries of the price list of `markup`, in document order; `None`
/// when the document has no price list.
pub open spec fn scraped_items(markup: Seq<char>) -> Option<Seq<RawItemView>> {
    match entries_of(markup, LIST_SELECTOR@, ITEM_SELECTOR@) {
        None => None,
        Some(es) => Some(Seq::new(es.len(), |k: int| scraped_item(markup, k))),
    }
}

/// The entries of the price list of a document, in document order, each with
/// the markup of its field nodes; `ListNotFoundError` exactly when the
/// document has no price list. Each field read parses the document again, so
/// that every read is a function of the markup alone.
pub fn collect_items(markup: &str) -> (r: Result<Vec<RawItem>, ParseError>)
    ensures
        r is Err <==> scraped_items(markup@) is None,
        r matches Err(e) ==> e.spec_kind() == ErrorKind::ListNotFound,
        r matches Ok(v) ==> scraped_items(markup@) == Some(v@.map_values(|x: RawItem| x@)),
{
    let found = match entries(markup, LIST_SELECTOR, ITEM_SELECTOR) {
        Some(found) => found,
        None => return Err(ParseError::ListNotFoundError),
    };
    let ghost es = found.deep_view();
    let mut items: Vec<RawItem> = Vec::new();
    let mut k: usize = 0;
    while k < found.len()
        invariant
            k <= found@.len(),
            es == found.deep_view(),
            Some(es) == entries_of(markup@, LIST_SELECTOR@, ITEM_SELECTOR@),
            items@.len() == k,
            forall|j: int| 0 <= j < k ==> #[trigger] items@[j]@ == scraped_item(markup@, j),
        decreases found@.len() - k,
    {
        let item = RawItem {
            html: found[k].clone(),
            name: entry_field(markup, LIST_SELECTOR, ITEM_SELECTOR, k, NAME_SELECTOR),
            addr: entry_field(markup, LIST_SELECTOR, ITEM_SELECTOR, k, ADDR_SELECTOR),
            updated: entry_field(markup, LIST_SELECTOR, ITEM_SELECTOR, k, UPDATED_SELECTOR),
            price: entry_field(markup, LIST_SELECTOR, ITEM_SELECTOR, k, PRICE_SELECTOR),
        };
        assert(item@ == scraped_item(markup@, k as int));
        items.push(item);
        k = k + 1;
    }
    assert(Seq::new(es.len(), |j: int| scraped_item(markup@, j)) =~= items@.map_values(|x: RawItem| x@));
    Ok(items)
}

} // verus!
