use vstd::prelude::*;

verus! {

/// What looking up one attribute on the first element that a selector matches found.
#[derive(Debug, Clone, PartialEq, Eq)]
pub enum AttrLookup {
    /// No element matched the selector.
    NoElement,
    /// The first matching element has no such attribute.
    NoAttr,
    /// The attribute's value on the first matching element.
    Value(String),
}

/// One child element of a table row: its text, and what the link lookup
/// (the `href` of the first descendant that the link selector matches) found in it.
#[derive(Debug, Clone, PartialEq, Eq)]
pub struct Cell {
    pub text: String,
    pub link: AttrLookup,
}

/// `NoElement` is `None`, `NoAttr` is `Some(None)`, a value `v` is `Some(Some(v@))`.
pub type AttrLookupView = Option<Option<Seq<char>>>;

/// A cell's text and link lookup.
pub type CellView = (Seq<char>, AttrLookupView);

impl DeepView for AttrLookup {
    type V = AttrLookupView;

    open spec fn deep_view(&self) -> AttrLookupView {
        match self {
            AttrLookup::NoElement => None,
            AttrLookup::NoAttr => Some(None),
            AttrLookup::Value(v) => Some(Some(v@)),
        }
    }
}

impl DeepView for Cell {
    type V = CellView;

    open spec fn deep_view(&self) -> CellView {
        (self.text@, self.link.deep_view())
    }
}

/// The rows that `rows_css` selects in the HTML document `document`, in the order
/// in which the parser created them, each as the list of its child elements (in
/// document order); `None` when either selector does not parse.
pub uninterp spec fn scraped_table(
    document: Seq<char>,
    rows_css: Seq<char>,
    link_css: Seq<char>,
) -> Option<Seq<Seq<CellView>>>;

/// What looking up `attr` on the first element, in the order in which the parser
/// created the elements, that `css` selects in the HTML document `document` finds;
/// `None` when the selector does not parse.
pub uninterp spec fn scraped_attr(document: Seq<char>, css: Seq<char>, attr: Seq<char>) -> Option<
    AttrLookupView,
>;

/// Parses `document` with scraper's `Html::parse_document` and walks the elements that
/// `Html::select` yields for `rows_css` (both selectors parsed with `Selector::parse`).
/// For each row it records its `child_elements`, each with the concatenation of its
/// `text()` nodes and the `href` (`ElementRef::attr`) of the first element that
/// `ElementRef::select` yields for `link_css` inside it. The contract only names the
/// result: it is a function of the three strings.
#[verifier::external_body]
pub(crate) fn scrape_table(document: &str, rows_css: &str, link_css: &str) -> (rows: Option<Vec<Vec<Cell>>>)
    ensures
        rows.deep_view() == scraped_table(document@, rows_css@, link_css@),
{
    let rows_sel = scraper::Selector::parse(rows_css).ok()?;
    let link_sel = scraper::Selector::parse(link_css).ok()?;
    let html = scraper::Html::parse_document(document);
    Some(html.select(&rows_sel).map(|row| row.child_elements().map(|child| Cell {
        text: child.text().collect(),
        link: match child.select(&link_sel).next() {
            None => AttrLookup::NoElement,
            Some(a) => a.attr("href").map_or(AttrLookup::NoAttr, |v| AttrLookup::Value(v.to_string())),
        },
    }).collect()).collect())
}

/// Parses `document` with scraper's `Html::parse_document`, takes the first element that
/// `Html::select` yields for `css` (parsed with `Selector::parse`) and reads `attr` on it
/// with `ElementRef::attr`. The contract only names the result: it is a function of the
/// three strings.
#[verifier::external_body]
pub(crate) fn scrape_attr(document: &str, css: &str, attr: &str) -> (found: Option<AttrLookup>)
    ensures
        found.deep_view() == scraped_attr(document@, css@, attr@),
{
    let sel = scraper::Selector::parse(css).ok()?;
    let html = scraper::Html::parse_document(document);
    Some(match html.select(&sel).next() {
        None => AttrLookup::NoElement,
        Some(e) => e.attr(attr).map_or(AttrLookup::NoAttr, |v| AttrLookup::Value(v.to_string())),
    })
}

/// What looking up `attr` on the first element below the root element, in document
/// order, that `css` selects in the HTML document `document` finds; `None` when the
/// selector does not parse.
pub uninterp spec fn scraped_attr_below_root(
    document: Seq<char>,
    css: Seq<char>,
    attr: Seq<char>,
) -> Option<AttrLookupView>;

/// Parses `document` with scraper's `Html::parse_document`, takes the first element that
/// `ElementRef::select` yields for `css` (parsed with `Selector::parse`) below the
/// document's `root_element`, and reads `attr` on it with `ElementRef::attr`. The
/// contract only names the result: it is a function of the three strings.
#[verifier::external_body]
pub(crate) fn scrape_attr_below_root(document: &str, css: &str, attr: &str) -> (found: Option<
    AttrLookup,
>)
    ensures
        found.deep_view() == scraped_attr_below_root(document@, css@, attr@),
{
    let sel = scraper::Selector::parse(css).ok()?;
    let html = scraper::Html::parse_document(document);
    Some(match html.root_element().select(&sel).next() {
        None => AttrLookup::NoElement,
        Some(e) => e.attr(attr).map_or(AttrLookup::NoAttr, |v| AttrLookup::Value(v.to_string())),
    })
}

} // verus!
