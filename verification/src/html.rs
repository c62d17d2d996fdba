//! Queries on HTML pages, answered by the `scraper` crate.
//!
//! A page is handed over as its source text; what the queries return is
//! plain data. Each query parses the document and runs its selectors in
//! one go: the parsed tree and the compiled selectors are `scraper`'s own
//! opaque values, so what is named is the whole query, from the page's text
//! to plain data. What `scraper` selects is named here, not restated: the names
//! below are functions of the page's text and of the selectors alone.
use vstd::prelude::*;
use scraper::{ElementRef, Html, Selector};

verus! {

/// Whether `selector` parses as a CSS selector group.
pub uninterp spec fn selector_parses(selector: Seq<char>) -> bool;

/// For each element of the document `html` that `selector` matches, in the
/// order in which the parser created the elements (the order of the
/// document's node arena, which `Html::select` walks), the value of its
/// attribute `attr`, if it has one.
pub uninterp spec fn attribute_values(html: Seq<char>, selector: Seq<char>, attr: Seq<char>) -> Seq<Option<Seq<char>>>;

/// For each element of the document `html` that `outer` matches, in the
/// order in which the parser created the elements (the order of the
/// document's node arena, which `Html::select` walks), and for each selector
/// of `inners`, the records of the elements inside it that the selector
/// matches, in tree order (see [`ElementRecord`]), where the items of a
/// record are the texts of the elements inside it that `item` matches, in
/// tree order.
pub uninterp spec fn element_records(
    html: Seq<char>,
    outer: Seq<char>,
    inners: Seq<Seq<char>>,
    item: Seq<char>,
) -> Seq<Seq<Seq<(Seq<char>, Seq<char>, Seq<Seq<char>>)>>>;

/// What a query keeps of one selected element: its tag name, its text (the
/// concatenated text of all its descendants), and the texts of the elements
/// inside it that the query's item selector matches.
pub struct ElementRecord {
    pub name: String,
    pub text: String,
    pub items: Vec<String>,
}

impl DeepView for ElementRecord {
    type V = (Seq<char>, Seq<char>, Seq<Seq<char>>);

    open spec fn deep_view(&self) -> (Seq<char>, Seq<char>, Seq<Seq<char>>) {
        (self.name@, self.text@, self.items.deep_view())
    }
}

/// Parses `html` as a document (`Html::parse_document`), selects the
/// elements that `selector` matches (`Selector::parse`, `Html::select`) and
/// reads attribute `attr` of each (`ElementRef::attr`).
///
/// Trusted: the result is `None` exactly when the selector does not parse,
/// and otherwise the attribute values named by `attribute_values`.
#[verifier::external_body]
pub(crate) fn select_attribute(html: &str, selector: &str, attr: &str) -> (r: Option<Vec<Option<String>>>)
    ensures
        r is Some <==> selector_parses(selector@),
        r matches Some(v) ==> v.deep_view() == attribute_values(html@, selector@, attr@),
{
    let selector = Selector::parse(selector).ok()?;
    let document = Html::parse_document(html);
    Some(document.select(&selector).map(|e| e.attr(attr).map(|a| a.to_string())).collect())
}

/// Parses `html` as a document (`Html::parse_document`), selects the
/// elements that `outer` matches, and inside each the elements that each
/// selector of `inners` matches (`Selector::parse`, `Html::select`,
/// `ElementRef::select`), keeping of each its tag name
/// (`Element::name`), its text (`ElementRef::text`) and the texts of the
/// elements inside it that `item` matches.
///
/// Trusted: the result is `None` exactly when one of the selectors does not
/// parse, and otherwise the records named by `element_records`, with one
/// list per selector of `inners` for every outer element.
#[verifier::external_body]
pub(crate) fn select_records(html: &str, outer: &str, inners: &Vec<String>, item: &str) -> (r: Option<Vec<Vec<Vec<ElementRecord>>>>)
    ensures
        r is Some <==> (selector_parses(outer@) && selector_parses(item@)
            && forall|i: int| 0 <= i < inners@.len() ==> selector_parses(#[trigger] inners@[i]@)),
        r matches Some(v) ==> v.deep_view() == element_records(html@, outer@, inners.deep_view(), item@),
        r matches Some(v) ==> forall|k: int| 0 <= k < v@.len() ==> #[trigger] v@[k]@.len() == inners@.len(),
{
    let outer = Selector::parse(outer).ok()?;
    let item = Selector::parse(item).ok()?;
    let inners: Vec<_> = inners.iter().map(|s| Selector::parse(s).ok()).collect::<Option<_>>()?;
    let record = |e: ElementRef| ElementRecord {
        name: e.value().name().into(),
        text: e.text().collect(),
        items: e.select(&item).map(|i| i.text().collect()).collect(),
    };
    Some(Html::parse_document(html).select(&outer).map(|o| inners.iter().map(|s| o.select(s).map(record).collect()).collect()).collect())
}

} // verus!
