//! Queries against the platform's semi-structured markup.
//!
//! The library never walks an HTML tree itself: each query here hands a
//! document and a CSS selector to the `scraper` crate and takes back plain
//! strings.  Parsing a document and matching a selector are pure functions of
//! the two strings, so each query's result is pinned to an uninterpreted
//! name that the extraction contracts are stated over.

use vstd::prelude::*;

verus! {

/// The serialized markup of each element of `doc` matched by `sel`, in
/// document order; nothing when `sel` is not valid CSS.
pub uninterp spec fn fragments_of(doc: Seq<char>, sel: Seq<char>) -> Option<Seq<Seq<char>>>;

/// The inner markup of each element of `doc` matched by `sel`, in document
/// order; nothing when `sel` is not valid CSS.
pub uninterp spec fn inner_htmls_of(doc: Seq<char>, sel: Seq<char>) -> Option<Seq<Seq<char>>>;

/// The value of attribute `attr` on each element of `doc` matched by `sel`
/// (absent where an element lacks the attribute), in document order; nothing
/// when `sel` is not valid CSS.
pub uninterp spec fn attr_values_of(doc: Seq<char>, sel: Seq<char>, attr: Seq<char>) -> Option<
    Seq<Option<Seq<char>>>,
>;

/// The concatenated text of each element of `doc` matched by `sel`, in
/// document order; nothing when `sel` is not valid CSS.
pub uninterp spec fn texts_of(doc: Seq<char>, sel: Seq<char>) -> Option<Seq<Seq<char>>>;

/// Relies on scraper's `Html::parse_document`, `Selector::parse` and
/// `ElementRef::html`: each match of the selector, serialized back to
/// markup, in document order.
#[verifier::external_body]
pub(crate) fn select_fragments(doc: &str, sel: &str) -> (r: Option<Vec<String>>)
    ensures
        (r is Some) == (fragments_of(doc@, sel@) is Some),
        r matches Some(v) ==> fragments_of(doc@, sel@) matches Some(f) && v.deep_view() == f,
{
    let parsed = scraper::Html::parse_document(doc);
    let selector = match scraper::Selector::parse(sel) {
        Ok(s) => s,
        Err(_) => return None,
    };
    let mut out: Vec<String> = Vec::new();
    for el in parsed.select(&selector) {
        out.push(el.html());
    }
    Some(out)
}

/// Relies on scraper's `Html::parse_document`, `Selector::parse` and
/// `ElementRef::inner_html`: the inner markup of each match of the selector,
/// in document order.
#[verifier::external_body]
pub(crate) fn select_inner_htmls(doc: &str, sel: &str) -> (r: Option<Vec<String>>)
    ensures
        (r is Some) == (inner_htmls_of(doc@, sel@) is Some),
        r matches Some(v) ==> inner_htmls_of(doc@, sel@) matches Some(f) && v.deep_view() == f,
{
    let parsed = scraper::Html::parse_document(doc);
    let selector = match scraper::Selector::parse(sel) {
        Ok(s) => s,
        Err(_) => return None,
    };
    let mut out: Vec<String> = Vec::new();
    for el in parsed.select(&selector) {
        out.push(el.inner_html());
    }
    Some(out)
}

/// Relies on scraper's `Html::parse_document`, `Selector::parse` and
/// `ElementRef::attr`: the value of one attribute on each match of the
/// selector, in document order.
#[verifier::external_body]
pub(crate) fn select_attr_values(doc: &str, sel: &str, attr: &str) -> (r: Option<
    Vec<Option<String>>,
>)
    ensures
        (r is Some) == (attr_values_of(doc@, sel@, attr@) is Some),
        r matches Some(v) ==> attr_values_of(doc@, sel@, attr@) matches Some(f) && v.deep_view()
            == f,
{
    let parsed = scraper::Html::parse_document(doc);
    let selector = match scraper::Selector::parse(sel) {
        Ok(s) => s,
        Err(_) => return None,
    };
    let mut out: Vec<Option<String>> = Vec::new();
    for el in parsed.select(&selector) {
        out.push(el.attr(attr).map(String::from));
    }
    Some(out)
}

/// Relies on scraper's `Html::parse_document`, `Selector::parse` and
/// `ElementRef::text`: the text content of each match of the selector, in
/// document order.
#[verifier::external_body]
pub(crate) fn select_texts(doc: &str, sel: &str) -> (r: Option<Vec<String>>)
    ensures
        (r is Some) == (texts_of(doc@, sel@) is Some),
        r matches Some(v) ==> texts_of(doc@, sel@) matches Some(f) && v.deep_view() == f,
{
    let parsed = scraper::Html::parse_document(doc);
    let selector = match scraper::Selector::parse(sel) {
        Ok(s) => s,
        Err(_) => return None,
    };
    let mut out: Vec<String> = Vec::new();
    for el in parsed.select(&selector) {
        out.push(el.text().collect::<String>());
    }
    Some(out)
}

} // verus!
