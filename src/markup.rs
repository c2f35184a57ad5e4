//! Queries on HTML markup, answered by the `scraper` crate.
//!
//! Each query parses the markup as a whole document and reports, for every
//! element that a CSS selector matches, one plain value, in the order in
//! which the HTML parser created the elements: document order, except where
//! the parser moves misplaced markup.
//! What the HTML parser and the selector engine make of a given text is named
//! here, not restated.
use crate::text::{opt_views_of, views_of};
use vstd::prelude::*;

verus! {

/// Outer markup of each element of `markup` that `selector` matches.
pub uninterp spec fn selected_html(markup: Seq<char>, selector: Seq<char>) -> Seq<Seq<char>>;

/// First descendant text node of each element of `markup` that `selector`
/// matches, if it has one.
pub uninterp spec fn selected_text(markup: Seq<char>, selector: Seq<char>) -> Seq<Option<Seq<char>>>;

/// Value of the attribute `attr` on each element of `markup` that `selector`
/// matches, if it is set.
pub uninterp spec fn selected_attr(markup: Seq<char>, selector: Seq<char>, attr: Seq<char>) -> Seq<
    Option<Seq<char>>,
>;

/// Relies on scraper's `Html::parse_document`, `Selector::parse`,
/// `Html::select` and `ElementRef::html`: the outer markup of every matching
/// element, in the order the parser created them. A selector that does not parse matches nothing.
#[verifier::external_body]
pub(crate) fn select_html(markup: &str, selector: &str) -> (r: Vec<String>)
    ensures
        views_of(r@) == selected_html(markup@, selector@),
{
    let doc = scraper::Html::parse_document(markup);
    match scraper::Selector::parse(selector) {
        Ok(sel) => doc.select(&sel).map(|e| e.html()).collect(),
        Err(_) => Vec::new(),
    }
}

/// Relies on scraper's `Html::parse_document`, `Selector::parse`,
/// `Html::select` and `ElementRef::text`: the first text node under every
/// matching element, in the order the parser created them. A selector that does not parse
/// matches nothing.
#[verifier::external_body]
pub(crate) fn select_text(markup: &str, selector: &str) -> (r: Vec<Option<String>>)
    ensures
        opt_views_of(r@) == selected_text(markup@, selector@),
{
    let doc = scraper::Html::parse_document(markup);
    match scraper::Selector::parse(selector) {
        Ok(sel) => doc.select(&sel).map(|e| e.text().next().map(|t| t.to_string())).collect(),
        Err(_) => Vec::new(),
    }
}

/// Relies on scraper's `Html::parse_document`, `Selector::parse`,
/// `Html::select` and `ElementRef::attr`: the attribute `attr` of every
/// matching element, in the order the parser created them. A selector that does not parse
/// matches nothing.
#[verifier::external_body]
pub(crate) fn select_attr(markup: &str, selector: &str, attr: &str) -> (r: Vec<Option<String>>)
    ensures
        opt_views_of(r@) == selected_attr(markup@, selector@, attr@),
{
    let doc = scraper::Html::parse_document(markup);
    match scraper::Selector::parse(selector) {
        Ok(sel) => doc.select(&sel).map(|e| e.attr(attr).map(|a| a.to_string())).collect(),
        Err(_) => Vec::new(),
    }
}

} // verus!
