//! Parsed pages and the queries the library makes on them.

use crate::catalog::{Anchor, AnchorView};
use vstd::prelude::*;

verus! {

/// The attribute that holds a link's address.
pub const HREF: &'static str = "href";

/// `scraper::Html`, a parsed tree. Nothing inside it is known here.
#[verifier::external_type_specification]
#[verifier::external_body]
pub struct ExHtml(scraper::Html);

/// `scraper::Selector`, a parsed selector group. Nothing inside it is known
/// here.
#[verifier::external_type_specification]
#[verifier::external_body]
pub struct ExSelector(scraper::Selector);

/// `scraper::ElementRef`, a reference to an element of a tree. Nothing
/// inside it is known here.
#[verifier::external_type_specification]
#[verifier::external_body]
pub struct ExElementRef<'a>(scraper::ElementRef<'a>);

/// `scraper::error::SelectorErrorKind`, the selector parser's reason for a
/// refusal. Nothing inside it is known here.
#[verifier::external_type_specification]
#[verifier::external_body]
pub struct ExSelectorErrorKind(scraper::error::SelectorErrorKind);

/// The tree that the HTML parser builds from a page's text.
pub uninterp spec fn parsed_document(text: Seq<char>) -> scraper::Html;

/// The selector that a selector group's text stands for, where the text is
/// one.
pub uninterp spec fn parsed_selector(css: Seq<char>) -> Option<scraper::Selector>;

/// The selector parser refuses the text.
pub open spec fn refused(css: Seq<char>) -> bool {
    parsed_selector(css) is None
}

/// The elements of a tree that a selector matches, in the order in which
/// the tree's selection yields them.
pub uninterp spec fn document_matches(
    tree: &scraper::Html,
    selector: scraper::Selector,
) -> Seq<scraper::ElementRef<'_>>;

/// The descendants of an element that a selector matches, in the order in
/// which the element's selection yields them.
pub uninterp spec fn element_matches(
    scope: scraper::ElementRef<'_>,
    selector: scraper::Selector,
) -> Seq<scraper::ElementRef<'_>>;

/// The texts of the text nodes below an element, joined in the order in
/// which the element yields them.
pub uninterp spec fn element_text(element: scraper::ElementRef<'_>) -> Seq<char>;

/// The value of an element's attribute, where it has the attribute.
pub uninterp spec fn element_attr(
    element: scraper::ElementRef<'_>,
    name: Seq<char>,
) -> Option<Seq<char>>;

/// `scraper::Html::parse_document`: the result is the tree named
/// `parsed_document` of the text. Parsing never fails; what the parser
/// cannot read it repairs.
#[verifier::external_body]
pub(crate) fn parse_document(text: &str) -> (tree: scraper::Html)
    ensures
        tree == parsed_document(text@),
{
    scraper::Html::parse_document(text)
}

/// `scraper::Selector::parse`: on success the result is the selector named
/// `parsed_selector` of the text; the call fails exactly where that name
/// is `None`.
#[verifier::external_body]
pub(crate) fn parse_selector(css: &str) -> (r: Result<
    scraper::Selector,
    scraper::error::SelectorErrorKind,
>)
    ensures
        match r {
            Ok(selector) => parsed_selector(css@) == Some(selector),
            Err(_) => parsed_selector(css@) is None,
        },
{
    scraper::Selector::parse(css)
}

/// `scraper::Html::select`, collected: all that the iterator yields, in its
/// order, are the elements named `document_matches`.
#[verifier::external_body]
pub(crate) fn select_in_document<'a>(
    tree: &'a scraper::Html,
    selector: &scraper::Selector,
) -> (found: Vec<scraper::ElementRef<'a>>)
    ensures
        found@ == document_matches(tree, *selector),
{
    tree.select(selector).collect()
}

/// `scraper::ElementRef::select`, collected: all that the iterator yields,
/// in its order, are the elements named `element_matches`.
#[verifier::external_body]
pub(crate) fn select_in_element<'a>(
    scope: scraper::ElementRef<'a>,
    selector: &scraper::Selector,
) -> (found: Vec<scraper::ElementRef<'a>>)
    ensures
        found@ == element_matches(scope, *selector),
{
    scope.select(selector).collect()
}

/// `scraper::ElementRef::text`, collected into one string: the text named
/// `element_text`.
#[verifier::external_body]
pub(crate) fn text_of(element: scraper::ElementRef<'_>) -> (text: String)
    ensures
        text@ == element_text(element),
{
    element.text().collect()
}

/// `scraper::ElementRef::attr`: the value named `element_attr`, copied.
#[verifier::external_body]
pub(crate) fn attr_of(element: scraper::ElementRef<'_>, name: &str) -> (value: Option<String>)
    ensures
        value.deep_view() == element_attr(element, name@),
{
    match element.attr(name) {
        Some(v) => Some(v.to_owned()),
        None => None,
    }
}

/// A parsed page.
#[derive(Debug)]
pub struct Document {
    /// The tree that the parser built.
    pub tree: scraper::Html,
}

impl Document {
    /// Parses the text of a page. Every text gives a document.
    pub fn parse(text: &str) -> (doc: Document)
        ensures
            doc.tree == parsed_document(text@),
    {
        Document { tree: parse_document(text) }
    }
}

/// The link that an element is, as far as the library reads it.
pub open spec fn anchor_of(element: scraper::ElementRef<'_>) -> AnchorView {
    AnchorView { href: element_attr(element, HREF@) }
}

/// Reads a link element.
pub(crate) fn read_anchor(element: scraper::ElementRef<'_>) -> (anchor: Anchor)
    ensures
        anchor.deep_view() == anchor_of(element),
{
    Anchor { href: attr_of(element, HREF) }
}

/// A selector text that the selector parser refused.
#[derive(Debug, Clone, PartialEq, Eq)]
pub struct InvalidSelector {
    /// The refused text.
    pub css: String,
}

/// Reads a selector group.
pub fn selector(css: &str) -> (r: Result<scraper::Selector, InvalidSelector>)
    ensures
        match r {
            Ok(selector) => parsed_selector(css@) == Some(selector),
            Err(e) => refused(css@) && e.css@ == css@,
        },
{
    match parse_selector(css) {
        Ok(selector) => Ok(selector),
        Err(_) => Err(InvalidSelector { css: css.to_owned() }),
    }
}

} // verus!
