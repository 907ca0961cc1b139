use vstd::prelude::*;

use crate::Error;

verus! {

// The tree and selector engine is the `scraper` crate. Its three types below
// are opaque handles for the library: a parsed document, a compiled structural
// query, and a borrowed reference to one element of a document's tree.
#[verifier::external_type_specification]
#[verifier::external_body]
pub struct ExHtml(scraper::Html);

#[verifier::external_type_specification]
#[verifier::external_body]
pub struct ExSelector(scraper::Selector);

#[verifier::external_type_specification]
#[verifier::external_body]
pub struct ExElementRef<'a>(scraper::ElementRef<'a>);

// The engine's answers depend on their arguments alone: a document's tree is
// immutable, and selector matching is deterministic. The names below stand
// for those answers, so that the extraction functions' contracts can say what
// they return for every query outcome.
/// Whether `s` is valid CSS selector-group syntax, as the engine's parser
/// accepts it.
pub uninterp spec fn sel_ok(s: Seq<char>) -> bool;

/// The compiled selector of a valid selector text.
pub uninterp spec fn sel_of(s: Seq<char>) -> scraper::Selector;

/// The descendant elements of `element` matching `selector`, in document
/// order.
pub uninterp spec fn selected_of(
    element: scraper::ElementRef<'_>,
    selector: scraper::Selector,
) -> Seq<scraper::ElementRef<'_>>;

/// The elements of `document` matching `selector`, in document order.
pub uninterp spec fn doc_selected_of(
    document: &scraper::Html,
    selector: scraper::Selector,
) -> Seq<scraper::ElementRef<'_>>;

/// The concatenation of the descendant text nodes of `element`, in document
/// order, with no separator.
pub uninterp spec fn text_content_of(element: scraper::ElementRef<'_>) -> Seq<char>;

/// The value of the attribute named `name` on `element`, when the attribute
/// is present.
pub uninterp spec fn attr_value_of(
    element: scraper::ElementRef<'_>,
    name: Seq<char>,
) -> Option<Seq<char>>;

/// Whether the class attribute of `element` holds the token `class`.
pub uninterp spec fn class_of(element: scraper::ElementRef<'_>, class: Seq<char>) -> bool;

/// The first descendant of `element` matching the selector text `s`, in
/// document order, when one exists.
pub open spec fn first_match_of(
    element: scraper::ElementRef<'_>,
    s: Seq<char>,
) -> Option<scraper::ElementRef<'_>> {
    if selected_of(element, sel_of(s)).len() == 0 {
        None
    } else {
        Some(selected_of(element, sel_of(s)).first())
    }
}

/// The text content of the first descendant of `element` matching the
/// selector text `s`, when one exists.
pub open spec fn first_text_of(element: scraper::ElementRef<'_>, s: Seq<char>) -> Option<
    Seq<char>,
> {
    match first_match_of(element, s) {
        Some(found) => Some(text_content_of(found)),
        None => None,
    }
}

/// Relies on `scraper::Html::parse_document`: any input text yields a parsed
/// tree, never a failure; missing structure is discovered later by queries.
#[verifier::external_body]
pub(crate) fn parse_document(text: &str) -> scraper::Html {
    scraper::Html::parse_document(text)
}

/// Relies on `scraper::Selector::parse`: it compiles a CSS selector group,
/// failing exactly on malformed selector syntax — never silently matching
/// nothing. A failure is reported as this crate's `CssParse` error.
#[verifier::external_body]
pub(crate) fn parse_selector(s: &str) -> (r: Result<scraper::Selector, Error>)
    ensures
        r is Ok <==> sel_ok(s@),
        r matches Ok(sel) ==> sel == sel_of(s@),
        r matches Err(e) ==> e is CssParse,
{
    match scraper::Selector::parse(s) {
        Ok(sel) => Ok(sel),
        Err(e) => Err(Error::CssParse(format!("(SelectorErrorKind) {:?}", e))),
    }
}

/// Relies on `scraper::ElementRef::select`: it walks the descendants of
/// `element` in document order and yields those matching `selector`.
#[verifier::external_body]
pub(crate) fn select_all<'a>(
    element: &scraper::ElementRef<'a>,
    selector: &scraper::Selector,
) -> (r: Vec<scraper::ElementRef<'a>>)
    ensures
        r@ == selected_of(*element, *selector),
{
    element.select(selector).collect()
}

/// Relies on `scraper::Html::select`: it walks the document's tree in document
/// order and yields the elements matching `selector`.
#[verifier::external_body]
pub(crate) fn html_select_all<'a>(
    document: &'a scraper::Html,
    selector: &scraper::Selector,
) -> (r: Vec<scraper::ElementRef<'a>>)
    ensures
        r@ == doc_selected_of(document, *selector),
{
    document.select(selector).collect()
}

/// Relies on `scraper::ElementRef::text`: it yields the element's descendant
/// text nodes in document order; they are concatenated with no separator.
#[verifier::external_body]
pub(crate) fn text_of(element: &scraper::ElementRef<'_>) -> (r: String)
    ensures
        r@ == text_content_of(*element),
{
    element.text().collect::<Vec<_>>().join("")
}

/// Relies on `scraper::ElementRef::attr`: it returns the value of the named
/// attribute on this element, or nothing when the attribute is absent.
#[verifier::external_body]
pub(crate) fn attr_of(element: &scraper::ElementRef<'_>, name: &str) -> (r: Option<String>)
    ensures
        r is Some <==> attr_value_of(*element, name@) is Some,
        r matches Some(v) ==> attr_value_of(*element, name@) == Some(v@),
{
    match element.attr(name) {
        Some(v) => Some(v.to_string()),
        None => None,
    }
}

/// Relies on `scraper::node::Element::has_class` with case-sensitive
/// comparison: whether the element's `class` attribute holds the given token.
#[verifier::external_body]
pub(crate) fn has_class(element: &scraper::ElementRef<'_>, class: &str) -> (r: bool)
    ensures
        r == class_of(*element, class@),
{
    element.value().has_class(class, scraper::CaseSensitivity::CaseSensitive)
}

/// Select the first descendant of `element` matching the selector text `s`,
/// in document order, or report that none matches; a malformed selector is a
/// query-syntax failure, never a silent no-match.
pub(crate) fn select_one<'a>(element: &scraper::ElementRef<'a>, s: &str) -> (r: Result<
    Option<scraper::ElementRef<'a>>,
    Error,
>)
    ensures
        r is Err <==> !sel_ok(s@),
        r matches Err(e) ==> e is CssParse,
        r matches Ok(found) ==> found == first_match_of(*element, s@),
{
    let selector = match parse_selector(s) {
        Ok(sel) => sel,
        Err(e) => {
            return Err(e);
        },
    };
    let mut found = select_all(element, &selector);
    if found.len() == 0 {
        Ok(None)
    } else {
        Ok(Some(found.remove(0)))
    }
}

/// The text of the first descendant of `element` matching the selector text
/// `s`, or the report that none matches; fails exactly on malformed selector
/// syntax.
pub(crate) fn select_text(element: &scraper::ElementRef<'_>, s: &str) -> (r: Result<
    Option<String>,
    Error,
>)
    ensures
        r is Err <==> !sel_ok(s@),
        r matches Err(e) ==> e is CssParse,
        r matches Ok(t) ==> crate::opt_view(t) == first_text_of(*element, s@),
{
    match select_one(element, s) {
        Ok(found) => match found {
            Some(el) => Ok(Some(text_of(&el))),
            None => Ok(None),
        },
        Err(e) => Err(e),
    }
}

} // verus!
