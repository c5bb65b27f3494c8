//! Finding elements in a page. Parsing HTML and matching CSS selectors are
//! `scraper`'s work: this module makes the calls into it, and gives what they
//! return names, so that the rest of the library can say exactly which page
//! and which selector a result belongs to.

use vstd::prelude::*;
use vstd::string::StringSliceAdditionalSpecFns;
use scraper::{Html, Selector};

verus! {

/// The longest page that is handed to the parser, in bytes: 64 MiB.
///
/// The parser keeps its texts in buffers whose size it counts in a `u32` and
/// rounds up to a power of two, and it may write three bytes for one that it
/// read. A page of this length stays far below where that arithmetic ends.
pub const MAX_PAGE_BYTES: usize = 67_108_864;

/// Whether `text` writes a CSS selector group, that is, whether
/// `Selector::parse` takes it.
pub uninterp spec fn is_selector(text: Seq<char>) -> bool;

/// For each element that the selector group `selector` matches in the page
/// `document`, in the order in which `Html::select` finds them: the value of
/// the element's attribute `attribute`, `None` where it has none.
pub uninterp spec fn selected(
    document: Seq<char>,
    selector: Seq<char>,
    attribute: Seq<char>,
) -> Seq<Option<Seq<char>>>;

/// The children, written out as HTML by `ElementRef::inner_html`, of the
/// first element that `Html::select` finds for the selector group `selector`
/// in the page `document`; `None` where it finds none.
pub uninterp spec fn first_inner_html(document: Seq<char>, selector: Seq<char>) -> Option<
    Seq<char>,
>;

/// An optional text as a value of mathematics.
pub open spec fn text_view(text: Option<String>) -> Option<Seq<char>> {
    match text {
        Some(s) => Some(s@),
        None => None,
    }
}

/// Optional texts as values of mathematics.
pub open spec fn text_views(texts: Seq<Option<String>>) -> Seq<Option<Seq<char>>> {
    texts.map_values(|t: Option<String>| text_view(t))
}

/// `Selector::parse` on `selector`, `Html::parse_document` on `document`,
/// `Html::select` walked to its end, and of each element that it yields
/// `Element::attr` for `attribute`.
///
/// Believed of them: they return for every page of at most
/// [`MAX_PAGE_BYTES`] bytes, whatever the selector and the attribute; whether
/// `selector` is taken depends on its text alone; and which elements match,
/// in which order, and what value each has for the attribute, depends on the
/// three texts alone. A longer page is left out: from `u32::MAX` bytes on
/// the parser panics when it takes the text in.
#[verifier::external_body]
pub(crate) fn select_attribute(document: &str, selector: &str, attribute: &str) -> (values: Option<
    Vec<Option<String>>,
>)
    requires
        document.spec_bytes().len() <= MAX_PAGE_BYTES,
    ensures
        values is Some <==> is_selector(selector@),
        values matches Some(v) ==> text_views(v@) == selected(document@, selector@, attribute@),
{
    let selector = Selector::parse(selector).ok()?;
    let document = Html::parse_document(document);
    let read = |e: scraper::ElementRef| e.value().attr(attribute).map(String::from);
    Some(document.select(&selector).map(read).collect())
}

/// `Selector::parse` on `selector`, `Html::parse_document` on `document`,
/// the first element that `Html::select` yields, and `ElementRef::inner_html`
/// of it.
///
/// Believed of them: they return for every page of at most
/// [`MAX_PAGE_BYTES`] bytes, whatever the selector; whether `selector` is
/// taken depends on its text alone; and which element comes first, and what
/// its children are written out as, depends on the two texts alone: an
/// element's attributes are kept and written in the order of their names. A
/// longer page is left out, as in [`select_attribute`].
#[verifier::external_body]
pub(crate) fn select_first_html(document: &str, selector: &str) -> (text: Option<Option<String>>)
    requires
        document.spec_bytes().len() <= MAX_PAGE_BYTES,
    ensures
        text is Some <==> is_selector(selector@),
        text matches Some(t) ==> text_view(t) == first_inner_html(document@, selector@),
{
    let selector = Selector::parse(selector).ok()?;
    let document = Html::parse_document(document);
    let first = document.select(&selector).next();
    Some(first.map(|e| e.inner_html()))
}

} // verus!
