//! The trusted boundary to the HTML-processing crates.  Each wrapper makes
//! one outside call whose result is a pure function of its string arguments;
//! the result is given a name here and the callers' contracts are exact in
//! terms of these names.

use vstd::prelude::*;

verus! {

/// What `strip_tags::strip_tags` returns for a given input.
pub uninterp spec fn plain_text_of(s: Seq<char>) -> Seq<char>;

/// Relies on `strip_tags::strip_tags`: removes HTML, PHP and comment tags
/// from the text, walking its characters alone, so the result depends on
/// nothing but the input; an empty input stays empty.
#[verifier::external_body]
pub(crate) fn strip_html_tags(s: &str) -> (r: String)
    ensures
        r@ == plain_text_of(s@),
        s@.len() == 0 ==> r@.len() == 0,
{
    strip_tags::strip_tags(s)
}

/// What the regex deletion below returns for a given pattern and text.
pub uninterp spec fn regex_removed(pattern: Seq<char>, text: Seq<char>) -> Seq<char>;

/// Relies on `regex::Regex::new` and `regex::Regex::replace_all`: deletes
/// every non-overlapping match of the pattern from the text.  Both calls
/// are deterministic in their arguments, so the result carries one name; a
/// pattern that does not compile leaves the text unchanged, which the name
/// covers as well.
#[verifier::external_body]
pub(crate) fn regex_remove(pattern: &str, text: &str) -> (r: String)
    ensures
        r@ == regex_removed(pattern@, text@),
{
    match regex::Regex::new(pattern) {
        Ok(re) => re.replace_all(text, "").into_owned(),
        Err(_) => text.to_owned(),
    }
}

/// What `html2md::parse_html` returns for a given document.
pub uninterp spec fn markdown_of(html: Seq<char>) -> Seq<char>;

/// Relies on `html2md::parse_html`: renders an HTML fragment as Markdown,
/// a pure function of the input text.
#[verifier::external_body]
pub(crate) fn html_to_markdown(html: &str) -> (r: String)
    ensures
        r@ == markdown_of(html@),
{
    html2md::parse_html(html)
}

/// What the first-element selection below returns: the serialized HTML of
/// the first element of the document matching the selector, if any.
pub uninterp spec fn selected_html_of(selector: Seq<char>, html: Seq<char>) -> Option<Seq<char>>;

/// Relies on `scraper::Html::parse_document`, `scraper::Selector::parse`
/// and `ElementRef::html`: parses the document, finds the first element the
/// selector matches and serializes it back to HTML.  Parsing and selection
/// are deterministic, so the result carries one name; a selector that does
/// not parse selects nothing.
#[verifier::external_body]
pub(crate) fn select_first_html(html: &str, selector: &str) -> (r: Option<String>)
    ensures
        match r {
            Some(s) => selected_html_of(selector@, html@) == Some(s@),
            None => selected_html_of(selector@, html@) is None,
        },
{
    let sel = scraper::Selector::parse(selector).ok()?;
    let doc = scraper::Html::parse_document(html);
    let element = doc.select(&sel).next()?;
    Some(element.html())
}

/// What the first-attribute selection below returns: the named attribute of
/// the first element of the document matching the selector, if both exist.
pub uninterp spec fn selected_attr_of(
    selector: Seq<char>,
    attr: Seq<char>,
    html: Seq<char>,
) -> Option<Seq<char>>;

/// Relies on `scraper::Html::parse_document`, `scraper::Selector::parse`
/// and `ElementRef::attr`: parses the document, finds the first element the
/// selector matches and reads one of its attributes.  Deterministic in its
/// arguments; a selector that does not parse selects nothing.
#[verifier::external_body]
pub(crate) fn select_first_attr(html: &str, selector: &str, attr: &str) -> (r: Option<String>)
    ensures
        match r {
            Some(s) => selected_attr_of(selector@, attr@, html@) == Some(s@),
            None => selected_attr_of(selector@, attr@, html@) is None,
        },
{
    let sel = scraper::Selector::parse(selector).ok()?;
    let doc = scraper::Html::parse_document(html);
    let element = doc.select(&sel).next()?;
    Some(element.attr(attr)?.to_owned())
}

} // verus!
