//! The blog mirror's content pipeline: what is extracted from a fetched
//! blog post's HTML before it is stored.

use vstd::prelude::*;

use crate::html::html_to_markdown;
use crate::html::markdown_of;
use crate::html::regex_remove;
use crate::html::regex_removed;
use crate::html::select_first_attr;
use crate::html::select_first_html;
use crate::html::selected_attr_of;
use crate::html::selected_html_of;

verus! {

/// Matches inline style blocks.
pub const STYLE_BLOCK_PATTERN: &'static str = "<style[^>]*>[\\s\\S]*?</style>";

/// Matches inline script blocks.
pub const SCRIPT_BLOCK_PATTERN: &'static str = "<script[^>]*>[\\s\\S]*?</script>";

/// Matches class attributes.
pub const CLASS_ATTR_PATTERN: &'static str = "\\s+class=\"[^\"]*\"";

/// Matches style attributes.
pub const STYLE_ATTR_PATTERN: &'static str = "\\s+style=\"[^\"]*\"";

/// The selector for a post's article body.
pub const ARTICLE_SELECTOR: &'static str = "article";

/// The selector for a post's cover image.
pub const COVER_IMAGE_SELECTOR: &'static str = "main > div > div > span > img";

/// The article body after the cleanup passes, in order: style blocks,
/// script blocks, class attributes, style attributes.
pub open spec fn spec_cleaned_article(article: Seq<char>) -> Seq<char> {
    regex_removed(
        STYLE_ATTR_PATTERN@,
        regex_removed(
            CLASS_ATTR_PATTERN@,
            regex_removed(SCRIPT_BLOCK_PATTERN@, regex_removed(STYLE_BLOCK_PATTERN@, article)),
        ),
    )
}

/// The blog service; it owns no state, only the periodic mirror loop that
/// the surrounding process runs with it.
#[derive(Clone, Copy, Debug, Default, PartialEq, Eq, Structural)]
pub struct BlogService;

impl BlogService {
    /// A fresh blog service.
    pub fn new() -> (r: Self)
        ensures
            r == BlogService,
    {
        BlogService
    }
}

/// Extracts a fetched blog post's content as Markdown: the first article
/// element of the page, stripped of styling and scripting, rendered as
/// Markdown.  A page without an article element yields nothing and is
/// skipped by the mirror.
pub fn blog_article_markdown(html: &str) -> (r: Option<String>)
    ensures
        match r {
            Some(md) => {
                &&& selected_html_of(ARTICLE_SELECTOR@, html@) is Some
                &&& md@ == markdown_of(
                    spec_cleaned_article(selected_html_of(ARTICLE_SELECTOR@, html@)->Some_0),
                )
            },
            None => selected_html_of(ARTICLE_SELECTOR@, html@) is None,
        },
{
    match select_first_html(html, ARTICLE_SELECTOR) {
        None => None,
        Some(article) => {
            let cleaned = regex_remove(STYLE_BLOCK_PATTERN, article.as_str());
            let cleaned = regex_remove(SCRIPT_BLOCK_PATTERN, cleaned.as_str());
            let cleaned = regex_remove(CLASS_ATTR_PATTERN, cleaned.as_str());
            let cleaned = regex_remove(STYLE_ATTR_PATTERN, cleaned.as_str());
            Some(html_to_markdown(cleaned.as_str()))
        },
    }
}

/// Extracts a fetched blog post's cover image URL: the source of the page's
/// cover image element, or the empty string when the page has none.
pub fn blog_post_image(html: &str) -> (r: String)
    ensures
        r@ == match selected_attr_of(COVER_IMAGE_SELECTOR@, "src"@, html@) {
            Some(src) => src,
            None => Seq::<char>::empty(),
        },
{
    match select_first_attr(html, COVER_IMAGE_SELECTOR, "src") {
        Some(src) => src,
        None => String::new(),
    }
}

} // verus!
