use ethereum_forum::blog::{blog_article_markdown, blog_post_image, BlogService};

const PAGE: &str = "<html><body>\
<nav>Site navigation chrome</nav>\
<main><div><div><span><img src=\"https://example.org/cover.png\"></span></div></div></main>\
<article>\
<style>.fancy { color: red }</style>\
<script>console.log(\"tracking\")</script>\
<p class=\"lead\" style=\"font-size: 2em\">Hello readers</p>\
</article>\
</body></html>";

#[test]
fn article_markdown_keeps_the_text() {
    let md = blog_article_markdown(PAGE).expect("the page has an article");
    assert!(md.contains("Hello readers"));
}

#[test]
fn article_markdown_drops_chrome_styles_and_scripts() {
    let md = blog_article_markdown(PAGE).expect("the page has an article");
    // Only the article is taken, not the page around it.
    assert!(!md.contains("Site navigation chrome"));
    // Style and script blocks are removed before rendering.
    assert!(!md.contains("color: red"));
    assert!(!md.contains("tracking"));
    // The markup itself is gone.
    assert!(!md.contains("<p"));
}

#[test]
fn cleanup_passes_run_on_the_raw_text() {
    // The attribute-stripping passes work on the serialized article, so a
    // class attribute spelled out in running text is removed as well.
    let page = "<html><body><article>\
<p>attribute class=\"marker\" inside text</p>\
</article></body></html>";
    let md = blog_article_markdown(page).expect("the page has an article");
    assert!(md.contains("attribute"));
    assert!(md.contains("inside text"));
    assert!(!md.contains("marker"));
}

#[test]
fn page_without_article_is_skipped() {
    assert!(blog_article_markdown("<html><body><p>plain</p></body></html>").is_none());
}

#[test]
fn cover_image_is_extracted() {
    assert_eq!(blog_post_image(PAGE), "https://example.org/cover.png");
}

#[test]
fn missing_cover_image_is_empty() {
    assert_eq!(blog_post_image("<html><body></body></html>"), "");
}

#[test]
fn blog_service_constructs() {
    let s = BlogService::new();
    assert_eq!(s, BlogService);
}
