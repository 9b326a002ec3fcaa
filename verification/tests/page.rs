use dadada::block::Block;
use dadada::extract::extract;
use dadada::html::{
    block_html, build_html, code_html, comment_html, head_html, is_markdown_extension, Assets,
    Extra, Options,
};

fn assets() -> Assets {
    Assets {
        stylesheet: "body { color: black; }".to_string(),
        highlighter: "var H = 1;".to_string(),
        grammar: "var G = 2;".to_string(),
        line_numbers: "var L = 3;".to_string(),
    }
}

fn options(title: &str, with_css: bool, with_js: bool) -> Options {
    Options {
        title: title.to_string(),
        with_css,
        with_js,
        extra_meta: None,
        extra_header: None,
        extra_footer: None,
    }
}

fn minimal_blocks() -> Vec<Block> {
    let lines: Vec<String> =
        "/// Title\npub fn f() {}\n".lines().map(|l| l.to_string()).collect();
    let mut blocks = extract(&lines);
    blocks.insert(0, Block::new_file("lib.rs", ""));
    blocks
}

const HEAD: &str = "<!DOCTYPE html>\n<html>\n<head>\n<meta charset=\"utf-8\">\n";

#[test]
fn can_customise_title() {
    let out = build_html(minimal_blocks(), options("This is an awesome title", true, true), &assets());
    assert!(out.contains("<title>This is an awesome title</title>"));
}

#[test]
fn title_with_unicode_emoji() {
    let out = build_html(minimal_blocks(), options("title with emoji 🥰", true, true), &assets());
    assert!(out.contains("<title>title with emoji 🥰</title>"));
}

#[test]
fn title_stands_as_it_is() {
    let out = build_html(Vec::new(), options("My Title", false, false), &assets());
    assert!(out.starts_with(&format!("{}<title>My Title</title>\n", HEAD)));
    assert_eq!(head_html("a <b> & c"), format!("{}<title>a <b> & c</title>\n", HEAD));
}

#[test]
fn simple_run() {
    let out = build_html(minimal_blocks(), options("Minimal Example", true, true), &assets());
    let expected = format!(
        "{}{}{}{}{}{}{}{}{}",
        HEAD,
        "<title>Minimal Example</title>\n",
        "<style>body { color: black; }</style>",
        "<script>var H = 1;var G = 2;var L = 3;</script>",
        "</head><body><div id=\"container\"><div id=\"main\">",
        "<section class=\"block\" id=\"block-0\">\n<p><strong><code>lib.rs</code></strong> (in ``)</p>\n</section>\n",
        "<section class=\"block\" id=\"block-1\">\n<p>Title</p>\n",
        "<pre class=\"line-numbers\" data-start=\"1\"><code class=\"language-rust\">pub fn f() {}</code></pre>\n</section>\n",
        "</div></div></body></html>"
    );
    assert_eq!(out, expected);
}

#[test]
fn no_css() {
    let out = build_html(minimal_blocks(), options("Minimal Example", false, true), &assets());
    assert!(!out.contains("<style>"));
    assert!(!out.contains("body { color: black; }"));
    assert!(out.contains("<script>var H = 1;var G = 2;var L = 3;</script>"));
}

#[test]
fn no_js() {
    let out = build_html(minimal_blocks(), options("Minimal Example", true, false), &assets());
    assert!(out.contains("<style>body { color: black; }</style>"));
    assert!(!out.contains("<script>"));
    assert!(!out.contains("var H = 1;"));
    assert!(!out.contains("var G = 2;"));
    assert!(!out.contains("var L = 3;"));
}

#[test]
fn no_css_nor_js() {
    let out = build_html(minimal_blocks(), options("Minimal Example", false, false), &assets());
    assert!(!out.contains("<style>"));
    assert!(!out.contains("<script>"));
    let other = Assets {
        stylesheet: "x".to_string(),
        highlighter: "y".to_string(),
        grammar: "z".to_string(),
        line_numbers: "w".to_string(),
    };
    assert_eq!(out, build_html(minimal_blocks(), options("Minimal Example", false, false), &other));
}

#[test]
fn customised_run() {
    let mut opts = options("Customised Example", false, false);
    opts.extra_meta = Some(Extra::from_file("meta.html", "<meta name=\"x\">".to_string()));
    opts.extra_header = Some(Extra::from_file("header.html", "<h1>Top</h1>".to_string()));
    opts.extra_footer = Some(Extra::from_file("footer.md", "*the end*".to_string()));
    let out = build_html(Vec::new(), opts, &assets());
    let expected = format!(
        "{}{}{}{}{}{}",
        HEAD,
        "<title>Customised Example</title>\n",
        "<meta name=\"x\"></head><body><h1>Top</h1>",
        "<div id=\"container\"><div id=\"main\"></div></div>",
        "<p><em>the end</em></p>\n",
        "</body></html>"
    );
    assert_eq!(out, expected);
}

#[test]
fn plain_prose_becomes_one_paragraph() {
    let mut block = Block::new(1);
    block.push_comment("Plain prose, nothing else.".to_string());
    assert_eq!(comment_html(&block), "<p>Plain prose, nothing else.</p>\n");
    block.push_comment("It goes on here.".to_string());
    assert_eq!(
        comment_html(&block),
        "<p>Plain prose, nothing else.\nIt goes on here.</p>\n"
    );
    assert_eq!(comment_html(&Block::new(1)), "");
}

#[test]
fn markdown_in_comments_is_rendered() {
    let mut block = Block::new(1);
    block.push_comment("## Heading".to_string());
    block.push_comment("".to_string());
    block.push_comment("* item with `code`".to_string());
    assert_eq!(
        comment_html(&block),
        "<h2>Heading</h2>\n<ul>\n<li>item with <code>code</code></li>\n</ul>\n"
    );
}

#[test]
fn code_panel_text() {
    let mut block = Block::new(41);
    block.push_code("fn f<T>(x: &T) {".to_string());
    block.push_code("    a < b && c > d".to_string());
    block.push_code("}".to_string());
    assert_eq!(
        code_html(&block),
        "<pre class=\"line-numbers\" data-start=\"41\"><code class=\"language-rust\">fn f&lt;T>(x: &T) {\n    a &lt; b && c > d\n}</code></pre>\n"
    );
}

#[test]
fn block_markup_with_and_without_code() {
    let mut block = Block::new(3);
    block.push_comment("note".to_string());
    assert_eq!(
        block_html(12, &block, "<p>note</p>\n"),
        "<section class=\"block\" id=\"block-12\">\n<p>note</p>\n</section>\n"
    );
    block.push_code("   ".to_string());
    assert_eq!(
        block_html(12, &block, "<p>note</p>\n"),
        "<section class=\"block\" id=\"block-12\">\n<p>note</p>\n</section>\n"
    );
    block.push_code("x();".to_string());
    assert_eq!(
        block_html(0, &block, "R"),
        "<section class=\"block\" id=\"block-0\">\nR<pre class=\"line-numbers\" data-start=\"3\"><code class=\"language-rust\">   \nx();</code></pre>\n</section>\n"
    );
}

#[test]
fn extra_content_by_extension() {
    assert!(is_markdown_extension("md"));
    assert!(is_markdown_extension("mdown"));
    assert!(is_markdown_extension("markdown"));
    assert!(!is_markdown_extension("MD"));
    assert!(!is_markdown_extension("html"));
    assert!(!is_markdown_extension(""));
    let text = "# t".to_string();
    assert!(matches!(Extra::with_extension(Some("md".to_string()), text.clone()), Extra::Markdown(t) if t == "# t"));
    assert!(matches!(Extra::with_extension(Some("txt".to_string()), text.clone()), Extra::Raw(t) if t == "# t"));
    assert!(matches!(Extra::with_extension(None, text.clone()), Extra::Raw(t) if t == "# t"));
    assert!(matches!(Extra::from_file("docs/footer.markdown", text.clone()), Extra::Markdown(_)));
    assert!(matches!(Extra::from_file("docs.md/footer", text.clone()), Extra::Raw(_)));
    assert!(matches!(Extra::from_file("md", text.clone()), Extra::Raw(_)));
    assert!(matches!(Extra::from_file("footer.html", text), Extra::Raw(_)));
}

#[test]
fn raw_extra_is_not_rendered() {
    let mut opts = options("t", false, false);
    opts.extra_footer = Some(Extra::Raw("*kept*".to_string()));
    let raw = build_html(Vec::new(), opts, &assets());
    assert!(raw.ends_with("</div></div>*kept*</body></html>"));
    let mut opts = options("t", false, false);
    opts.extra_footer = Some(Extra::Markdown("*kept*".to_string()));
    let rendered = build_html(Vec::new(), opts, &assets());
    assert!(rendered.ends_with("</div></div><p><em>kept</em></p>\n</body></html>"));
}
