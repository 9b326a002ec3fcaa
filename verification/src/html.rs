//! Page assembly: a sequence of blocks, rendering options and the static
//! payloads become one HTML text.

use vstd::prelude::*;
use crate::block::{block_views, has_visible_code, Block, BlockView};
use crate::markdown::{markdown_html, render};
use crate::text::{decimal, decimal_text, escape_lines, escaped, join_lines, joined, same_text};

verus! {

/// Opens the document and its head.
pub const HEAD_OPEN: &'static str = "<!DOCTYPE html>\n<html>\n<head>\n<meta charset=\"utf-8\">\n";

/// Opens the title element.
pub const TITLE_OPEN: &'static str = "<title>";

/// Closes the title element.
pub const TITLE_CLOSE: &'static str = "</title>\n";

/// Opens the stylesheet.
pub const STYLE_OPEN: &'static str = "<style>";

/// Closes the stylesheet.
pub const STYLE_CLOSE: &'static str = "</style>";

/// Opens the scripts.
pub const SCRIPT_OPEN: &'static str = "<script>";

/// Closes the scripts.
pub const SCRIPT_CLOSE: &'static str = "</script>";

/// Closes the head and opens the body.
pub const BODY_OPEN: &'static str = "</head><body>";

/// Opens the container of the blocks.
pub const MAIN_OPEN: &'static str = "<div id=\"container\"><div id=\"main\">";

/// Closes the container of the blocks.
pub const MAIN_CLOSE: &'static str = "</div></div>";

/// Closes the body and the document.
pub const BODY_CLOSE: &'static str = "</body></html>";

/// Opens a block, up to its index.
pub const BLOCK_OPEN: &'static str = "<section class=\"block\" id=\"block-";

/// Follows a block's index.
pub const BLOCK_MIDDLE: &'static str = "\">\n";

/// Closes a block.
pub const BLOCK_CLOSE: &'static str = "</section>\n";

/// Opens a code panel, up to the number of its first line.
pub const CODE_OPEN: &'static str = "<pre class=\"line-numbers\" data-start=\"";

/// Follows the number of a code panel's first line.
pub const CODE_MIDDLE: &'static str = "\"><code class=\"language-rust\">";

/// Closes a code panel.
pub const CODE_CLOSE: &'static str = "</code></pre>\n";

/// Extra content for the page, with the way it is to be put in.
#[derive(Clone, Debug)]
pub enum Extra {
    /// Text that goes into the page as it stands.
    Raw(String),
    /// Markdown text, which goes into the page rendered.
    Markdown(String),
}

/// Rendering options.
#[derive(Clone, Debug)]
pub struct Options {
    /// The title of the page.
    pub title: String,
    /// Whether the page carries the stylesheet.
    pub with_css: bool,
    /// Whether the page carries the scripts.
    pub with_js: bool,
    /// Extra content for the end of the head.
    pub extra_meta: Option<Extra>,
    /// Extra content for the top of the body.
    pub extra_header: Option<Extra>,
    /// Extra content for the end of the body.
    pub extra_footer: Option<Extra>,
}

/// The static payloads that a page can carry.
#[derive(Clone, Debug)]
pub struct Assets {
    /// The stylesheet.
    pub stylesheet: String,
    /// The syntax highlighter.
    pub highlighter: String,
    /// The highlighter's grammar of the source language.
    pub grammar: String,
    /// The helper that numbers the lines of a code panel.
    pub line_numbers: String,
}

/// Whether a file with the extension `extension` holds Markdown.
pub open spec fn markdown_extension(extension: Seq<char>) -> bool {
    extension == "md"@ || extension == "mdown"@ || extension == "markdown"@
}

/// The extra content of a file with the text `content`, by the file's
/// extension, if it has one.
pub open spec fn extra_by_extension(extension: Option<Seq<char>>, content: String) -> Extra {
    if extension is Some && markdown_extension(extension->0) {
        Extra::Markdown(content)
    } else {
        Extra::Raw(content)
    }
}

/// The head of the page up to the end of the title element: the title stands
/// in it as it is.
pub open spec fn head_markup(title: Seq<char>) -> Seq<char> {
    HEAD_OPEN@ + TITLE_OPEN@ + title + TITLE_CLOSE@
}

/// The stylesheet element, or nothing where it is switched off.
pub open spec fn style_markup(with_css: bool, assets: Assets) -> Seq<char> {
    if with_css {
        STYLE_OPEN@ + assets.stylesheet@ + STYLE_CLOSE@
    } else {
        Seq::empty()
    }
}

/// The script element, holding highlighter, grammar and line numbering in
/// this order, or nothing where it is switched off.
pub open spec fn script_markup(with_js: bool, assets: Assets) -> Seq<char> {
    if with_js {
        SCRIPT_OPEN@ + assets.highlighter@ + assets.grammar@ + assets.line_numbers@
            + SCRIPT_CLOSE@
    } else {
        Seq::empty()
    }
}

/// What an extra content adds to the page.
pub open spec fn extra_markup(extra: Option<Extra>) -> Seq<char> {
    match extra {
        None => Seq::empty(),
        Some(Extra::Raw(text)) => text@,
        Some(Extra::Markdown(source)) => markdown_html(source@),
    }
}

/// The code panel of a block: the number of its first line, and its code
/// lines joined, with `<` escaped and nothing else.
pub open spec fn code_panel(block: BlockView) -> Seq<char> {
    CODE_OPEN@ + decimal(block.starting_line) + CODE_MIDDLE@ + escaped(joined(block.code))
        + CODE_CLOSE@
}

/// The markup of the block at `index`, given its comment rendered: the
/// wrapper with the index, the rendered comment, and the code panel where the
/// block has code to show.
pub open spec fn block_markup(index: nat, block: BlockView, rendered: Seq<char>) -> Seq<char> {
    BLOCK_OPEN@ + decimal(index) + BLOCK_MIDDLE@ + rendered + (if has_visible_code(block.code) {
        code_panel(block)
    } else {
        Seq::empty()
    }) + BLOCK_CLOSE@
}

/// The markup of the first `n` blocks of `blocks`, each with its comment
/// lines joined and rendered as Markdown.
pub open spec fn blocks_markup(blocks: Seq<BlockView>, n: nat) -> Seq<char>
    decreases n,
{
    if n == 0 || n > blocks.len() {
        Seq::empty()
    } else {
        blocks_markup(blocks, (n - 1) as nat) + block_markup(
            (n - 1) as nat,
            blocks[n - 1],
            markdown_html(joined(blocks[n - 1].comment)),
        )
    }
}

/// The whole page.
pub open spec fn page(blocks: Seq<BlockView>, options: Options, assets: Assets) -> Seq<char> {
    head_markup(options.title@) + style_markup(options.with_css, assets) + script_markup(
        options.with_js,
        assets,
    ) + extra_markup(options.extra_meta) + BODY_OPEN@ + extra_markup(options.extra_header)
        + MAIN_OPEN@ + blocks_markup(blocks, blocks.len()) + MAIN_CLOSE@ + extra_markup(
        options.extra_footer,
    ) + BODY_CLOSE@
}

/// Whether a file with the extension `extension` holds Markdown.
pub fn is_markdown_extension(extension: &str) -> (r: bool)
    ensures
        r == markdown_extension(extension@),
{
    same_text(extension, "md") || same_text(extension, "mdown") || same_text(
        extension,
        "markdown",
    )
}

/// The extension of the path `path`, as `std::path::Path::extension` gives
/// it, where it has one that is valid Unicode. Nothing is claimed of it: how a
/// path divides depends on the platform.
#[verifier::external_body]
fn path_extension(path: &str) -> (extension: Option<String>) {
    std::path::Path::new(path).extension().and_then(|e| e.to_str()).map(|e| e.to_string())
}

impl Extra {
    /// The extra content of a file with the text `content`, by the file's
    /// extension, if it has one: Markdown for a Markdown extension, raw text
    /// otherwise.
    pub fn with_extension(extension: Option<String>, content: String) -> (extra: Extra)
        ensures
            extra == extra_by_extension(
                match extension {
                    Some(e) => Some(e@),
                    None => None,
                },
                content,
            ),
    {
        match extension {
            Some(e) => {
                if is_markdown_extension(e.as_str()) {
                    Extra::Markdown(content)
                } else {
                    Extra::Raw(content)
                }
            },
            None => Extra::Raw(content),
        }
    }

    /// The extra content of the file at `path` with the text `content`: the
    /// text itself, as Markdown or raw by the extension of the path.
    pub fn from_file(path: &str, content: String) -> (extra: Extra)
        ensures
            extra == Extra::Markdown(content) || extra == Extra::Raw(content),
    {
        Extra::with_extension(path_extension(path), content)
    }
}

/// The head of the page up to the end of the title element.
pub fn head_html(title: &str) -> (out: String)
    ensures
        out@ == head_markup(title@),
{
    let mut out = String::from_str(HEAD_OPEN);
    out.append(TITLE_OPEN);
    out.append(title);
    out.append(TITLE_CLOSE);
    out
}

/// Appends the stylesheet and script elements that `options` asks for.
fn push_assets(out: &mut String, options: &Options, assets: &Assets)
    ensures
        final(out)@ == old(out)@ + style_markup(options.with_css, *assets) + script_markup(
            options.with_js,
            *assets,
        ),
{
    if options.with_css {
        out.append(STYLE_OPEN);
        out.append(assets.stylesheet.as_str());
        out.append(STYLE_CLOSE);
    }
    let ghost mid = out@;
    assert(mid =~= old(out)@ + style_markup(options.with_css, *assets));
    if options.with_js {
        out.append(SCRIPT_OPEN);
        out.append(assets.highlighter.as_str());
        out.append(assets.grammar.as_str());
        out.append(assets.line_numbers.as_str());
        out.append(SCRIPT_CLOSE);
    }
    assert(out@ =~= mid + script_markup(options.with_js, *assets));
}

/// Appends what an extra content adds to the page.
fn push_extra(out: &mut String, extra: &Option<Extra>)
    ensures
        final(out)@ == old(out)@ + extra_markup(*extra),
{
    match extra {
        None => {
            assert(out@ =~= old(out)@ + extra_markup(*extra));
        },
        Some(Extra::Raw(text)) => {
            out.append(text.as_str());
        },
        Some(Extra::Markdown(source)) => {
            let html = render(source.as_str());
            out.append(html.as_str());
        },
    }
}

/// The code panel of `block`.
pub fn code_html(block: &Block) -> (out: String)
    ensures
        out@ == code_panel(block@),
{
    let shown = escape_lines(block.code());
    let start = decimal_text(block.starting_line());
    let mut out = String::from_str(CODE_OPEN);
    out.append(start.as_str());
    out.append(CODE_MIDDLE);
    out.append(shown.as_str());
    out.append(CODE_CLOSE);
    out
}

/// The markup of `block`, which stands at `index` in the page, given its
/// comment already rendered to HTML.
pub fn block_html(index: usize, block: &Block, rendered: &str) -> (out: String)
    ensures
        out@ == block_markup(index as nat, block@, rendered@),
{
    let number = decimal_text(index);
    let mut out = String::from_str(BLOCK_OPEN);
    out.append(number.as_str());
    out.append(BLOCK_MIDDLE);
    out.append(rendered);
    let ghost before = out@;
    if block.has_code() {
        let panel = code_html(block);
        out.append(panel.as_str());
    }
    assert(out@ =~= before + (if has_visible_code(block@.code) {
        code_panel(block@)
    } else {
        Seq::empty()
    }));
    out.append(BLOCK_CLOSE);
    out
}

/// The comment of `block`, its lines joined, rendered as Markdown.
pub fn comment_html(block: &Block) -> (out: String)
    ensures
        out@ == markdown_html(joined(block@.comment)),
{
    let source = join_lines(block.comment());
    render(source.as_str())
}

/// Builds the page: the head with the title, the stylesheet and the scripts
/// where they are asked for, the extra content of the head, the body with
/// its extra header, every block in order under its index, and the extra
/// footer.
pub fn build_html(blocks: Vec<Block>, options: Options, assets: &Assets) -> (out: String)
    ensures
        out@ == page(block_views(blocks@), options, *assets),
{
    let mut out = head_html(options.title.as_str());
    push_assets(&mut out, &options, assets);
    push_extra(&mut out, &options.extra_meta);
    out.append(BODY_OPEN);
    push_extra(&mut out, &options.extra_header);
    out.append(MAIN_OPEN);
    let ghost before = out@;
    let mut i: usize = 0;
    while i < blocks.len()
        invariant
            i <= blocks.len(),
            out@ == before + blocks_markup(block_views(blocks@), i as nat),
        decreases blocks.len() - i,
    {
        let rendered = comment_html(&blocks[i]);
        let markup = block_html(i, &blocks[i], rendered.as_str());
        out.append(markup.as_str());
        assert(out@ =~= before + blocks_markup(block_views(blocks@), (i + 1) as nat));
        i += 1;
    }
    out.append(MAIN_CLOSE);
    push_extra(&mut out, &options.extra_footer);
    out.append(BODY_CLOSE);
    out
}

/// The title stands in the page as it is: every page begins with the opening
/// of the head and a title element that holds the title, character for
/// character, and nothing else.
pub proof fn lemma_title_stands_as_it_is(
    blocks: Seq<BlockView>,
    options: Options,
    assets: Assets,
)
    ensures
        (HEAD_OPEN@ + "<title>"@ + options.title@ + "</title>\n"@).is_prefix_of(
            page(blocks, options, assets),
        ),
{
    let head = HEAD_OPEN@ + "<title>"@ + options.title@ + "</title>\n"@;
    let whole = page(blocks, options, assets);
    assert(head == head_markup(options.title@));
    assert(whole.subrange(0, head.len() as int) =~= head);
}

/// Without the stylesheet switched on, nothing of it is in the page: the
/// stylesheet element is empty, and the page is the same whatever the
/// stylesheet holds.
pub proof fn lemma_no_stylesheet_without_css(
    blocks: Seq<BlockView>,
    options: Options,
    assets: Assets,
    other: Assets,
)
    requires
        !options.with_css,
        other.highlighter == assets.highlighter,
        other.grammar == assets.grammar,
        other.line_numbers == assets.line_numbers,
    ensures
        style_markup(options.with_css, assets) == Seq::<char>::empty(),
        page(blocks, options, assets) == page(blocks, options, other),
{
}

/// Without the scripts switched on, nothing of them is in the page: the
/// script element is empty, and the page is the same whatever the scripts
/// hold.
pub proof fn lemma_no_scripts_without_js(
    blocks: Seq<BlockView>,
    options: Options,
    assets: Assets,
    other: Assets,
)
    requires
        !options.with_js,
        other.stylesheet == assets.stylesheet,
    ensures
        script_markup(options.with_js, assets) == Seq::<char>::empty(),
        page(blocks, options, assets) == page(blocks, options, other),
{
}

} // verus!
