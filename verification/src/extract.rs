//! Segmentation: the lines of one source file are cut into blocks by a
//! single forward pass that remembers only what the line before it was.

use vstd::prelude::*;
use crate::block::{block_views, caption_block, empty_block, Block, BlockView};
use crate::text::{starts_with, trim, trimmed, views};

verus! {

/// The style of a comment line's marker. `Any` stands for "no comment seen
/// since the last code line".
#[derive(Clone, Copy, Debug, PartialEq, Eq, Structural)]
pub enum CommentKind {
    /// A plain `//` marker.
    Simple,
    /// A module-level marker, `//!` or `// !`.
    Bang,
    /// A `///` marker.
    Doc,
    /// No style yet.
    Any,
}

/// Whether `line` is a comment line: trimmed, it begins with `//`.
pub open spec fn is_comment(line: Seq<char>) -> bool {
    "//"@.is_prefix_of(trimmed(line))
}

/// The style of the marker of the comment line `line`.
pub open spec fn comment_kind(line: Seq<char>) -> CommentKind {
    let t = trimmed(line);
    if "///"@.is_prefix_of(t) {
        CommentKind::Doc
    } else if "//!"@.is_prefix_of(t) {
        CommentKind::Bang
    } else if "// !"@.is_prefix_of(t) {
        CommentKind::Bang
    } else {
        CommentKind::Simple
    }
}

/// The number of characters of the marker of the comment line `line`.
pub open spec fn marker_len(line: Seq<char>) -> int {
    let t = trimmed(line);
    if "///"@.is_prefix_of(t) {
        3
    } else if "//!"@.is_prefix_of(t) {
        3
    } else if "// !"@.is_prefix_of(t) {
        4
    } else {
        2
    }
}

/// The text of the comment line `line`: what follows its marker, trimmed.
pub open spec fn comment_body(line: Seq<char>) -> Seq<char> {
    let t = trimmed(line);
    trimmed(t.subrange(marker_len(line), t.len() as int))
}

/// What a block keeps of `line`: the text of a comment line, a code line as
/// it stands.
pub open spec fn stored_form(line: Seq<char>) -> Seq<char> {
    if is_comment(line) {
        comment_body(line)
    } else {
        line
    }
}

/// The state of the pass between two lines.
pub struct ScanState {
    /// The blocks that are closed, in order.
    pub done: Seq<BlockView>,
    /// The block that lines are being appended to.
    pub current: BlockView,
    /// Whether the line before was a code line.
    pub in_code: bool,
    /// The style of the comment line before; `Any` after a code line and at
    /// the start.
    pub kind: CommentKind,
}

/// The state before the first line: one empty block, opened at line 1.
pub open spec fn initial_state() -> ScanState {
    ScanState {
        done: Seq::empty(),
        current: empty_block(1),
        in_code: false,
        kind: CommentKind::Any,
    }
}

/// `s` after its current block is closed and an empty one is opened at line
/// `line_number`.
pub open spec fn close_block(s: ScanState, line_number: nat) -> ScanState {
    ScanState { done: s.done.push(s.current), current: empty_block(line_number), ..s }
}

/// The state after `line`, the line at index `idx` counted from 0, is taken
/// in state `s`.
///
/// A comment line closes the current block where the line before was code,
/// and where the line before was a comment of another style; then its text
/// joins the current block's comment. A code line joins the current block's
/// code and closes nothing.
pub open spec fn step(s: ScanState, line: Seq<char>, idx: nat) -> ScanState {
    if is_comment(line) {
        let k = comment_kind(line);
        let s1 = if s.in_code {
            close_block(s, idx + 1)
        } else {
            s
        };
        let s2 = if s.kind != CommentKind::Any && s.kind != k {
            close_block(s1, idx + 1)
        } else {
            s1
        };
        ScanState {
            done: s2.done,
            current: BlockView {
                comment: s2.current.comment.push(comment_body(line)),
                ..s2.current
            },
            in_code: false,
            kind: k,
        }
    } else {
        ScanState {
            done: s.done,
            current: BlockView { code: s.current.code.push(line), ..s.current },
            in_code: true,
            kind: CommentKind::Any,
        }
    }
}

/// The state after the first `n` lines of `lines`.
pub open spec fn scan(lines: Seq<Seq<char>>, n: nat) -> ScanState
    decreases n,
{
    if n == 0 || n > lines.len() {
        initial_state()
    } else {
        step(scan(lines, (n - 1) as nat), lines[n - 1], (n - 1) as nat)
    }
}

/// The blocks of a source file: those closed during the pass over all its
/// lines, then the one still open at the end, empty or not.
pub open spec fn extract_spec(lines: Seq<Seq<char>>) -> Seq<BlockView> {
    let s = scan(lines, lines.len());
    s.done.push(s.current)
}

/// Tells a comment line from a code line: for a comment line, the style of
/// its marker and its text; for a code line, nothing.
pub fn classify(line: &str) -> (r: Option<(CommentKind, String)>)
    ensures
        match r {
            Some((kind, body)) => is_comment(line@) && kind == comment_kind(line@) && body@
                == comment_body(line@),
            None => !is_comment(line@),
        },
{
    let t = trim(line);
    if !starts_with(t, "//") {
        return None;
    }
    proof {
        reveal_strlit("//");
        reveal_strlit("///");
        reveal_strlit("//!");
        reveal_strlit("// !");
    }
    let n: usize = t.unicode_len();
    let (len, kind): (usize, CommentKind) = if starts_with(t, "///") {
        (3, CommentKind::Doc)
    } else if starts_with(t, "//!") {
        (3, CommentKind::Bang)
    } else if starts_with(t, "// !") {
        (4, CommentKind::Bang)
    } else {
        (2, CommentKind::Simple)
    };
    let body = trim(t.substring_char(len, n));
    Some((kind, String::from_str(body)))
}

/// The pass over the lines of one source file, fed line by line.
pub struct Scanner {
    done: Vec<Block>,
    current: Block,
    in_code: bool,
    kind: CommentKind,
}

impl View for Scanner {
    type V = ScanState;

    closed spec fn view(&self) -> ScanState {
        ScanState {
            done: block_views(self.done@),
            current: self.current@,
            in_code: self.in_code,
            kind: self.kind,
        }
    }
}

impl Scanner {
    /// A pass that has seen no line yet.
    pub fn new() -> (scanner: Scanner)
        ensures
            scanner@ == initial_state(),
    {
        let scanner = Scanner {
            done: Vec::new(),
            current: Block::new(1),
            in_code: false,
            kind: CommentKind::Any,
        };
        assert(scanner@.done =~= Seq::empty());
        scanner
    }

    fn close(&mut self, line_number: usize)
        ensures
            final(self)@ == close_block(old(self)@, line_number as nat),
    {
        let mut block = Block::new(line_number);
        core::mem::swap(&mut self.current, &mut block);
        self.done.push(block);
        assert(self@.done =~= old(self)@.done.push(old(self)@.current));
    }

    /// Takes the line at index `idx`, counted from 0.
    pub fn feed(&mut self, line: &str, idx: usize)
        requires
            idx < usize::MAX,
        ensures
            final(self)@ == step(old(self)@, line@, idx as nat),
    {
        match classify(line) {
            Some((kind, body)) => {
                if self.in_code {
                    self.close(idx + 1);
                }
                if self.kind != CommentKind::Any && self.kind != kind {
                    self.close(idx + 1);
                }
                self.in_code = false;
                self.kind = kind;
                self.current.push_comment(body);
            },
            None => {
                self.in_code = true;
                self.kind = CommentKind::Any;
                self.current.push_code(String::from_str(line));
            },
        }
    }

    /// Ends the pass: the closed blocks, then the one still open.
    pub fn finish(self) -> (blocks: Vec<Block>)
        ensures
            block_views(blocks@) == self@.done.push(self@.current),
    {
        let mut blocks = self.done;
        blocks.push(self.current);
        assert(block_views(blocks@) =~= self@.done.push(self@.current));
        blocks
    }
}

/// Cuts the lines of one source file into blocks.
pub fn extract(lines: &Vec<String>) -> (blocks: Vec<Block>)
    ensures
        block_views(blocks@) == extract_spec(views(lines@)),
{
    let mut scanner = Scanner::new();
    let mut i: usize = 0;
    while i < lines.len()
        invariant
            i <= lines.len(),
            scanner@ == scan(views(lines@), i as nat),
        decreases lines.len() - i,
    {
        scanner.feed(lines[i].as_str(), i);
        i += 1;
    }
    scanner.finish()
}

/// The blocks of one source file of a page made of several: the caption that
/// announces the file `title` in the directory `path`, then the blocks of
/// its lines.
pub fn extract_with_caption(title: &str, path: &str, lines: &Vec<String>) -> (blocks: Vec<Block>)
    ensures
        block_views(blocks@) == seq![caption_block(title@, path@)] + extract_spec(views(lines@)),
{
    let mut blocks: Vec<Block> = Vec::new();
    blocks.push(Block::new_file(title, path));
    let mut rest = extract(lines);
    let ghost found = block_views(rest@);
    blocks.append(&mut rest);
    assert(block_views(blocks@) =~= seq![caption_block(title@, path@)] + found);
    blocks
}

} // verus!
