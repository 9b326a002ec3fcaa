//! A block: one comment passage together with the code that follows it.

use vstd::prelude::*;
use crate::text::{blank, is_blank, views};

verus! {

/// What a block holds, as plain sequences of lines.
pub struct BlockView {
    /// The comment lines, markers stripped and trimmed, in source order.
    pub comment: Seq<Seq<char>>,
    /// The code lines as they stand in the source, in source order.
    pub code: Seq<Seq<char>>,
    /// The number, counted from 1, of the source line at which the block
    /// was opened; 0 for a caption.
    pub starting_line: nat,
}

/// A block that holds no line yet and was opened at `starting_line`.
pub open spec fn empty_block(starting_line: nat) -> BlockView {
    BlockView { comment: Seq::empty(), code: Seq::empty(), starting_line }
}

/// The comment line that announces a source file in a page made of several.
pub open spec fn caption(title: Seq<char>, path: Seq<char>) -> Seq<char> {
    "**`"@ + title + "`** (in `"@ + path + "`)"@
}

/// The block that announces a source file: its caption as the only comment
/// line, and no code.
pub open spec fn caption_block(title: Seq<char>, path: Seq<char>) -> BlockView {
    BlockView { comment: seq![caption(title, path)], code: Seq::empty(), starting_line: 0 }
}

/// Whether some line of `code` shows more than whitespace.
pub open spec fn has_visible_code(code: Seq<Seq<char>>) -> bool {
    exists|i: int| 0 <= i < code.len() && !is_blank(#[trigger] code[i])
}

/// A block whose code lines, if it has any, all hold nothing but whitespace
/// has no code to show; so a block without code lines has none.
pub proof fn lemma_blank_code_is_not_shown(code: Seq<Seq<char>>)
    requires
        forall|i: int| 0 <= i < code.len() ==> is_blank(#[trigger] code[i]),
    ensures
        !has_visible_code(code),
{
}

/// The views of the blocks of `blocks`, in order.
pub open spec fn block_views(blocks: Seq<Block>) -> Seq<BlockView> {
    blocks.map_values(|b: Block| b@)
}

/// Comment lines and the code that follows them. Lines are only ever
/// appended.
pub struct Block {
    comment: Vec<String>,
    code: Vec<String>,
    starting_line: usize,
}

impl View for Block {
    type V = BlockView;

    closed spec fn view(&self) -> BlockView {
        BlockView {
            comment: views(self.comment@),
            code: views(self.code@),
            starting_line: self.starting_line as nat,
        }
    }
}

impl Block {
    /// An empty block opened at line `starting_line`.
    pub fn new(starting_line: usize) -> (block: Block)
        ensures
            block@ == empty_block(starting_line as nat),
    {
        let block = Block { comment: Vec::new(), code: Vec::new(), starting_line };
        assert(block@.comment =~= Seq::empty());
        assert(block@.code =~= Seq::empty());
        block
    }

    /// The block that announces the file `title` found in the directory
    /// `path`.
    pub fn new_file(title: &str, path: &str) -> (block: Block)
        ensures
            block@ == caption_block(title@, path@),
    {
        let mut line = String::from_str("**`");
        line.append(title);
        line.append("`** (in `");
        line.append(path);
        line.append("`)");
        let mut comment: Vec<String> = Vec::new();
        comment.push(line);
        let block = Block { comment, code: Vec::new(), starting_line: 0 };
        assert(block@.comment =~= seq![caption(title@, path@)]);
        assert(block@.code =~= Seq::empty());
        block
    }

    /// Whether the block has code to show: some code line that holds more
    /// than whitespace.
    pub fn has_code(&self) -> (r: bool)
        ensures
            r == has_visible_code(self@.code),
    {
        let mut i: usize = 0;
        while i < self.code.len()
            invariant
                i <= self.code.len(),
                forall|j: int| 0 <= j < i ==> is_blank(#[trigger] self@.code[j]),
            decreases self.code.len() - i,
        {
            if !blank(self.code[i].as_str()) {
                assert(!is_blank(self@.code[i as int]));
                return true;
            }
            i += 1;
        }
        false
    }

    /// Appends one comment line.
    pub fn push_comment(&mut self, line: String)
        ensures
            final(self)@ == (BlockView { comment: old(self)@.comment.push(line@), ..old(self)@ }),
    {
        self.comment.push(line);
        assert(self@.comment =~= old(self)@.comment.push(line@));
    }

    /// Appends one code line.
    pub fn push_code(&mut self, line: String)
        ensures
            final(self)@ == (BlockView { code: old(self)@.code.push(line@), ..old(self)@ }),
    {
        self.code.push(line);
        assert(self@.code =~= old(self)@.code.push(line@));
    }

    /// The comment lines.
    pub fn comment(&self) -> (lines: &Vec<String>)
        ensures
            views(lines@) == self@.comment,
    {
        &self.comment
    }

    /// The code lines.
    pub fn code(&self) -> (lines: &Vec<String>)
        ensures
            views(lines@) == self@.code,
    {
        &self.code
    }

    /// The line at which the block was opened.
    pub fn starting_line(&self) -> (n: usize)
        ensures
            n as nat == self@.starting_line,
    {
        self.starting_line
    }
}

} // verus!
