//! What holds of the blocks of every source file: no line is lost or moved,
//! blocks only grow, and a block begins exactly where a comment follows code
//! or a comment of another style.

use vstd::prelude::*;
use crate::block::{empty_block, BlockView};
use crate::extract::{
    comment_body, comment_kind, extract_spec, is_comment, scan, step, stored_form, CommentKind,
    ScanState,
};

verus! {

/// What the blocks keep of each line of `lines`, in order.
pub open spec fn stored_forms(lines: Seq<Seq<char>>) -> Seq<Seq<char>> {
    Seq::new(lines.len(), |i: int| stored_form(lines[i]))
}

/// The lines that `blocks` hold, block by block, each block's comment lines
/// before its code lines.
pub open spec fn stored_lines(blocks: Seq<BlockView>) -> Seq<Seq<char>>
    decreases blocks.len(),
{
    if blocks.len() == 0 {
        Seq::empty()
    } else {
        stored_lines(blocks.drop_last()) + blocks.last().comment + blocks.last().code
    }
}

/// The index, among the blocks of `lines`, of the block that line `i` goes
/// into.
pub open spec fn block_index(lines: Seq<Seq<char>>, i: nat) -> nat {
    scan(lines, i + 1).done.len()
}

/// Whether `whole` begins with the lines of `start`.
pub open spec fn begins_with(whole: Seq<Seq<char>>, start: Seq<Seq<char>>) -> bool {
    &&& start.len() <= whole.len()
    &&& forall|j: int| 0 <= j < start.len() ==> whole[j] == start[j]
}

/// Whether `later` is `earlier` with lines appended: opened at the same
/// line, and beginning with the same comment and code lines.
pub open spec fn extends(later: BlockView, earlier: BlockView) -> bool {
    &&& later.starting_line == earlier.starting_line
    &&& begins_with(later.comment, earlier.comment)
    &&& begins_with(later.code, earlier.code)
}

/// Whether `block` holds `line` in the form in which blocks keep it.
pub open spec fn keeps(block: BlockView, line: Seq<char>) -> bool {
    if is_comment(line) {
        block.comment.contains(comment_body(line))
    } else {
        block.code.contains(line)
    }
}

/// The block at index `k` as it stands in state `s`: closed, or the one
/// still open.
spec fn block_at(s: ScanState, k: int) -> BlockView {
    if k < s.done.len() {
        s.done[k]
    } else {
        s.current
    }
}

proof fn lemma_scan_stores(lines: Seq<Seq<char>>, n: nat)
    requires
        n <= lines.len(),
    ensures
        ({
            let s = scan(lines, n);
            &&& stored_lines(s.done) + s.current.comment + s.current.code == stored_forms(
                lines.take(n as int),
            )
            &&& !s.in_code ==> s.current.code.len() == 0
            &&& s.in_code ==> s.kind == CommentKind::Any
        }),
    decreases n,
{
    let s = scan(lines, n);
    if n == 0 {
        assert(stored_lines(s.done) + s.current.comment + s.current.code =~= stored_forms(
            lines.take(0),
        ));
    } else {
        lemma_scan_stores(lines, (n - 1) as nat);
        let p = scan(lines, (n - 1) as nat);
        let line = lines[n - 1];
        let before = stored_forms(lines.take(n - 1));
        let now = stored_forms(lines.take(n as int));
        assert(now =~= before.push(stored_form(line)));
        assert(s == step(p, line, (n - 1) as nat));
        if is_comment(line) && (p.in_code || (p.kind != CommentKind::Any && p.kind != comment_kind(
            line,
        ))) {
            assert(s.done.drop_last() =~= p.done);
            assert(s.current.comment =~= seq![comment_body(line)]);
        }
        assert(stored_lines(s.done) + s.current.comment + s.current.code =~= (stored_lines(p.done)
            + p.current.comment + p.current.code).push(stored_form(line)));
    }
}

/// Every line of a source file stands in its blocks exactly once and in the
/// order of the file: read block by block, comment before code, the blocks
/// hold the file's lines, each comment line as its text and each code line as
/// it stands.
pub proof fn lemma_partition_complete(lines: Seq<Seq<char>>)
    ensures
        stored_lines(extract_spec(lines)) == stored_forms(lines),
{
    lemma_scan_stores(lines, lines.len());
    let s = scan(lines, lines.len());
    let blocks = extract_spec(lines);
    assert(blocks.drop_last() =~= s.done);
    assert(lines.take(lines.len() as int) =~= lines);
}

proof fn lemma_step_grows(s: ScanState, line: Seq<char>, idx: nat)
    ensures
        ({
            let t = step(s, line, idx);
            &&& s.done.len() <= t.done.len()
            &&& forall|j: int| 0 <= j < s.done.len() ==> t.done[j] == s.done[j]
            &&& extends(block_at(t, s.done.len() as int), s.current)
        }),
{
}

proof fn lemma_scan_grows(lines: Seq<Seq<char>>, n: nat, m: nat)
    requires
        n <= m <= lines.len(),
    ensures
        ({
            let a = scan(lines, n);
            let b = scan(lines, m);
            &&& a.done.len() <= b.done.len()
            &&& forall|j: int| 0 <= j < a.done.len() ==> b.done[j] == a.done[j]
            &&& extends(block_at(b, a.done.len() as int), a.current)
        }),
    decreases m - n,
{
    if m > n {
        lemma_scan_grows(lines, n, (m - 1) as nat);
        let p = scan(lines, (m - 1) as nat);
        lemma_step_grows(p, lines[m - 1], (m - 1) as nat);
    }
}

/// Blocks only grow. The block that is open after the first `n` lines of a
/// file is found among the file's blocks, at the index that follows the blocks
/// closed by then, opened at the same line and beginning with the same
/// comment and code lines; and the blocks closed by then are the first blocks
/// of the file, unchanged.
pub proof fn lemma_blocks_only_grow(lines: Seq<Seq<char>>, n: nat)
    requires
        n <= lines.len(),
    ensures
        ({
            let s = scan(lines, n);
            let blocks = extract_spec(lines);
            &&& s.done.len() < blocks.len()
            &&& extends(blocks[s.done.len() as int], s.current)
            &&& forall|j: int| 0 <= j < s.done.len() ==> blocks[j] == s.done[j]
        }),
{
    lemma_scan_grows(lines, n, lines.len());
}

/// Each line of a file stands in the block that it goes into.
pub proof fn lemma_line_is_kept(lines: Seq<Seq<char>>, i: nat)
    requires
        i < lines.len(),
    ensures
        block_index(lines, i) < extract_spec(lines).len(),
        keeps(extract_spec(lines)[block_index(lines, i) as int], lines[i as int]),
{
    lemma_blocks_only_grow(lines, i + 1);
    let s = scan(lines, i + 1);
    let block = extract_spec(lines)[s.done.len() as int];
    let line = lines[i as int];
    assert(s == step(scan(lines, i), line, i));
    if is_comment(line) {
        let at = s.current.comment.len() - 1;
        assert(s.current.comment[at] == comment_body(line));
        assert(block.comment[at] == comment_body(line));
    } else {
        let at = s.current.code.len() - 1;
        assert(s.current.code[at] == line);
        assert(block.code[at] == line);
    }
}

/// A file without lines has one block, empty and opened at line 1.
pub proof fn lemma_empty_file_has_one_empty_block()
    ensures
        extract_spec(Seq::empty()) == seq![empty_block(1)],
{
    assert(extract_spec(Seq::empty()) =~= seq![empty_block(1)]);
}

/// The first line of a file goes into the first block, which is opened at
/// line 1; the last line goes into the last block.
pub proof fn lemma_first_and_last_block(lines: Seq<Seq<char>>)
    requires
        lines.len() > 0,
    ensures
        block_index(lines, 0) == 0,
        extract_spec(lines)[0].starting_line == 1,
        extract_spec(lines).len() == block_index(lines, (lines.len() - 1) as nat) + 1,
{
    assert(scan(lines, 1) == step(scan(lines, 0), lines[0], 0));
    lemma_blocks_only_grow(lines, 0);
}

proof fn lemma_opens_block(lines: Seq<Seq<char>>, i: nat)
    requires
        i + 1 < lines.len(),
        is_comment(lines[(i + 1) as int]),
        !is_comment(lines[i as int]) || comment_kind(lines[i as int]) != comment_kind(
            lines[(i + 1) as int],
        ),
    ensures
        ({
            let blocks = extract_spec(lines);
            let k = block_index(lines, i + 1);
            &&& k == block_index(lines, i) + 1
            &&& k < blocks.len()
            &&& blocks[k as int].starting_line == i + 2
            &&& blocks[k as int].comment.len() > 0
            &&& blocks[k as int].comment[0] == comment_body(lines[(i + 1) as int])
        }),
{
    lemma_scan_stores(lines, i + 1);
    lemma_blocks_only_grow(lines, i + 2);
    let p = scan(lines, i + 1);
    let s = scan(lines, i + 2);
    assert(p == step(scan(lines, i), lines[i as int], i));
    assert(s == step(p, lines[(i + 1) as int], i + 1));
    assert(s.done == p.done.push(p.current));
    assert(s.current.comment =~= seq![comment_body(lines[(i + 1) as int])]);
    assert(s.current.comment[0] == comment_body(lines[(i + 1) as int]));
}

/// A comment line that follows a code line begins a new block: the block it
/// goes into is the one after the block of the code line, is opened at the
/// comment line's number, and has the comment line's text as its first
/// comment line.
pub proof fn lemma_comment_after_code_begins_block(lines: Seq<Seq<char>>, i: nat)
    requires
        i + 1 < lines.len(),
        !is_comment(lines[i as int]),
        is_comment(lines[(i + 1) as int]),
    ensures
        ({
            let blocks = extract_spec(lines);
            let k = block_index(lines, i + 1);
            &&& k == block_index(lines, i) + 1
            &&& k < blocks.len()
            &&& blocks[k as int].starting_line == i + 2
            &&& blocks[k as int].comment.len() > 0
            &&& blocks[k as int].comment[0] == comment_body(lines[(i + 1) as int])
        }),
{
    lemma_opens_block(lines, i);
}

/// A comment line that follows a comment line of another style begins a new
/// block, in the same sense.
pub proof fn lemma_change_of_style_begins_block(lines: Seq<Seq<char>>, i: nat)
    requires
        i + 1 < lines.len(),
        is_comment(lines[i as int]),
        is_comment(lines[(i + 1) as int]),
        comment_kind(lines[i as int]) != comment_kind(lines[(i + 1) as int]),
    ensures
        ({
            let blocks = extract_spec(lines);
            let k = block_index(lines, i + 1);
            &&& k == block_index(lines, i) + 1
            &&& k < blocks.len()
            &&& blocks[k as int].starting_line == i + 2
            &&& blocks[k as int].comment.len() > 0
            &&& blocks[k as int].comment[0] == comment_body(lines[(i + 1) as int])
        }),
{
    lemma_opens_block(lines, i);
}

/// A comment line that follows a comment line of its own style stays in the
/// block of that line.
pub proof fn lemma_same_style_stays_in_block(lines: Seq<Seq<char>>, i: nat)
    requires
        i + 1 < lines.len(),
        is_comment(lines[i as int]),
        is_comment(lines[(i + 1) as int]),
        comment_kind(lines[i as int]) == comment_kind(lines[(i + 1) as int]),
    ensures
        block_index(lines, i + 1) == block_index(lines, i),
{
    let p = scan(lines, i + 1);
    assert(p == step(scan(lines, i), lines[i as int], i));
    assert(scan(lines, i + 2) == step(p, lines[(i + 1) as int], i + 1));
}

/// A code line never begins a block: it goes into the block of the line
/// before it, comment or code, and that block holds both lines.
pub proof fn lemma_code_stays_in_block(lines: Seq<Seq<char>>, i: nat)
    requires
        i + 1 < lines.len(),
        !is_comment(lines[(i + 1) as int]),
    ensures
        ({
            let blocks = extract_spec(lines);
            let k = block_index(lines, i);
            &&& block_index(lines, i + 1) == k
            &&& k < blocks.len()
            &&& keeps(blocks[k as int], lines[i as int])
            &&& keeps(blocks[k as int], lines[(i + 1) as int])
        }),
{
    assert(scan(lines, i + 2) == step(scan(lines, i + 1), lines[(i + 1) as int], i + 1));
    lemma_line_is_kept(lines, i);
    lemma_line_is_kept(lines, i + 1);
}

} // verus!
