//! Duplicate-key resolution for per-program configuration text.
//!
//! A program's configuration is the master file concatenated with its
//! fragment files in lexicographic order.  A fragment overrides the
//! master by repeating a top-level key; the merged document keeps, for
//! every top-level key, the last occurrence across the concatenation.
//! The merge is a document-level re-emit: lines are grouped into
//! top-level blocks and superseded blocks are dropped.
use vstd::prelude::*;

use crate::text::{
    chars_of, chars_to_string, find_char, index_of_char, join_chars, join_on, split_chars,
    split_on, subrange_chars,
};

verus! {

/// A top-level block of a document: the key of its first line, and all of
/// its lines (the key line included).
pub type BlockView = (Seq<char>, Seq<Seq<char>>);

/// A line that begins a top-level block: non-empty, not indented, not a
/// comment, and carrying a key separator.
pub open spec fn is_key_line(l: Seq<char>) -> bool {
    l.len() > 0 && l[0] != ' ' && l[0] != '\t' && l[0] != '#' && find_char(l, ':') is Some
}

/// The key of a key line: the text before its first `:`.
pub open spec fn key_of(l: Seq<char>) -> Seq<char> {
    match find_char(l, ':') {
        Some(i) => if 0 <= i <= l.len() {
            l.subrange(0, i)
        } else {
            l
        },
        None => l,
    }
}

/// Group the lines of a document into a prologue (lines before the first
/// top-level key line) and the sequence of top-level blocks.
pub open spec fn split_blocks(lines: Seq<Seq<char>>) -> (Seq<Seq<char>>, Seq<BlockView>)
    decreases lines.len(),
{
    if lines.len() == 0 {
        (Seq::empty(), Seq::empty())
    } else {
        let r = split_blocks(lines.drop_last());
        split_blocks_step(r.0, r.1, lines.last())
    }
}

/// One line added to a grouping in progress: a key line opens a block,
/// any other line joins the last open block, or the prologue when no
/// block is open yet.
pub open spec fn split_blocks_step(pro: Seq<Seq<char>>, blocks: Seq<BlockView>, l: Seq<char>)
    -> (Seq<Seq<char>>, Seq<BlockView>) {
    if is_key_line(l) {
        (pro, blocks.push((key_of(l), seq![l])))
    } else if blocks.len() == 0 {
        (pro.push(l), blocks)
    } else {
        let b = blocks.last();
        (pro, blocks.drop_last().push((b.0, b.1.push(l))))
    }
}

/// Feed one line to the grouping.
fn push_line(pro: &mut Vec<Vec<char>>, blocks: &mut Vec<(Vec<char>, Vec<Vec<char>>)>, l: Vec<char>)
    ensures
        (final(pro).deep_view(), final(blocks).deep_view()) == split_blocks_step(
            old(pro).deep_view(),
            old(blocks).deep_view(),
            l@,
        ),
{
    let ghost lv = l@;
    if line_is_key_line(&l) {
        let k = line_key(&l);
        let mut ls: Vec<Vec<char>> = Vec::new();
        ls.push(l);
        let ghost bs = blocks.deep_view();
        blocks.push((k, ls));
        proof {
            assert(blocks.deep_view() =~~= bs.push((key_of(lv), seq![lv])));
        }
    } else if blocks.len() == 0 {
        let ghost ps = pro.deep_view();
        pro.push(l);
        proof {
            assert(pro.deep_view() =~~= ps.push(lv));
        }
    } else {
        let ghost bs = blocks.deep_view();
        let mut b = blocks.pop().unwrap();
        proof {
            assert(bs.drop_last() =~= blocks.deep_view());
            assert(b.deep_view() == bs.last());
        }
        let ghost blines = b.1.deep_view();
        b.1.push(l);
        proof {
            assert(b.1.deep_view() =~~= blines.push(lv));
        }
        blocks.push(b);
        proof {
            assert(blocks.deep_view() =~~= bs.drop_last().push(
                (bs.last().0, bs.last().1.push(lv)),
            ));
        }
    }
}

/// `blocks` without the blocks whose key is `k`.
pub open spec fn remove_key(blocks: Seq<BlockView>, k: Seq<char>) -> Seq<BlockView>
    decreases blocks.len(),
{
    if blocks.len() == 0 {
        Seq::empty()
    } else {
        let init = remove_key(blocks.drop_last(), k);
        if blocks.last().0 == k {
            init
        } else {
            init.push(blocks.last())
        }
    }
}

/// Keep, for every key, the last block with that key; a block settles at
/// the position of its key's last occurrence.
pub open spec fn keep_last(blocks: Seq<BlockView>) -> Seq<BlockView>
    decreases blocks.len(),
{
    if blocks.len() == 0 {
        Seq::empty()
    } else {
        remove_key(keep_last(blocks.drop_last()), blocks.last().0).push(blocks.last())
    }
}

/// The lines of a sequence of blocks, in order.
pub open spec fn block_lines(blocks: Seq<BlockView>) -> Seq<Seq<char>>
    decreases blocks.len(),
{
    if blocks.len() == 0 {
        Seq::empty()
    } else {
        block_lines(blocks.drop_last()).add(blocks.last().1)
    }
}

/// The merged document of `s`: its lines regrouped so that for every
/// top-level key only the last block remains.
pub open spec fn merged_config(s: Seq<char>) -> Seq<char> {
    let lines = split_on(s, '\n');
    let grouped = split_blocks(lines);
    join_on(grouped.0.add(block_lines(keep_last(grouped.1))), '\n')
}

/// Merge a configuration document: for every top-level key, the last
/// occurrence across the text wins; lines before the first key line are
/// kept in front.
#[verifier::rlimit(60)]
pub fn merge_config_text(input: &str) -> (r: String)
    ensures
        r@ == merged_config(input@),
{
    let chars = chars_of(input);
    let lines = split_chars(&chars, '\n');
    let ghost lines0 = lines.deep_view();
    let mut pro: Vec<Vec<char>> = Vec::new();
    let mut blocks: Vec<(Vec<char>, Vec<Vec<char>>)> = Vec::new();
    let mut i: usize = 0;
    while i < lines.len()
        invariant
            i <= lines@.len(),
            lines.deep_view() == lines0,
            lines0.len() == lines@.len(),
            (pro.deep_view(), blocks.deep_view()) == split_blocks(lines0.subrange(0, i as int)),
        decreases lines@.len() - i,
    {
        let ghost prefix = lines0.subrange(0, i as int);
        let ghost prefix1 = lines0.subrange(0, i + 1 as int);
        proof {
            assert(prefix1.drop_last() =~= prefix);
            assert(prefix1.last() == lines0[i as int]);
            assert(lines0[i as int] == lines@[i as int].deep_view());
            assert(lines@[i as int].deep_view() =~= lines@[i as int]@);
        }
        let l = subrange_chars(&lines[i], 0, lines[i].len());
        proof {
            assert(l@ =~= lines0[i as int]);
        }
        push_line(&mut pro, &mut blocks, l);
        i += 1;
    }
    proof {
        assert(lines0.subrange(0, lines0.len() as int) =~= lines0);
    }
    let merged = keep_last_exec(&blocks);
    let mut out_lines: Vec<Vec<char>> = pro;
    let ghost pro0 = out_lines.deep_view();
    let mut j: usize = 0;
    while j < merged.len()
        invariant
            j <= merged@.len(),
            out_lines.deep_view() == pro0.add(
                block_lines(merged.deep_view().subrange(0, j as int)),
            ),
        decreases merged@.len() - j,
    {
        let ghost mprefix = merged.deep_view().subrange(0, j as int);
        let ghost mprefix1 = merged.deep_view().subrange(0, j + 1 as int);
        proof {
            assert(mprefix1.drop_last() =~= mprefix);
            assert(mprefix1.last() == merged.deep_view()[j as int]);
        }
        let mut k: usize = 0;
        let ghost cur = merged.deep_view()[j as int].1;
        proof {
            assert(cur == merged@[j as int].1.deep_view());
        }
        while k < merged[j].1.len()
            invariant
                j < merged@.len(),
                k <= merged@[j as int].1@.len(),
                cur == merged@[j as int].1.deep_view(),
                cur.len() == merged@[j as int].1@.len(),
                out_lines.deep_view() == pro0.add(block_lines(mprefix)).add(
                    cur.subrange(0, k as int),
                ),
            decreases merged@[j as int].1@.len() - k,
        {
            let line = subrange_chars(&merged[j].1[k], 0, merged[j].1[k].len());
            proof {
                assert(merged@[j as int].1@[k as int].deep_view() =~= merged@[j as int].1@[
                    k as int]@);
                assert(line@ =~= cur[k as int]);
            }
            let ghost ol = out_lines.deep_view();
            out_lines.push(line);
            proof {
                assert(out_lines.deep_view() =~~= ol.push(cur[k as int]));
                assert(out_lines.deep_view() =~~= pro0.add(block_lines(mprefix)).add(
                    cur.subrange(0, k + 1 as int),
                ));
            }
            k += 1;
        }
        proof {
            assert(cur.subrange(0, cur.len() as int) =~= cur);
            assert(block_lines(mprefix1) =~= block_lines(mprefix).add(cur));
            assert(out_lines.deep_view() =~~= pro0.add(block_lines(mprefix1)));
        }
        j += 1;
    }
    proof {
        assert(merged.deep_view().subrange(0, merged.deep_view().len() as int)
            =~= merged.deep_view());
    }
    let joined = join_chars(&out_lines, '\n');
    chars_to_string(&joined)
}

/// Whether this line begins a top-level block.
fn line_is_key_line(l: &Vec<char>) -> (r: bool)
    ensures
        r == is_key_line(l@),
{
    if l.len() == 0 {
        return false;
    }
    let c = l[0];
    if c == ' ' || c == '\t' || c == '#' {
        return false;
    }
    index_of_char(l, ':').is_some()
}

/// The key of a key line.
fn line_key(l: &Vec<char>) -> (r: Vec<char>)
    requires
        is_key_line(l@),
    ensures
        r@ == key_of(l@),
{
    match index_of_char(l, ':') {
        Some(i) => {
            proof {
                crate::text::lemma_find_char_some(l@, ':');
            }
            subrange_chars(l, 0, i)
        },
        None => subrange_chars(l, 0, l.len()),
    }
}

/// Drop every block whose key is `k`.
fn remove_key_exec(blocks: &Vec<(Vec<char>, Vec<Vec<char>>)>, k: &Vec<char>) -> (r: Vec<
    (Vec<char>, Vec<Vec<char>>),
>)
    ensures
        r.deep_view() == remove_key(blocks.deep_view(), k@),
{
    let mut r: Vec<(Vec<char>, Vec<Vec<char>>)> = Vec::new();
    let mut i: usize = 0;
    while i < blocks.len()
        invariant
            i <= blocks@.len(),
            r.deep_view() == remove_key(blocks.deep_view().subrange(0, i as int), k@),
        decreases blocks@.len() - i,
    {
        let ghost prefix = blocks.deep_view().subrange(0, i as int);
        let ghost prefix1 = blocks.deep_view().subrange(0, i + 1 as int);
        proof {
            assert(prefix1.drop_last() =~= prefix);
            assert(prefix1.last() == blocks.deep_view()[i as int]);
        }
        proof {
            assert(blocks.deep_view()[i as int].0 =~= blocks@[i as int].0@);
        }
        if chars_eq(&blocks[i].0, k) {
            proof {
                assert(blocks.deep_view()[i as int].0 == k@);
                assert(r.deep_view() == remove_key(prefix1, k@));
            }
        } else {
            let b = clone_block(&blocks[i]);
            let ghost r0 = r.deep_view();
            r.push(b);
            proof {
                assert(r.deep_view() =~~= r0.push(blocks.deep_view()[i as int]));
                assert(r.deep_view() == remove_key(prefix1, k@));
            }
        }
        i += 1;
    }
    proof {
        assert(blocks.deep_view().subrange(0, blocks.deep_view().len() as int)
            =~= blocks.deep_view());
    }
    r
}

/// Keep, for every key, only the last block carrying it.
fn keep_last_exec(blocks: &Vec<(Vec<char>, Vec<Vec<char>>)>) -> (r: Vec<
    (Vec<char>, Vec<Vec<char>>),
>)
    ensures
        r.deep_view() == keep_last(blocks.deep_view()),
{
    let mut r: Vec<(Vec<char>, Vec<Vec<char>>)> = Vec::new();
    let mut i: usize = 0;
    while i < blocks.len()
        invariant
            i <= blocks@.len(),
            r.deep_view() == keep_last(blocks.deep_view().subrange(0, i as int)),
        decreases blocks@.len() - i,
    {
        let ghost prefix = blocks.deep_view().subrange(0, i as int);
        let ghost prefix1 = blocks.deep_view().subrange(0, i + 1 as int);
        proof {
            assert(prefix1.drop_last() =~= prefix);
            assert(prefix1.last() == blocks.deep_view()[i as int]);
        }
        proof {
            assert(blocks.deep_view()[i as int].0 =~= blocks@[i as int].0@);
        }
        let cleaned = remove_key_exec(&r, &blocks[i].0);
        proof {
            assert(cleaned.deep_view() == remove_key(keep_last(prefix), prefix1.last().0));
        }
        let b = clone_block(&blocks[i]);
        let mut next = cleaned;
        let ghost n0 = next.deep_view();
        next.push(b);
        proof {
            assert(next.deep_view() =~~= n0.push(blocks.deep_view()[i as int]));
            assert(next.deep_view() == keep_last(prefix1));
        }
        r = next;
        i += 1;
    }
    proof {
        assert(blocks.deep_view().subrange(0, blocks.deep_view().len() as int)
            =~= blocks.deep_view());
    }
    r
}

/// Copy one block, preserving its view.
fn clone_block(b: &(Vec<char>, Vec<Vec<char>>)) -> (r: (Vec<char>, Vec<Vec<char>>))
    ensures
        r.deep_view() == b.deep_view(),
{
    let key = subrange_chars(&b.0, 0, b.0.len());
    let mut ls: Vec<Vec<char>> = Vec::new();
    let mut i: usize = 0;
    while i < b.1.len()
        invariant
            i <= b.1@.len(),
            ls.deep_view() == b.1.deep_view().subrange(0, i as int),
        decreases b.1@.len() - i,
    {
        let line = subrange_chars(&b.1[i], 0, b.1[i].len());
        proof {
            assert(line@ =~= b.1.deep_view()[i as int]);
        }
        let ghost l0 = ls.deep_view();
        ls.push(line);
        proof {
            assert(ls.deep_view() =~~= l0.push(b.1.deep_view()[i as int]));
            assert(ls.deep_view() =~~= b.1.deep_view().subrange(0, i + 1 as int));
        }
        i += 1;
    }
    proof {
        assert(b.1.deep_view().subrange(0, b.1.deep_view().len() as int) =~= b.1.deep_view());
        assert(key@ =~= b.0@);
    }
    (key, ls)
}

/// Whether two character vectors hold the same characters.
pub fn chars_eq(a: &Vec<char>, b: &Vec<char>) -> (r: bool)
    ensures
        r == (a@ == b@),
{
    if a.len() != b.len() {
        return false;
    }
    let mut i: usize = 0;
    while i < a.len()
        invariant
            i <= a@.len(),
            a@.len() == b@.len(),
            forall|j: int| 0 <= j < i ==> a@[j] == b@[j],
        decreases a@.len() - i,
    {
        if a[i] != b[i] {
            return false;
        }
        i += 1;
    }
    proof {
        assert(a@ =~= b@);
    }
    true
}

/// Whether any block in `blocks` carries the key `k`.
pub open spec fn has_key(blocks: Seq<BlockView>, k: Seq<char>) -> bool {
    exists|i: int| 0 <= i < blocks.len() && blocks[i].0 == k
}

/// After removing `k`, no block carries `k`, and every other block
/// survives in order.
proof fn lemma_remove_key_no_key(blocks: Seq<BlockView>, k: Seq<char>)
    ensures
        !has_key(remove_key(blocks, k), k),
        forall|i: int|
            0 <= i < remove_key(blocks, k).len() ==> #[trigger] remove_key(blocks, k)[i].0 != k,
    decreases blocks.len(),
{
    if blocks.len() > 0 {
        lemma_remove_key_no_key(blocks.drop_last(), k);
    }
}

/// Membership through `remove_key`: a block with another key is kept.
proof fn lemma_remove_key_keeps(blocks: Seq<BlockView>, k: Seq<char>, b: BlockView)
    requires
        blocks.contains(b),
        b.0 != k,
    ensures
        remove_key(blocks, k).contains(b),
    decreases blocks.len(),
{
    if blocks.len() > 0 {
        if blocks.last() == b {
            assert(remove_key(blocks, k).last() == b);
        } else {
            let i = choose|i: int| 0 <= i < blocks.len() && blocks[i] == b;
            assert(blocks.drop_last()[i] == b);
            lemma_remove_key_keeps(blocks.drop_last(), k, b);
            if blocks.last().0 == k {
            } else {
                let j = choose|j: int|
                    0 <= j < remove_key(blocks.drop_last(), k).len() && remove_key(
                        blocks.drop_last(),
                        k,
                    )[j] == b;
                assert(remove_key(blocks, k)[j] == b);
            }
        }
    }
}

/// Everything in `remove_key(blocks, k)` came from `blocks`.
proof fn lemma_remove_key_source(blocks: Seq<BlockView>, k: Seq<char>, b: BlockView)
    requires
        remove_key(blocks, k).contains(b),
    ensures
        blocks.contains(b),
        b.0 != k,
    decreases blocks.len(),
{
    if blocks.len() > 0 {
        let r = remove_key(blocks, k);
        if blocks.last().0 != k && r.last() == b {
            assert(blocks[blocks.len() - 1] == b);
        } else {
            let init = remove_key(blocks.drop_last(), k);
            let i = choose|i: int| 0 <= i < r.len() && r[i] == b;
            assert(init.contains(b));
            lemma_remove_key_source(blocks.drop_last(), k, b);
            let j = choose|j: int| 0 <= j < blocks.drop_last().len() && blocks.drop_last()[j] == b;
            assert(blocks[j] == b);
        }
    }
}

/// The merged sequence has pairwise distinct keys.
pub proof fn lemma_keep_last_distinct(blocks: Seq<BlockView>)
    ensures
        forall|i: int, j: int|
            0 <= i < j < keep_last(blocks).len() ==> #[trigger] keep_last(blocks)[i].0
                != #[trigger] keep_last(blocks)[j].0,
    decreases blocks.len(),
{
    if blocks.len() > 0 {
        lemma_keep_last_distinct(blocks.drop_last());
        let k = blocks.last().0;
        let cleaned = remove_key(keep_last(blocks.drop_last()), k);
        lemma_remove_key_no_key(keep_last(blocks.drop_last()), k);
        assert forall|i: int, j: int|
            0 <= i < j < keep_last(blocks).len() implies #[trigger] keep_last(blocks)[i].0
            != #[trigger] keep_last(blocks)[j].0 by {
            if j < cleaned.len() {
                assert(cleaned.contains(cleaned[i]));
                assert(cleaned.contains(cleaned[j]));
                lemma_remove_key_source(keep_last(blocks.drop_last()), k, cleaned[i]);
                lemma_remove_key_source(keep_last(blocks.drop_last()), k, cleaned[j]);
                let a = choose|a: int|
                    0 <= a < keep_last(blocks.drop_last()).len() && keep_last(
                        blocks.drop_last(),
                    )[a] == cleaned[i];
                let bb = choose|b: int|
                    0 <= b < keep_last(blocks.drop_last()).len() && keep_last(
                        blocks.drop_last(),
                    )[b] == cleaned[j];
                lemma_remove_key_order(keep_last(blocks.drop_last()), k, i, j);
            } else {
                assert(keep_last(blocks)[j] == blocks.last());
                assert(cleaned[i].0 != k);
            }
        }
    }
}

/// `remove_key` keeps relative order: distinct positions map to blocks
/// that were at distinct positions, so distinct keys stay distinct.
proof fn lemma_remove_key_order(blocks: Seq<BlockView>, k: Seq<char>, i: int, j: int)
    requires
        0 <= i < j < remove_key(blocks, k).len(),
        forall|a: int, b: int|
            0 <= a < b < blocks.len() ==> #[trigger] blocks[a].0 != #[trigger] blocks[b].0,
    ensures
        remove_key(blocks, k)[i].0 != remove_key(blocks, k)[j].0,
    decreases blocks.len(),
{
    if blocks.len() > 0 {
        let r = remove_key(blocks, k);
        let init = remove_key(blocks.drop_last(), k);
        assert(forall|a: int, b: int|
            0 <= a < b < blocks.drop_last().len() ==> #[trigger] blocks.drop_last()[a].0
                != #[trigger] blocks.drop_last()[b].0);
        if blocks.last().0 == k {
            lemma_remove_key_order(blocks.drop_last(), k, i, j);
        } else {
            if j < init.len() {
                lemma_remove_key_order(blocks.drop_last(), k, i, j);
            } else {
                assert(r[j] == blocks.last());
                assert(init.contains(init[i]));
                lemma_remove_key_source(blocks.drop_last(), k, init[i]);
                let a = choose|a: int|
                    0 <= a < blocks.drop_last().len() && blocks.drop_last()[a] == init[i];
                assert(blocks[a] == init[i]);
                assert(blocks[a].0 != blocks[blocks.len() - 1].0);
            }
        }
    }
}

/// Config merge, one direction: every block of the merged document is a
/// block of the input, and it is the *last* input block with its key.
pub proof fn lemma_keep_last_is_last_occurrence(blocks: Seq<BlockView>, i: int)
    requires
        0 <= i < keep_last(blocks).len(),
    ensures
        exists|j: int|
            0 <= j < blocks.len() && blocks[j] == keep_last(blocks)[i] && forall|l: int|
                j < l < blocks.len() ==> (#[trigger] blocks[l]).0 != keep_last(blocks)[i].0,
    decreases blocks.len(),
{
    let r = keep_last(blocks);
    let k = blocks.last().0;
    let cleaned = remove_key(keep_last(blocks.drop_last()), k);
    if i == r.len() - 1 {
        assert(r[i] == blocks.last());
        assert(blocks[blocks.len() - 1] == r[i]);
        assert(forall|l: int| blocks.len() - 1 < l < blocks.len() ==> (#[trigger] blocks[l]).0 != r[i].0);
    } else {
        assert(cleaned.contains(cleaned[i]));
        lemma_remove_key_source(keep_last(blocks.drop_last()), k, cleaned[i]);
        let a = choose|a: int|
            0 <= a < keep_last(blocks.drop_last()).len() && keep_last(blocks.drop_last())[a]
                == cleaned[i];
        lemma_keep_last_is_last_occurrence(blocks.drop_last(), a);
        let j = choose|j: int|
            0 <= j < blocks.drop_last().len() && blocks.drop_last()[j] == keep_last(
                blocks.drop_last(),
            )[a] && forall|l: int|
                j < l < blocks.drop_last().len() ==> (#[trigger] blocks.drop_last()[l]).0
                    != keep_last(blocks.drop_last())[a].0;
        assert(blocks[j] == r[i]);
        assert(r[i].0 != k);
        assert forall|l: int| j < l < blocks.len() implies (#[trigger] blocks[l]).0 != r[i].0 by {
            if l < blocks.len() - 1 {
                assert(blocks.drop_last()[l] == blocks[l]);
            }
        }
    }
}

/// Config merge, the other direction: the last input block with any given
/// key stands in the merged document.
pub proof fn lemma_keep_last_contains_last(blocks: Seq<BlockView>, j: int)
    requires
        0 <= j < blocks.len(),
        forall|l: int| j < l < blocks.len() ==> (#[trigger] blocks[l]).0 != blocks[j].0,
    ensures
        keep_last(blocks).contains(blocks[j]),
    decreases blocks.len(),
{
    let r = keep_last(blocks);
    let k = blocks.last().0;
    if j == blocks.len() - 1 {
        assert(r[r.len() - 1] == blocks[j]);
    } else {
        assert(forall|l: int|
            j < l < blocks.drop_last().len() ==> (#[trigger] blocks.drop_last()[l]).0
                != blocks.drop_last()[j].0);
        lemma_keep_last_contains_last(blocks.drop_last(), j);
        assert(blocks[j].0 != k);
        lemma_remove_key_keeps(keep_last(blocks.drop_last()), k, blocks[j]);
        let a = choose|a: int|
            0 <= a < remove_key(keep_last(blocks.drop_last()), k).len() && remove_key(
                keep_last(blocks.drop_last()),
                k,
            )[a] == blocks[j];
        assert(r[a] == blocks[j]);
    }
}

/// Merging is idempotent: re-merging an already merged block sequence
/// changes nothing, so a document that round-trips through the merge
/// parses the same as the merged document itself.
pub proof fn lemma_keep_last_idempotent(blocks: Seq<BlockView>)
    ensures
        keep_last(keep_last(blocks)) == keep_last(blocks),
{
    lemma_keep_last_distinct(blocks);
    lemma_keep_last_fixed(keep_last(blocks));
}

/// A block sequence with pairwise distinct keys is a fixed point of the
/// merge.
proof fn lemma_keep_last_fixed(blocks: Seq<BlockView>)
    requires
        forall|i: int, j: int|
            0 <= i < j < blocks.len() ==> #[trigger] blocks[i].0 != #[trigger] blocks[j].0,
    ensures
        keep_last(blocks) == blocks,
    decreases blocks.len(),
{
    if blocks.len() == 0 {
        assert(keep_last(blocks) =~= blocks);
    } else {
        assert(forall|i: int, j: int|
            0 <= i < j < blocks.drop_last().len() ==> #[trigger] blocks.drop_last()[i].0
                != #[trigger] blocks.drop_last()[j].0);
        lemma_keep_last_fixed(blocks.drop_last());
        let k = blocks.last().0;
        lemma_remove_key_all_kept(blocks.drop_last(), k);
        assert(keep_last(blocks) =~= blocks);
    }
}

/// Removing a key that no block carries removes nothing.
proof fn lemma_remove_key_all_kept(blocks: Seq<BlockView>, k: Seq<char>)
    requires
        forall|i: int| 0 <= i < blocks.len() ==> (#[trigger] blocks[i]).0 != k,
    ensures
        remove_key(blocks, k) == blocks,
    decreases blocks.len(),
{
    if blocks.len() == 0 {
        assert(remove_key(blocks, k) =~= blocks);
    } else {
        assert(forall|i: int|
            0 <= i < blocks.drop_last().len() ==> (#[trigger] blocks.drop_last()[i]).0 != k);
        lemma_remove_key_all_kept(blocks.drop_last(), k);
        assert(blocks[blocks.len() - 1].0 != k);
        assert(remove_key(blocks, k) =~= blocks);
    }
}


/// No part of a split contains the separator.
proof fn lemma_split_parts_clean(s: Seq<char>, c: char)
    ensures
        forall|p: int|
            0 <= p < split_on(s, c).len() ==> find_char(#[trigger] split_on(s, c)[p], c) is None,
    decreases s.len(),
{
    match find_char(s, c) {
        None => {
            assert(split_on(s, c)[0] == s);
        },
        Some(i) => {
            crate::text::lemma_find_char_some(s, c);
            let head = s.subrange(0, i);
            assert(find_char(head, c) is None) by {
                if find_char(head, c) is Some {
                    crate::text::lemma_find_char_some(head, c);
                    let j = find_char(head, c).unwrap();
                    assert(s[j] == c);
                }
            }
            let tail = s.subrange(i + 1, s.len() as int);
            lemma_split_parts_clean(tail, c);
            assert(forall|p: int|
                1 <= p < split_on(s, c).len() ==> split_on(s, c)[p] == split_on(tail, c)[p - 1]);
        },
    }
}

/// Splitting a join of separator-free parts returns the parts.
proof fn lemma_split_join(parts: Seq<Seq<char>>, c: char)
    requires
        parts.len() >= 1,
        forall|p: int| 0 <= p < parts.len() ==> find_char(#[trigger] parts[p], c) is None,
    ensures
        split_on(join_on(parts, c), c) == parts,
    decreases parts.len(),
{
    if parts.len() == 1 {
        assert(join_on(parts, c) == parts[0]);
        assert(split_on(parts[0], c) =~= parts);
    } else {
        let joined = join_on(parts, c);
        let head = parts[0];
        let rest = join_on(parts.drop_first(), c);
        assert(joined == head.push(c).add(rest));
        assert(joined[head.len() as int] == c);
        assert(forall|j: int| 0 <= j < head.len() ==> joined[j] == head[j]);
        assert(forall|j: int| 0 <= j < head.len() ==> joined[j] != c);
        assert(exists|j: int| 0 <= j < joined.len() && joined[j] == c) by {
            assert(joined[head.len() as int] == c);
        }
        crate::text::lemma_find_char_some(joined, c);
        let i = find_char(joined, c).unwrap();
        assert(i == head.len()) by {
            if i < head.len() {
                assert(joined[i] == c);
            } else if head.len() < i {
                assert(joined[head.len() as int] == c);
            }
        }
        assert(joined.subrange(0, i) =~= head);
        assert(joined.subrange(i + 1, joined.len() as int) =~= rest);
        assert(forall|p: int|
            0 <= p < parts.drop_first().len() ==> find_char(
                #[trigger] parts.drop_first()[p],
                c,
            ) is None);
        lemma_split_join(parts.drop_first(), c);
        assert(split_on(joined, c) =~= parts);
    }
}

/// A well-formed grouping: prologue lines open no block, and every block
/// is its key line followed by non-key lines.
pub open spec fn wf_grouping(pro: Seq<Seq<char>>, blocks: Seq<BlockView>) -> bool {
    &&& forall|j: int| 0 <= j < pro.len() ==> !is_key_line(#[trigger] pro[j])
    &&& forall|b: int|
        0 <= b < blocks.len() ==> {
            let bl = #[trigger] blocks[b];
            &&& bl.1.len() >= 1
            &&& is_key_line(bl.1[0])
            &&& key_of(bl.1[0]) == bl.0
            &&& forall|j: int| 1 <= j < bl.1.len() ==> !is_key_line(#[trigger] bl.1[j])
        }
}

/// Grouping always produces a well-formed grouping, and keeps every line.
proof fn lemma_split_blocks_wf(lines: Seq<Seq<char>>)
    ensures
        wf_grouping(split_blocks(lines).0, split_blocks(lines).1),
        split_blocks(lines).0.len() + block_lines(split_blocks(lines).1).len() == lines.len(),
        forall|j: int|
            0 <= j < split_blocks(lines).0.len() ==> lines.contains(
                #[trigger] split_blocks(lines).0[j],
            ),
        forall|b: int, j: int|
            0 <= b < split_blocks(lines).1.len() && 0 <= j < split_blocks(lines).1[b].1.len()
                ==> lines.contains(#[trigger] split_blocks(lines).1[b].1[j]),
    decreases lines.len(),
{
    if lines.len() > 0 {
        lemma_split_blocks_wf(lines.drop_last());
        let r = split_blocks(lines.drop_last());
        let pro = r.0;
        let blocks = r.1;
        let l = lines.last();
        assert(lines[lines.len() - 1] == l);
        assert(forall|x: Seq<char>| lines.drop_last().contains(x) ==> lines.contains(x));
        if is_key_line(l) {
            let nb = blocks.push((key_of(l), seq![l]));
            assert(nb.drop_last() =~= blocks);
            assert(block_lines(nb) == block_lines(nb.drop_last()).add(nb.last().1));
            assert(block_lines(nb) =~= block_lines(blocks).push(l));
            assert(forall|b: int, j: int|
                0 <= b < blocks.len() && 0 <= j < blocks[b].1.len() ==> nb[b].1[j]
                    == #[trigger] blocks[b].1[j]);
        } else if blocks.len() == 0 {
            assert(block_lines(blocks).len() == 0);
        } else {
            let b0 = blocks.last();
            let nb = blocks.drop_last().push((b0.0, b0.1.push(l)));
            assert(block_lines(nb) =~= block_lines(blocks).push(l)) by {
                assert(nb.drop_last() =~= blocks.drop_last());
                assert(block_lines(nb) == block_lines(blocks.drop_last()).add(b0.1.push(l)));
                assert(block_lines(blocks) == block_lines(blocks.drop_last()).add(b0.1));
            }
            assert(forall|b: int, j: int|
                0 <= b < blocks.len() - 1 && 0 <= j < blocks[b].1.len() ==> nb[b].1[j]
                    == #[trigger] blocks[b].1[j]);
        }
    }
}

/// Every merged block is well formed, since it is a block of the input.
proof fn lemma_keep_last_wf(pro: Seq<Seq<char>>, blocks: Seq<BlockView>)
    requires
        wf_grouping(pro, blocks),
    ensures
        wf_grouping(pro, keep_last(blocks)),
{
    assert forall|b: int| 0 <= b < keep_last(blocks).len() implies {
        let bl = #[trigger] keep_last(blocks)[b];
        &&& bl.1.len() >= 1
        &&& is_key_line(bl.1[0])
        &&& key_of(bl.1[0]) == bl.0
        &&& forall|j: int| 1 <= j < bl.1.len() ==> !is_key_line(#[trigger] bl.1[j])
    } by {
        lemma_keep_last_is_last_occurrence(blocks, b);
        let j = choose|j: int|
            0 <= j < blocks.len() && blocks[j] == keep_last(blocks)[b] && forall|l: int|
                j < l < blocks.len() ==> (#[trigger] blocks[l]).0 != keep_last(blocks)[b].0;
        assert(blocks[j] == keep_last(blocks)[b]);
    }
}

/// Regrouping emitted lines restores the grouping.
#[verifier::rlimit(90)]
proof fn lemma_regroup(pro: Seq<Seq<char>>, blocks: Seq<BlockView>)
    requires
        wf_grouping(pro, blocks),
    ensures
        split_blocks(pro.add(block_lines(blocks))) == (pro, blocks),
    decreases pro.len() + block_lines(blocks).len() + blocks.len(),
{
    let lines = pro.add(block_lines(blocks));
    if blocks.len() == 0 {
        assert(block_lines(blocks).len() == 0);
        assert(lines =~= pro);
        if pro.len() == 0 {
            assert(split_blocks(lines) =~= (pro, blocks));
        } else {
            assert(forall|j: int|
                0 <= j < pro.drop_last().len() ==> !is_key_line(#[trigger] pro.drop_last()[j]));
            lemma_regroup(pro.drop_last(), blocks);
            assert(pro.drop_last().add(block_lines(blocks)) =~= pro.drop_last());
            assert(lines.drop_last() =~= pro.drop_last());
            assert(!is_key_line(lines.last()));
            assert(split_blocks(lines) =~= (pro, blocks));
        }
    } else {
        let b = blocks.last();
        assert(block_lines(blocks) == block_lines(blocks.drop_last()).add(b.1));
        assert(b.1.len() >= 1);
        if b.1.len() == 1 {
            let shorter = blocks.drop_last();
            assert(forall|k: int|
                0 <= k < shorter.len() ==> shorter[k] == #[trigger] blocks[k]);
            lemma_regroup(pro, shorter);
            assert(lines.drop_last() =~= pro.add(block_lines(shorter))) by {
                assert(b.1 =~= seq![b.1[0]]);
                assert(block_lines(blocks) =~= block_lines(shorter).push(b.1[0]));
            }
            assert(lines.last() == b.1[0]);
            assert(is_key_line(lines.last()));
            assert((key_of(b.1[0]), seq![b.1[0]]) == b);
            assert(split_blocks(lines) =~= (pro, blocks));
        } else {
            let sb = (b.0, b.1.drop_last());
            let shorter = blocks.drop_last().push(sb);
            assert(sb.1.len() >= 1);
            assert(sb.1[0] == b.1[0]);
            assert(forall|j: int| 1 <= j < sb.1.len() ==> sb.1[j] == #[trigger] b.1[j]);
            assert(forall|k: int|
                0 <= k < blocks.len() - 1 ==> shorter[k] == #[trigger] blocks[k]);
            assert(wf_grouping(pro, shorter));
            assert(block_lines(shorter) =~= block_lines(blocks.drop_last()).add(b.1.drop_last()))
                by {
                assert(shorter.drop_last() =~= blocks.drop_last());
            }
            assert(block_lines(shorter).len() + 1 == block_lines(blocks).len());
            lemma_regroup(pro, shorter);
            assert(lines.drop_last() =~= pro.add(block_lines(shorter)));
            assert(lines.last() == b.1.last());
            assert(!is_key_line(lines.last()));
            let regrouped = split_blocks(lines);
            assert(regrouped.0 == pro);
            assert(regrouped.1 =~= blocks) by {
                assert(shorter.drop_last() =~= blocks.drop_last());
                assert(shorter.last() == sb);
                assert(sb.1.push(b.1.last()) =~= b.1);
            }
            assert(split_blocks(lines) =~= (pro, blocks));
        }
    }
}

/// Round trip: merging an already merged document changes nothing, so a
/// configuration that round-trips through the merge parses the same as
/// the merged form parsed directly.
pub proof fn lemma_merged_config_idempotent(s: Seq<char>)
    ensures
        merged_config(merged_config(s)) == merged_config(s),
{
    let lines = split_on(s, '\n');
    let grouped = split_blocks(lines);
    let pro = grouped.0;
    let blocks = grouped.1;
    let merged_blocks = keep_last(blocks);
    let emitted = pro.add(block_lines(merged_blocks));
    let m = join_on(emitted, '\n');
    assert(m == merged_config(s));
    lemma_split_blocks_wf(lines);
    lemma_keep_last_wf(pro, blocks);
    lemma_split_parts_clean(s, '\n');
    assert forall|p: int| 0 <= p < emitted.len() implies find_char(
        #[trigger] emitted[p],
        '\n',
    ) is None by {
        if p < pro.len() {
            assert(lines.contains(pro[p]));
            let w = choose|w: int| 0 <= w < lines.len() && lines[w] == pro[p];
            assert(find_char(lines[w], '\n') is None);
        } else {
            lemma_block_lines_member(merged_blocks, p - pro.len());
            let bj = choose|b: int, j: int|
                0 <= b < merged_blocks.len() && 0 <= j < merged_blocks[b].1.len()
                    && merged_blocks[b].1[j] == block_lines(merged_blocks)[p - pro.len()];
            let ln = block_lines(merged_blocks)[p - pro.len()];
            lemma_keep_last_line_source(blocks, bj.0, bj.1);
            let w = choose|w: int| 0 <= w < lines.len() && lines[w] == ln;
            assert(find_char(lines[w], '\n') is None);
        }
    }
    assert(emitted.len() >= 1) by {
        if pro.len() == 0 {
            assert(lines.len() >= 1);
            assert(block_lines(blocks).len() == lines.len());
            assert(blocks.len() > 0) by {
                if blocks.len() == 0 {
                    assert(block_lines(blocks).len() == 0);
                }
            }
            lemma_keep_last_block_lines_nonempty(blocks);
        }
    }
    lemma_split_join(emitted, '\n');
    assert(split_on(m, '\n') == emitted);
    lemma_regroup(pro, merged_blocks);
    assert(split_blocks(emitted) == (pro, merged_blocks));
    lemma_keep_last_idempotent(blocks);
    assert(merged_config(m) == join_on(
        pro.add(block_lines(keep_last(merged_blocks))),
        '\n',
    ));
    assert(merged_config(m) == m);
}

/// Every line of `block_lines` comes from some block.
proof fn lemma_block_lines_member(blocks: Seq<BlockView>, p: int)
    requires
        0 <= p < block_lines(blocks).len(),
    ensures
        exists|b: int, j: int|
            0 <= b < blocks.len() && 0 <= j < blocks[b].1.len() && blocks[b].1[j] == block_lines(
                blocks,
            )[p],
    decreases blocks.len(),
{
    let bl = block_lines(blocks);
    let init = block_lines(blocks.drop_last());
    if p < init.len() {
        lemma_block_lines_member(blocks.drop_last(), p);
        let bj = choose|b: int, j: int|
            0 <= b < blocks.drop_last().len() && 0 <= j < blocks.drop_last()[b].1.len()
                && blocks.drop_last()[b].1[j] == init[p];
        assert(blocks[bj.0].1[bj.1] == bl[p]);
    } else {
        let j = p - init.len();
        assert(blocks[blocks.len() - 1].1[j] == bl[p]);
    }
}

/// A merged block's lines come from the input lines that grouped it.
proof fn lemma_keep_last_line_source(blocks: Seq<BlockView>, b: int, j: int)
    requires
        0 <= b < keep_last(blocks).len(),
        0 <= j < keep_last(blocks)[b].1.len(),
    ensures
        exists|ob: int, oj: int|
            0 <= ob < blocks.len() && 0 <= oj < blocks[ob].1.len() && blocks[ob].1[oj]
                == keep_last(blocks)[b].1[j],
{
    lemma_keep_last_is_last_occurrence(blocks, b);
    let ob = choose|ob: int|
        0 <= ob < blocks.len() && blocks[ob] == keep_last(blocks)[b] && forall|l: int|
            ob < l < blocks.len() ==> (#[trigger] blocks[l]).0 != keep_last(blocks)[b].0;
    assert(blocks[ob].1[j] == keep_last(blocks)[b].1[j]);
}

/// Merging keeps at least one line when the input had any: the last
/// block survives, and a well-formed block has its key line.
proof fn lemma_keep_last_block_lines_nonempty(blocks: Seq<BlockView>)
    requires
        blocks.len() > 0,
        forall|b: int| 0 <= b < blocks.len() ==> (#[trigger] blocks[b]).1.len() >= 1,
    ensures
        block_lines(keep_last(blocks)).len() > 0,
{
    let r = keep_last(blocks);
    assert(r.last() == blocks.last());
    assert(blocks[blocks.len() - 1].1.len() >= 1);
    assert(block_lines(r) == block_lines(r.drop_last()).add(r.last().1));
}


/// The top-level blocks of a document.
pub open spec fn doc_blocks(s: Seq<char>) -> Seq<BlockView> {
    split_blocks(split_on(s, '\n')).1
}

/// The top-level blocks of the merged document.
pub open spec fn merged_blocks(s: Seq<char>) -> Seq<BlockView> {
    keep_last(doc_blocks(s))
}

/// Config merge, at the document level: the merged document has one
/// block per key; each of its blocks is the last input block carrying
/// that key; and the last input block of every key stands in it.
pub proof fn lemma_config_merge_last_wins(s: Seq<char>)
    ensures
        forall|i: int, j: int|
            0 <= i < j < merged_blocks(s).len() ==> (#[trigger] merged_blocks(s)[i]).0 != (
            #[trigger] merged_blocks(s)[j]).0,
        forall|i: int|
            0 <= i < merged_blocks(s).len() ==> exists|j: int|
                0 <= j < doc_blocks(s).len() && doc_blocks(s)[j] == #[trigger] merged_blocks(
                    s,
                )[i] && forall|l: int|
                    j < l < doc_blocks(s).len() ==> (#[trigger] doc_blocks(s)[l]).0
                        != merged_blocks(s)[i].0,
        forall|j: int|
            0 <= j < doc_blocks(s).len() && (forall|l: int|
                j < l < doc_blocks(s).len() ==> (#[trigger] doc_blocks(s)[l]).0 != doc_blocks(
                    s,
                )[j].0) ==> merged_blocks(s).contains(#[trigger] doc_blocks(s)[j]),
{
    let blocks = doc_blocks(s);
    lemma_keep_last_distinct(blocks);
    assert forall|i: int| 0 <= i < merged_blocks(s).len() implies exists|j: int|
        0 <= j < blocks.len() && blocks[j] == #[trigger] merged_blocks(s)[i] && forall|l: int|
            j < l < blocks.len() ==> (#[trigger] blocks[l]).0 != merged_blocks(s)[i].0 by {
        lemma_keep_last_is_last_occurrence(blocks, i);
    }
    assert forall|j: int|
        0 <= j < blocks.len() && (forall|l: int|
            j < l < blocks.len() ==> (#[trigger] blocks[l]).0 != blocks[j].0) implies merged_blocks(
        s,
    ).contains(#[trigger] blocks[j]) by {
        lemma_keep_last_contains_last(blocks, j);
    }
}

} // verus!
