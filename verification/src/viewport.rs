//! The viewport scroll computation: estimates how many rendered lines
//! each paragraph entry occupies and snaps the view to the target
//! paragraph when it would not fit inside the visible region.

use vstd::prelude::*;

use crate::document::{label_spec, Document};

verus! {

/// Lines a text of `text_len` character cells occupies when wrapped to
/// a region `width` cells wide: the rounded-up quotient, at least one
/// line; a zero width counts as exactly one line.
pub open spec fn line_count(text_len: int, width: int) -> int {
    if width <= 0 {
        1
    } else {
        let c = (text_len + width - 1) / width;
        if c < 1 {
            1
        } else {
            c
        }
    }
}

/// Rendered cells of the entry for paragraph `i`: its bracketed label
/// (two cells of brackets and one of spacing) followed by its content.
pub open spec fn entry_len(paras: Seq<Seq<char>>, i: int) -> int {
    label_spec(i).len() + 3 + paras[i].len() as int
}

/// Lines the entry for paragraph `i` occupies, its blank separator
/// line included.
pub open spec fn entry_lines(paras: Seq<Seq<char>>, i: int, width: int) -> int {
    line_count(entry_len(paras, i), width) + 1
}

/// Total lines of the entries before paragraph `k`.
pub open spec fn lines_before(paras: Seq<Seq<char>>, k: int, width: int) -> int
    decreases k,
{
    if k <= 0 {
        0
    } else {
        lines_before(paras, k - 1, width) + entry_lines(paras, k - 1, width)
    }
}

/// Total rendered lines of the whole document.
pub open spec fn total_lines(paras: Seq<Seq<char>>, width: int) -> int {
    lines_before(paras, paras.len() as int, width)
}

/// The scroll offset for the paragraph at `target`: zero when the
/// paragraph already ends within the first screenful of `height`
/// lines, and otherwise the line at which the paragraph begins, so
/// that the view snaps the paragraph's first line to the top.
pub open spec fn scroll_spec(paras: Seq<Seq<char>>, target: int, width: int, height: int) -> int {
    let begin = lines_before(paras, target, width);
    if begin + entry_lines(paras, target, width) > height {
        begin
    } else {
        0
    }
}

proof fn lemma_lines_before_mono(paras: Seq<Seq<char>>, k: int, m: int, width: int)
    requires
        0 <= k <= m,
    ensures
        lines_before(paras, k, width) <= lines_before(paras, m, width),
    decreases m - k,
{
    if k < m {
        lemma_lines_before_mono(paras, k, m - 1, width);
    }
}

/// Computes the label length without rendering the label.
fn label_len(i: usize) -> (r: usize)
    ensures
        r as int == label_spec(i as int).len(),
{
    if i < 35 {
        1
    } else {
        2
    }
}

fn entry_lines_exec(p: &String, i: usize, width: u16) -> (r: u128)
    ensures
        r as int == entry_lines_at(p@.len() as int, i as int, width as int),
        2 <= r as int <= 0x2_0000_0000_0000_0000,
{
    let llen = label_len(i);
    let plen = p.as_str().unicode_len();
    let tl: u128 = (llen as u128) + 3 + (plen as u128);
    if width == 0 {
        2
    } else {
        let w: u128 = width as u128;
        let c: u128 = (tl + w - 1) / w;
        let lines: u128 = if c < 1 {
            1
        } else {
            c
        };
        proof {
            assert(c as int <= tl as int) by (nonlinear_arith)
                requires
                    1 <= w as int,
                    c as int == (tl as int + w as int - 1) / (w as int),
                    tl as int <= 0xffff_ffff_ffff_ffff + 6,
            ;
        }
        lines + 1
    }
}

/// `entry_lines`, phrased over the content length alone so that the
/// executable helper need not mention the whole paragraph sequence.
pub open spec fn entry_lines_at(content_len: int, i: int, width: int) -> int {
    line_count(label_spec(i).len() + 3 + content_len, width) + 1
}

/// Computes the scroll offset for the paragraph at `target` in a
/// visible region of `width` by `height` cells (both already reduced
/// for any frame decoration). The whole document must fit in the
/// 16-bit line count that the rendering surface uses.
pub fn calculate_scroll(doc: &Document, target: usize, width: u16, height: u16) -> (r: u16)
    requires
        doc.wf(),
        target < doc.paragraphs@.len(),
        total_lines(doc.paras(), width as int) <= u16::MAX as int,
    ensures
        r as int == scroll_spec(doc.paras(), target as int, width as int, height as int),
{
    let ghost paras = doc.paras();
    let mut begin: u128 = 0;
    let mut k: usize = 0;
    while k < target
        invariant
            k <= target,
            target < doc.paragraphs@.len(),
            paras == doc.paras(),
            doc.wf(),
            total_lines(paras, width as int) <= u16::MAX as int,
            begin as int == lines_before(paras, k as int, width as int),
        decreases target - k,
    {
        proof {
            assert(paras[k as int] == doc.paragraphs@[k as int]@);
            assert(entry_lines_at(paras[k as int].len() as int, k as int, width as int)
                == entry_lines(paras, k as int, width as int));
            lemma_lines_before_mono(paras, k as int, paras.len() as int, width as int);
        }
        let e = entry_lines_exec(&doc.paragraphs[k], k, width);
        begin = begin + e;
        k = k + 1;
    }
    proof {
        assert(paras[target as int] == doc.paragraphs@[target as int]@);
        assert(entry_lines_at(paras[target as int].len() as int, target as int, width as int)
            == entry_lines(paras, target as int, width as int));
        lemma_lines_before_mono(paras, target as int, paras.len() as int, width as int);
    }
    let t = entry_lines_exec(&doc.paragraphs[target], target, width);
    let h: u128 = height as u128;
    if begin + t > h {
        proof {
            lemma_lines_before_mono(paras, target as int, paras.len() as int, width as int);
        }
        begin as u16
    } else {
        0
    }
}

/// Counts the rendered lines of the whole document, or reports that
/// the count does not fit the 16-bit line count that the rendering
/// surface uses.
pub fn total_line_count(doc: &Document, width: u16) -> (r: Option<u16>)
    requires
        doc.wf(),
    ensures
        total_lines(doc.paras(), width as int) <= u16::MAX as int ==> r == Some(
            (total_lines(doc.paras(), width as int) as u16),
        ),
        total_lines(doc.paras(), width as int) > u16::MAX as int ==> r is None,
{
    let ghost paras = doc.paras();
    let mut sum: u128 = 0;
    let mut k: usize = 0;
    let count = doc.paragraphs.len();
    while k < count
        invariant
            k <= count,
            count == doc.paragraphs@.len(),
            paras == doc.paras(),
            doc.wf(),
            sum as int == lines_before(paras, k as int, width as int),
            sum <= 0xffff,
        decreases count - k,
    {
        proof {
            assert(paras[k as int] == doc.paragraphs@[k as int]@);
            assert(entry_lines_at(paras[k as int].len() as int, k as int, width as int)
                == entry_lines(paras, k as int, width as int));
        }
        let e = entry_lines_exec(&doc.paragraphs[k], k, width);
        sum = sum + e;
        k = k + 1;
        if sum > 0xffff {
            proof {
                lemma_lines_before_mono(paras, k as int, paras.len() as int, width as int);
            }
            return None;
        }
    }
    Some(sum as u16)
}

/// With a viewport tall enough to hold the whole document, the scroll
/// offset is zero whatever paragraph is targeted.
pub proof fn lemma_scroll_zero_when_document_fits(
    paras: Seq<Seq<char>>,
    target: int,
    width: int,
    height: int,
)
    requires
        0 <= target < paras.len(),
        total_lines(paras, width) <= height,
    ensures
        scroll_spec(paras, target, width, height) == 0,
{
    lemma_lines_before_mono(paras, target + 1, paras.len() as int, width);
}

/// When the targeted paragraph would end past the bottom of the
/// viewport, the scroll offset is exactly the accumulated line offset
/// at which that paragraph begins.
pub proof fn lemma_scroll_snaps_to_target(
    paras: Seq<Seq<char>>,
    target: int,
    width: int,
    height: int,
)
    requires
        0 <= target < paras.len(),
        lines_before(paras, target, width) + entry_lines(paras, target, width) > height,
    ensures
        scroll_spec(paras, target, width, height) == lines_before(paras, target, width),
{
}

} // verus!
