//! The document buffer: an ordered, never-empty sequence of paragraphs
//! with a selection cursor and a cached scroll hint, together with the
//! compact index-labeling scheme used to reference paragraphs.

use vstd::prelude::*;

use crate::text::{nonempty_pieces, split_blank_lines, split_paragraphs, push_char};

verus! {

/// A paragraph-structured text buffer. `paragraphs` is never empty and
/// `selected` is always a valid index into it.
pub struct Document {
    pub paragraphs: Vec<String>,
    pub selected: usize,
    pub scroll: u16,
}

/// The paragraphs that `load` produces from `text`: the pieces of
/// `text` cut at blank lines, empty pieces discarded, or a single empty
/// paragraph if nothing remains.
pub open spec fn loaded_paragraphs(text: Seq<char>) -> Seq<Seq<char>> {
    let pieces = nonempty_pieces(split_blank_lines(text));
    if pieces.len() == 0 {
        seq![Seq::<char>::empty()]
    } else {
        pieces
    }
}

/// The scroll hint cached on navigation: the new selection index,
/// reduced to the width of the scroll field, minus two lines of
/// context, saturating at zero.
pub open spec fn scroll_hint(selected: int) -> u16 {
    let reduced: int = selected % 0x10000;
    if reduced >= 2 {
        (reduced - 2) as u16
    } else {
        0u16
    }
}

impl Document {
    /// The structural invariant: at least one paragraph exists and the
    /// selection is in bounds.
    pub open spec fn wf(&self) -> bool {
        self.selected < self.paragraphs@.len()
    }

    /// The paragraph contents as sequences of characters.
    pub open spec fn paras(&self) -> Seq<Seq<char>> {
        self.paragraphs.deep_view()
    }

    /// A document holding a single empty paragraph.
    pub fn new() -> (d: Document)
        ensures
            d.wf(),
            d.paras() =~= seq![Seq::<char>::empty()],
            d.selected == 0,
            d.scroll == 0,
    {
        let mut paragraphs: Vec<String> = Vec::new();
        paragraphs.push(String::new());
        let d = Document { paragraphs, selected: 0, scroll: 0 };
        proof {
            assert(d.paras() =~= seq![Seq::<char>::empty()]);
        }
        d
    }

    /// Builds a document from a source text by splitting it at blank
    /// lines, discarding empty paragraphs, and falling back to a single
    /// empty paragraph when the split yields none.
    pub fn load(text: &str) -> (d: Document)
        ensures
            d.wf(),
            d.paras() == loaded_paragraphs(text@),
            d.selected == 0,
            d.scroll == 0,
    {
        let mut paragraphs = split_paragraphs(text);
        if paragraphs.is_empty() {
            paragraphs.push(String::new());
            proof {
                assert(paragraphs.deep_view() =~= seq![Seq::<char>::empty()]);
            }
        }
        Document { paragraphs, selected: 0, scroll: 0 }
    }

    /// Advances the selection by one paragraph, unless it is already on
    /// the last one, and refreshes the scroll hint on movement.
    pub fn select_next(&mut self)
        requires
            old(self).wf(),
        ensures
            final(self).wf(),
            final(self).paragraphs == old(self).paragraphs,
            final(self).selected as int == if old(self).selected + 1 < old(self).paragraphs@.len() {
                old(self).selected + 1
            } else {
                old(self).selected as int
            },
            final(self).selected == old(self).selected ==> final(self).scroll == old(self).scroll,
            final(self).selected != old(self).selected ==> final(self).scroll == scroll_hint(
                final(self).selected as int,
            ),
    {
        if self.selected < self.paragraphs.len() - 1 {
            self.selected = self.selected + 1;
            let reduced: usize = self.selected % 0x10000;
            self.scroll = if reduced >= 2 {
                (reduced - 2) as u16
            } else {
                0
            };
        }
    }

    /// Moves the selection back by one paragraph, unless it is already
    /// on the first one, and refreshes the scroll hint on movement.
    pub fn select_prev(&mut self)
        requires
            old(self).wf(),
        ensures
            final(self).wf(),
            final(self).paragraphs == old(self).paragraphs,
            final(self).selected == if old(self).selected > 0 {
                old(self).selected - 1
            } else {
                0
            },
            final(self).selected == old(self).selected ==> final(self).scroll == old(self).scroll,
            final(self).selected != old(self).selected ==> final(self).scroll == scroll_hint(
                final(self).selected as int,
            ),
    {
        if self.selected > 0 {
            self.selected = self.selected - 1;
            let reduced: usize = self.selected % 0x10000;
            self.scroll = if reduced >= 2 {
                (reduced - 2) as u16
            } else {
                0
            };
        }
    }
}

/// The label of the paragraph at position `i`: positions 0 through 8
/// read as the digits 1 through 9; the next 26 as single lowercase
/// letters; every later position as a pair of lowercase letters, the
/// first letter wrapping around the alphabet so that the scheme stays
/// total (labels repeat once the pairs are exhausted).
pub open spec fn label_spec(i: int) -> Seq<char> {
    if i < 9 {
        seq![(('1' as int) + i) as char]
    } else if i < 35 {
        seq![(('a' as int) + (i - 9)) as char]
    } else {
        let n: int = i - 35;
        seq![
            (('a' as int) + ((n / 26) % 26)) as char,
            (('a' as int) + (n % 26)) as char,
        ]
    }
}

/// Labels are collision-free over the first `9 + 26 + 26 * 26 == 711`
/// positions: within that range, distinct positions always carry
/// distinct labels.
pub proof fn lemma_label_injective(i: int, j: int)
    requires
        0 <= i < 711,
        0 <= j < 711,
        i != j,
    ensures
        label_spec(i) != label_spec(j),
{
    if i >= 35 && j >= 35 {
        let n1 = i - 35;
        let n2 = j - 35;
        vstd::arithmetic::div_mod::lemma_fundamental_div_mod(n1, 26);
        vstd::arithmetic::div_mod::lemma_fundamental_div_mod(n2, 26);
        assert(0 <= n1 / 26 < 26) by (nonlinear_arith)
            requires 0 <= n1 < 676,
        ;
        assert(0 <= n2 / 26 < 26) by (nonlinear_arith)
            requires 0 <= n2 < 676,
        ;
        let q1 = (n1 / 26) % 26;
        let q2 = (n2 / 26) % 26;
        let r1 = n1 % 26;
        let r2 = n2 % 26;
        assert(q1 == n1 / 26);
        assert(q2 == n2 / 26);
        if label_spec(i) == label_spec(j) {
            assert(label_spec(i)[0] == label_spec(j)[0]);
            assert(label_spec(i)[1] == label_spec(j)[1]);
            assert((('a' as int) + q1) as char as int == ('a' as int) + q1);
            assert((('a' as int) + q2) as char as int == ('a' as int) + q2);
            assert((('a' as int) + r1) as char as int == ('a' as int) + r1);
            assert((('a' as int) + r2) as char as int == ('a' as int) + r2);
            assert(q1 == q2 && r1 == r2);
            assert(n1 == n2);
            assert(false);
        }
    } else {
        if i < 35 && j < 35 {
            let v1 = if i < 9 {
                ('1' as int) + i
            } else {
                ('a' as int) + (i - 9)
            };
            let v2 = if j < 9 {
                ('1' as int) + j
            } else {
                ('a' as int) + (j - 9)
            };
            assert(v1 as char as int == v1);
            assert(v2 as char as int == v2);
            assert(v1 != v2);
            assert(label_spec(i)[0] == v1 as char);
            assert(label_spec(j)[0] == v2 as char);
        } else {
            assert(label_spec(i).len() != label_spec(j).len());
        }
    }
}

/// The label length never shrinks as the position grows: one character
/// up to position 34, two characters from position 35 on.
pub proof fn lemma_label_len_nondecreasing(i: int, j: int)
    requires
        0 <= i <= j,
    ensures
        label_spec(i).len() <= label_spec(j).len(),
{
}

/// Renders the label for position `i`.
pub fn index_label(i: usize) -> (r: String)
    ensures
        r@ == label_spec(i as int),
{
    let mut s = String::new();
    if i < 9 {
        push_char(&mut s, (49u8 + (i as u8)) as char);
    } else if i < 35 {
        push_char(&mut s, (97u8 + ((i - 9) as u8)) as char);
    } else {
        let n: usize = i - 35;
        let first: usize = (n / 26) % 26;
        let second: usize = n % 26;
        push_char(&mut s, (97u8 + (first as u8)) as char);
        push_char(&mut s, (97u8 + (second as u8)) as char);
    }
    s
}

} // verus!
