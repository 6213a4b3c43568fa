//! Character-sequence utilities shared by the document loader and the
//! reference suggestion agent: splitting a text into pieces at blank
//! lines or at whitespace, filtering out empty pieces, and joining
//! words back together with single spaces.

use vstd::prelude::*;

verus! {

/// Appends one character to a string.
///
/// Relies on `String::push`: appends the given `char` to the end of the
/// string.
#[verifier::external_body]
pub(crate) fn push_char(s: &mut String, c: char)
    ensures
        final(s)@ == old(s)@.push(c),
{
    s.push(c);
}

/// Whether `c` has the Unicode `White_Space` property, the class of
/// characters at which words are separated.
pub open spec fn is_space_char(c: char) -> bool {
    let u = c as u32;
    ||| u == 0x09
    ||| u == 0x0A
    ||| u == 0x0B
    ||| u == 0x0C
    ||| u == 0x0D
    ||| u == 0x20
    ||| u == 0x85
    ||| u == 0xA0
    ||| u == 0x1680
    ||| (0x2000 <= u && u <= 0x200A)
    ||| u == 0x2028
    ||| u == 0x2029
    ||| u == 0x202F
    ||| u == 0x205F
    ||| u == 0x3000
}

/// Decides `is_space_char` on a concrete character.
fn is_space(c: char) -> (r: bool)
    ensures
        r == is_space_char(c),
{
    let u = c as u32;
    u == 0x09 || u == 0x0A || u == 0x0B || u == 0x0C || u == 0x0D || u == 0x20 || u == 0x85
        || u == 0xA0 || u == 0x1680 || (0x2000 <= u && u <= 0x200A) || u == 0x2028 || u == 0x2029
        || u == 0x202F || u == 0x205F || u == 0x3000
}

/// Extends the first piece of `pieces` with `pre` on the left; if there
/// is no piece yet, `pre` becomes the only piece.
pub open spec fn prepend_first(pre: Seq<char>, pieces: Seq<Seq<char>>) -> Seq<Seq<char>> {
    if pieces.len() == 0 {
        seq![pre]
    } else {
        seq![pre + pieces[0]] + pieces.skip(1)
    }
}

/// The pieces of `s` cut at every blank line, that is at each
/// non-overlapping occurrence of two consecutive newline characters,
/// found left to right. Pieces may be empty; there is always at least
/// one piece.
pub open spec fn split_blank_lines(s: Seq<char>) -> Seq<Seq<char>>
    decreases s.len(),
{
    if s.len() >= 2 && s[0] == '\n' && s[1] == '\n' {
        seq![Seq::<char>::empty()] + split_blank_lines(s.skip(2))
    } else if s.len() == 0 {
        seq![s]
    } else {
        prepend_first(seq![s[0]], split_blank_lines(s.skip(1)))
    }
}

/// The pieces of `s` cut at every whitespace character. Pieces may be
/// empty; there is always at least one piece.
pub open spec fn split_spaces(s: Seq<char>) -> Seq<Seq<char>>
    decreases s.len(),
{
    if s.len() == 0 {
        seq![s]
    } else if is_space_char(s[0]) {
        seq![Seq::<char>::empty()] + split_spaces(s.skip(1))
    } else {
        prepend_first(seq![s[0]], split_spaces(s.skip(1)))
    }
}

/// The pieces of `pieces` that are not empty, in order.
pub open spec fn nonempty_pieces(pieces: Seq<Seq<char>>) -> Seq<Seq<char>> {
    pieces.filter(|p: Seq<char>| p.len() != 0)
}

/// The words of `s`: the maximal runs of non-whitespace characters, in
/// order.
pub open spec fn words_of(s: Seq<char>) -> Seq<Seq<char>> {
    nonempty_pieces(split_spaces(s))
}

/// The words of `ws` joined with a single space between consecutive
/// words.
pub open spec fn join_words(ws: Seq<Seq<char>>) -> Seq<char>
    decreases ws.len(),
{
    if ws.len() == 0 {
        Seq::empty()
    } else if ws.len() == 1 {
        ws[0]
    } else {
        ws[0] + seq![' '] + join_words(ws.skip(1))
    }
}

proof fn lemma_split_blank_lines_nonempty(s: Seq<char>)
    ensures
        split_blank_lines(s).len() >= 1,
{
}

proof fn lemma_split_spaces_nonempty(s: Seq<char>)
    ensures
        split_spaces(s).len() >= 1,
{
}

proof fn lemma_prepend_first_compose(a: Seq<char>, b: Seq<char>, pieces: Seq<Seq<char>>)
    ensures
        prepend_first(a, prepend_first(b, pieces)) == prepend_first(a + b, pieces),
{
    if pieces.len() == 0 {
        assert(prepend_first(b, pieces) == seq![b]);
        assert(a + (seq![b])[0] =~= a + b);
        assert(prepend_first(a, seq![b]) =~= seq![a + b]);
        assert(prepend_first(a + b, pieces) =~= seq![a + b]);
    } else {
        let inner = prepend_first(b, pieces);
        assert(inner == seq![b + pieces[0]] + pieces.skip(1));
        assert(inner.len() >= 1);
        assert(inner[0] == b + pieces[0]);
        assert(a + (b + pieces[0]) =~= (a + b) + pieces[0]);
        assert(inner.skip(1) =~= pieces.skip(1));
        assert(prepend_first(a, inner) =~= seq![(a + b) + pieces[0]] + pieces.skip(1));
        assert(prepend_first(a + b, pieces) =~= seq![(a + b) + pieces[0]] + pieces.skip(1));
    }
}

proof fn lemma_prepend_first_empty(pieces: Seq<Seq<char>>)
    requires
        pieces.len() >= 1,
    ensures
        prepend_first(Seq::<char>::empty(), pieces) == pieces,
{
    assert(Seq::<char>::empty() + pieces[0] =~= pieces[0]);
    assert(prepend_first(Seq::<char>::empty(), pieces) =~= seq![pieces[0]] + pieces.skip(1));
    assert(seq![pieces[0]] + pieces.skip(1) =~= pieces);
}

proof fn lemma_nonempty_pieces_push(pieces: Seq<Seq<char>>, p: Seq<char>)
    ensures
        p.len() != 0 ==> nonempty_pieces(pieces.push(p)) == nonempty_pieces(pieces).push(p),
        p.len() == 0 ==> nonempty_pieces(pieces.push(p)) == nonempty_pieces(pieces),
{
    reveal(Seq::filter);
    assert(pieces.push(p).drop_last() =~= pieces);
    assert(pieces.push(p).last() == p);
}

/// Splits `text` at every blank line and discards the empty pieces.
pub fn split_paragraphs(text: &str) -> (out: Vec<String>)
    ensures
        out.deep_view() == nonempty_pieces(split_blank_lines(text@)),
{
    let n: usize = text.unicode_len();
    let mut out: Vec<String> = Vec::new();
    let mut cur = String::new();
    let ghost mut done: Seq<Seq<char>> = Seq::empty();
    let mut i: usize = 0;
    proof {
        reveal(Seq::filter);
        assert(text@.skip(0) =~= text@);
        lemma_split_blank_lines_nonempty(text@);
        lemma_prepend_first_empty(split_blank_lines(text@));
        assert(done + prepend_first(cur@, split_blank_lines(text@)) =~= split_blank_lines(text@));
        assert(out.deep_view() =~= Seq::<Seq<char>>::empty());
    }
    while i < n
        invariant
            n == text@.len(),
            i <= n,
            split_blank_lines(text@) == done + prepend_first(
                cur@,
                split_blank_lines(text@.skip(i as int)),
            ),
            out.deep_view() == nonempty_pieces(done),
        decreases n - i,
    {
        let ghost rest = text@.skip(i as int);
        let c = text.get_char(i);
        proof {
            assert(rest.len() == n - i);
            assert(rest[0] == c);
        }
        if c == '\n' && i + 1 < n && text.get_char(i + 1) == '\n' {
            proof {
                assert(rest[1] == text@[i + 1]);
                let tail = split_blank_lines(text@.skip(i + 2));
                assert(rest.skip(2) =~= text@.skip(i + 2));
                assert(split_blank_lines(rest) == seq![Seq::<char>::empty()] + tail);
                assert(cur@ + Seq::<char>::empty() =~= cur@);
                assert((seq![Seq::<char>::empty()] + tail).skip(1) =~= tail);
                assert(prepend_first(cur@, split_blank_lines(rest)) =~= seq![cur@] + tail);
                lemma_split_blank_lines_nonempty(text@.skip(i + 2));
                lemma_prepend_first_empty(tail);
                assert(done + (seq![cur@] + tail) =~= done.push(cur@) + prepend_first(
                    Seq::<char>::empty(),
                    tail,
                ));
                lemma_nonempty_pieces_push(done, cur@);
                done = done.push(cur@);
            }
            let finished = cur;
            cur = String::new();
            if !finished.as_str().is_empty() {
                let ghost prev = out.deep_view();
                out.push(finished);
                proof {
                    assert(out.deep_view() =~= prev.push(done.last()));
                }
            }
            i = i + 2;
        } else {
            proof {
                assert(!(rest.len() >= 2 && rest[0] == '\n' && rest[1] == '\n')) by {
                    if i + 1 < n {
                        assert(rest[1] == text@[i + 1]);
                    }
                }
                assert(rest.skip(1) =~= text@.skip(i + 1));
                assert(split_blank_lines(rest) == prepend_first(
                    seq![c],
                    split_blank_lines(text@.skip(i + 1)),
                ));
                lemma_prepend_first_compose(cur@, seq![c], split_blank_lines(text@.skip(i + 1)));
                assert(cur@ + seq![c] =~= cur@.push(c));
            }
            push_char(&mut cur, c);
            i = i + 1;
        }
    }
    proof {
        assert(text@.skip(i as int) =~= Seq::<char>::empty());
        assert(split_blank_lines(text@.skip(i as int)) == seq![text@.skip(i as int)]);
        assert(prepend_first(cur@, split_blank_lines(text@.skip(i as int))) =~= seq![cur@]);
        assert(done + seq![cur@] =~= done.push(cur@));
        lemma_nonempty_pieces_push(done, cur@);
        done = done.push(cur@);
    }
    if !cur.as_str().is_empty() {
        let ghost prev = out.deep_view();
        out.push(cur);
        proof {
            assert(out.deep_view() =~= prev.push(done.last()));
        }
    }
    out
}

/// Splits `text` at every whitespace character and discards the empty
/// pieces, yielding its words in order.
pub fn split_words(text: &str) -> (out: Vec<String>)
    ensures
        out.deep_view() == words_of(text@),
{
    let n: usize = text.unicode_len();
    let mut out: Vec<String> = Vec::new();
    let mut cur = String::new();
    let ghost mut done: Seq<Seq<char>> = Seq::empty();
    let mut i: usize = 0;
    proof {
        reveal(Seq::filter);
        assert(text@.skip(0) =~= text@);
        lemma_split_spaces_nonempty(text@);
        lemma_prepend_first_empty(split_spaces(text@));
        assert(done + prepend_first(cur@, split_spaces(text@)) =~= split_spaces(text@));
        assert(out.deep_view() =~= Seq::<Seq<char>>::empty());
    }
    while i < n
        invariant
            n == text@.len(),
            i <= n,
            split_spaces(text@) == done + prepend_first(
                cur@,
                split_spaces(text@.skip(i as int)),
            ),
            out.deep_view() == nonempty_pieces(done),
        decreases n - i,
    {
        let ghost rest = text@.skip(i as int);
        let c = text.get_char(i);
        proof {
            assert(rest.len() == n - i);
            assert(rest[0] == c);
        }
        if is_space(c) {
            proof {
                let tail = split_spaces(text@.skip(i + 1));
                assert(rest.skip(1) =~= text@.skip(i + 1));
                assert(split_spaces(rest) == seq![Seq::<char>::empty()] + tail);
                assert(cur@ + Seq::<char>::empty() =~= cur@);
                assert((seq![Seq::<char>::empty()] + tail).skip(1) =~= tail);
                assert(prepend_first(cur@, split_spaces(rest)) =~= seq![cur@] + tail);
                lemma_split_spaces_nonempty(text@.skip(i + 1));
                lemma_prepend_first_empty(tail);
                assert(done + (seq![cur@] + tail) =~= done.push(cur@) + prepend_first(
                    Seq::<char>::empty(),
                    tail,
                ));
                lemma_nonempty_pieces_push(done, cur@);
                done = done.push(cur@);
            }
            let finished = cur;
            cur = String::new();
            if !finished.as_str().is_empty() {
                let ghost prev = out.deep_view();
                out.push(finished);
                proof {
                    assert(out.deep_view() =~= prev.push(done.last()));
                }
            }
            i = i + 1;
        } else {
            proof {
                assert(rest.skip(1) =~= text@.skip(i + 1));
                assert(split_spaces(rest) == prepend_first(
                    seq![c],
                    split_spaces(text@.skip(i + 1)),
                ));
                lemma_prepend_first_compose(cur@, seq![c], split_spaces(text@.skip(i + 1)));
                assert(cur@ + seq![c] =~= cur@.push(c));
            }
            push_char(&mut cur, c);
            i = i + 1;
        }
    }
    proof {
        assert(text@.skip(i as int) =~= Seq::<char>::empty());
        assert(split_spaces(text@.skip(i as int)) == seq![text@.skip(i as int)]);
        assert(prepend_first(cur@, split_spaces(text@.skip(i as int))) =~= seq![cur@]);
        assert(done + seq![cur@] =~= done.push(cur@));
        lemma_nonempty_pieces_push(done, cur@);
        done = done.push(cur@);
    }
    if !cur.as_str().is_empty() {
        let ghost prev = out.deep_view();
        out.push(cur);
        proof {
            assert(out.deep_view() =~= prev.push(done.last()));
        }
    }
    out
}

proof fn lemma_join_words_push(ws: Seq<Seq<char>>, w: Seq<char>)
    ensures
        ws.len() == 0 ==> join_words(ws.push(w)) == w,
        ws.len() > 0 ==> join_words(ws.push(w)) == join_words(ws) + seq![' '] + w,
    decreases ws.len(),
{
    if ws.len() == 0 {
        assert(join_words(ws.push(w)) == ws.push(w)[0]);
        assert(ws.push(w)[0] == w);
    } else if ws.len() == 1 {
        assert(ws.push(w).len() == 2);
        assert(ws.push(w)[0] == ws[0]);
        assert(ws.push(w).skip(1) =~= seq![w]);
        assert(join_words(seq![w]) == w);
        assert(join_words(ws) == ws[0]);
    } else {
        lemma_join_words_push(ws.skip(1), w);
        assert(ws.push(w).skip(1) =~= ws.skip(1).push(w));
        assert(join_words(ws.push(w)) == ws[0] + seq![' '] + join_words(ws.skip(1).push(w)));
        assert(ws.skip(1).len() > 0);
        assert(join_words(ws.skip(1).push(w)) == join_words(ws.skip(1)) + seq![' '] + w);
        assert(ws[0] + seq![' '] + (join_words(ws.skip(1)) + seq![' '] + w) =~= (ws[0] + seq![' ']
            + join_words(ws.skip(1))) + seq![' '] + w);
        assert(join_words(ws) == ws[0] + seq![' '] + join_words(ws.skip(1)));
    }
}

/// Joins `words` into one string with a single space between
/// consecutive words.
pub fn join_spaces(words: &Vec<String>) -> (out: String)
    ensures
        out@ == join_words(words.deep_view()),
{
    let mut out = String::new();
    let mut k: usize = 0;
    proof {
        assert(words.deep_view().take(0) =~= Seq::<Seq<char>>::empty());
    }
    while k < words.len()
        invariant
            k <= words@.len(),
            words.deep_view().len() == words@.len(),
            out@ == join_words(words.deep_view().take(k as int)),
        decreases words@.len() - k,
    {
        let ghost dv = words.deep_view();
        proof {
            assert(dv.take(k + 1) =~= dv.take(k as int).push(dv[k as int]));
            lemma_join_words_push(dv.take(k as int), dv[k as int]);
            assert(dv.take(k as int).len() == k as int);
            assert(dv[k as int] == words@[k as int]@);
        }
        if k > 0 {
            out.append(" ");
            proof {
                reveal_strlit(" ");
                assert(" "@ =~= seq![' ']);
            }
        }
        out.append(words[k].as_str());
        k = k + 1;
    }
    proof {
        assert(words.deep_view().take(words@.len() as int) =~= words.deep_view());
    }
    out
}

} // verus!
