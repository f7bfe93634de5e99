//! Breaking a sentence across rows.

use crate::text::{chars_of, is_white_space, push_char, text_of, texts, white_space};
use vstd::prelude::*;
use vstd::string::*;

verus! {

/// A text in pieces of at most `width` characters, or whole when it already fits. No piece
/// can be of width zero: there the text comes whole, behind an empty piece.
pub open spec fn chunks(s: Seq<char>, width: nat) -> Seq<Seq<char>>
    decreases s.len(),
{
    if s.len() <= width {
        seq![s]
    } else if width == 0 {
        seq![Seq::<char>::empty(), s]
    } else {
        seq![s.take(width as int)] + chunks(s.skip(width as int), width)
    }
}

/// The words that a text has finished, and the one it is in the middle of.
pub open spec fn word_split(s: Seq<char>) -> (Seq<Seq<char>>, Seq<char>)
    decreases s.len(),
{
    if s.len() == 0 {
        (Seq::<Seq<char>>::empty(), Seq::<char>::empty())
    } else {
        let (done, word) = word_split(s.drop_last());
        if !white_space(s.last()) {
            (done, word.push(s.last()))
        } else if word.len() > 0 {
            (done.push(word), Seq::<char>::empty())
        } else {
            (done, word)
        }
    }
}

/// The words of a text: what stands between its white space.
pub open spec fn words(s: Seq<char>) -> Seq<Seq<char>> {
    let (done, word) = word_split(s);
    if word.len() > 0 {
        done.push(word)
    } else {
        done
    }
}

/// The words with those too wide for a row broken up.
pub open spec fn pieces(ws: Seq<Seq<char>>, width: nat) -> Seq<Seq<char>>
    decreases ws.len(),
{
    if ws.len() == 0 {
        Seq::<Seq<char>>::empty()
    } else {
        pieces(ws.drop_last(), width) + chunks(ws.last(), width)
    }
}

/// Rows with one more piece: on the last row if it fits there, on a row of its own if not.
pub open spec fn lay(rows: Seq<Seq<char>>, piece: Seq<char>, width: nat) -> Seq<Seq<char>> {
    if rows.len() > 0 && rows.last().len() + 1 + piece.len() <= width {
        rows.drop_last().push(rows.last().push(' ') + piece)
    } else {
        rows.push(piece)
    }
}

/// The rows that pieces fill.
pub open spec fn laid(ps: Seq<Seq<char>>, width: nat) -> Seq<Seq<char>>
    decreases ps.len(),
{
    if ps.len() == 0 {
        Seq::<Seq<char>>::empty()
    } else {
        lay(laid(ps.drop_last(), width), ps.last(), width)
    }
}

/// The width that counts: a row holds at least one character.
pub open spec fn row_width(width: nat) -> nat {
    if width == 0 {
        1
    } else {
        width
    }
}

/// All the rows of a text.
pub open spec fn all_rows(text: Seq<char>, width: nat) -> Seq<Seq<char>> {
    laid(pieces(words(text), row_width(width)), row_width(width))
}

/// The rows to show: so many at most, and the last one says when some were cut.
pub open spec fn rows(text: Seq<char>, width: nat, max_lines: nat) -> Seq<Seq<char>> {
    let all = all_rows(text, width);
    if all.len() <= max_lines {
        all
    } else if max_lines == 0 {
        Seq::<Seq<char>>::empty()
    } else {
        all.take(max_lines - 1).push(all[max_lines - 1] + " …"@)
    }
}

/// All the texts in one.
pub open spec fn run_together(v: Seq<Seq<char>>) -> Seq<char>
    decreases v.len(),
{
    if v.len() == 0 {
        Seq::<char>::empty()
    } else {
        run_together(v.drop_last()) + v.last()
    }
}

/// A text without its white space.
pub open spec fn solid(s: Seq<char>) -> Seq<char>
    decreases s.len(),
{
    if s.len() == 0 {
        Seq::<char>::empty()
    } else if white_space(s.last()) {
        solid(s.drop_last())
    } else {
        solid(s.drop_last()).push(s.last())
    }
}

proof fn lemma_solid_concat(a: Seq<char>, b: Seq<char>)
    ensures
        solid(a + b) == solid(a) + solid(b),
    decreases b.len(),
{
    if b.len() == 0 {
        assert(a + b == a);
        assert(solid(a) + solid(b) == solid(a));
    } else {
        lemma_solid_concat(a, b.drop_last());
        assert((a + b).drop_last() == a + b.drop_last());
        assert((a + b).last() == b.last());
        if !white_space(b.last()) {
            assert(solid(a) + solid(b.drop_last()).push(b.last()) == (solid(a) + solid(
                b.drop_last(),
            )).push(b.last()));
        }
    }
}

proof fn lemma_run_concat(a: Seq<Seq<char>>, b: Seq<Seq<char>>)
    ensures
        run_together(a + b) == run_together(a) + run_together(b),
    decreases b.len(),
{
    if b.len() == 0 {
        assert(a + b == a);
        assert(run_together(a) + run_together(b) == run_together(a));
    } else {
        lemma_run_concat(a, b.drop_last());
        assert((a + b).drop_last() == a + b.drop_last());
        assert((a + b).last() == b.last());
        assert(run_together(a) + (run_together(b.drop_last()) + b.last()) == (run_together(a)
            + run_together(b.drop_last())) + b.last());
    }
}

proof fn lemma_chunks_keep(s: Seq<char>, width: nat)
    requires
        width > 0,
    ensures
        run_together(chunks(s, width)) == s,
        forall|i: int|
            0 <= i < chunks(s, width).len() ==> (#[trigger] chunks(s, width)[i]).len() <= width,
    decreases s.len(),
{
    if s.len() <= width {
        assert(chunks(s, width).drop_last() == Seq::<Seq<char>>::empty());
        assert(run_together(seq![s].drop_last()) == Seq::<char>::empty());
        assert(Seq::<char>::empty() + s == s);
    } else {
        let rest = s.skip(width as int);
        let head = s.take(width as int);
        lemma_chunks_keep(rest, width);
        lemma_run_concat(seq![head], chunks(rest, width));
        assert(seq![head].drop_last() == Seq::<Seq<char>>::empty());
        assert(run_together(seq![head].drop_last()) == Seq::<char>::empty());
        assert(seq![head].last() == head);
        assert(run_together(seq![head]) == Seq::<char>::empty() + head);
        assert(head + rest == s);
        assert(Seq::<char>::empty() + head == head);
        let all = chunks(s, width);
        assert forall|i: int| 0 <= i < all.len() implies (#[trigger] all[i]).len() <= width by {
            if i > 0 {
                assert(all[i] == chunks(rest, width)[i - 1]);
            }
        }
    }
}

proof fn lemma_words_keep(s: Seq<char>)
    ensures
        run_together(word_split(s).0) + word_split(s).1 == solid(s),
        solid(word_split(s).1) == word_split(s).1,
    decreases s.len(),
{
    if s.len() == 0 {
        assert(Seq::<char>::empty() + Seq::<char>::empty() == Seq::<char>::empty());
    } else {
        lemma_words_keep(s.drop_last());
        let (done, word) = word_split(s.drop_last());
        if !white_space(s.last()) {
            assert(run_together(done) + word.push(s.last()) == (run_together(done) + word).push(
                s.last(),
            ));
            assert(word.push(s.last()).drop_last() == word);
        } else if word.len() > 0 {
            assert(done.push(word).drop_last() == done);
            assert(run_together(done.push(word)) + Seq::<char>::empty() == run_together(done)
                + word);
        } else {
            assert(word == Seq::<char>::empty());
        }
    }
}

proof fn lemma_pieces_keep(ws: Seq<Seq<char>>, width: nat)
    requires
        width > 0,
    ensures
        run_together(pieces(ws, width)) == run_together(ws),
        forall|i: int|
            0 <= i < pieces(ws, width).len() ==> (#[trigger] pieces(ws, width)[i]).len() <= width,
    decreases ws.len(),
{
    if ws.len() > 0 {
        lemma_pieces_keep(ws.drop_last(), width);
        lemma_chunks_keep(ws.last(), width);
        lemma_run_concat(pieces(ws.drop_last(), width), chunks(ws.last(), width));
        let some = pieces(ws.drop_last(), width);
        let all = pieces(ws, width);
        assert forall|i: int| 0 <= i < all.len() implies (#[trigger] all[i]).len() <= width by {
            if i < some.len() {
                assert(all[i] == some[i]);
            } else {
                assert(all[i] == chunks(ws.last(), width)[i - some.len()]);
            }
        }
    }
}

proof fn lemma_laid_keeps(ps: Seq<Seq<char>>, width: nat)
    requires
        forall|i: int| 0 <= i < ps.len() ==> (#[trigger] ps[i]).len() <= width,
    ensures
        solid(run_together(laid(ps, width))) == solid(run_together(ps)),
        forall|i: int|
            0 <= i < laid(ps, width).len() ==> (#[trigger] laid(ps, width)[i]).len() <= width,
    decreases ps.len(),
{
    if ps.len() > 0 {
        let before = ps.drop_last();
        assert forall|i: int| 0 <= i < before.len() implies (#[trigger] before[i]).len()
            <= width by {
            assert(before[i] == ps[i]);
        }
        lemma_laid_keeps(before, width);
        let some = laid(before, width);
        let piece = ps.last();
        assert(piece.len() <= width) by {
            assert(ps[ps.len() - 1] == piece);
        }
        let all = laid(ps, width);
        lemma_solid_concat(run_together(before), piece);
        if some.len() > 0 && some.last().len() + 1 + piece.len() <= width {
            let longer = some.last().push(' ') + piece;
            let head = some.drop_last();
            assert(all.drop_last() == head);
            assert(all.last() == longer);
            assert(some == head.push(some.last()));
            lemma_solid_concat(run_together(head), longer);
            lemma_solid_concat(some.last().push(' '), piece);
            lemma_solid_concat(run_together(head), some.last());
            assert(some.last().push(' ').drop_last() == some.last());
            assert(solid(some.last().push(' ')) == solid(some.last()));
            assert(solid(run_together(head)) + (solid(some.last()) + solid(piece)) == (solid(
                run_together(head),
            ) + solid(some.last())) + solid(piece));
            assert forall|i: int| 0 <= i < all.len() implies (#[trigger] all[i]).len()
                <= width by {
                if i < head.len() {
                    assert(all[i] == some[i]);
                }
            }
        } else {
            assert(all.drop_last() == some);
            lemma_solid_concat(run_together(some), piece);
            assert forall|i: int| 0 <= i < all.len() implies (#[trigger] all[i]).len()
                <= width by {
                if i < some.len() {
                    assert(all[i] == some[i]);
                }
            }
        }
    }
}

/// Nothing of a sentence is lost in breaking it: all its rows together hold its characters,
/// white space aside, in their order. And no row is wider than it may be.
pub proof fn breaking_a_sentence_loses_nothing(text: Seq<char>, width: nat)
    ensures
        solid(run_together(all_rows(text, width))) == solid(text),
        forall|i: int|
            0 <= i < all_rows(text, width).len() ==> (#[trigger] all_rows(text, width)[i]).len()
                <= row_width(width),
{
    let w = row_width(width);
    lemma_words_keep(text);
    let (done, word) = word_split(text);
    let ws = words(text);
    if word.len() > 0 {
        assert(ws.drop_last() == done);
    } else {
        assert(run_together(done) + word == run_together(done));
    }
    assert(run_together(ws) == solid(text));
    lemma_pieces_keep(ws, w);
    lemma_laid_keeps(pieces(ws, w), w);
    lemma_solid_of_solid(text);
}

proof fn lemma_solid_of_solid(s: Seq<char>)
    ensures
        solid(solid(s)) == solid(s),
    decreases s.len(),
{
    if s.len() > 0 {
        lemma_solid_of_solid(s.drop_last());
        if !white_space(s.last()) {
            assert(solid(s).drop_last() == solid(s.drop_last()));
        }
    }
}

/// The rows shown are never more than asked for, are the first ones, and where some were
/// cut the last one says so.
pub proof fn a_cut_sentence_says_so(text: Seq<char>, width: nat, max_lines: nat)
    ensures
        rows(text, width, max_lines).len() <= max_lines,
        all_rows(text, width).len() <= max_lines ==> rows(text, width, max_lines) == all_rows(
            text,
            width,
        ),
        all_rows(text, width).len() > max_lines && max_lines > 0 ==> {
            let shown = rows(text, width, max_lines);
            &&& shown.len() == max_lines
            &&& shown.last() == all_rows(text, width)[max_lines - 1] + " …"@
            &&& forall|i: int|
                0 <= i < max_lines - 1 ==> #[trigger] shown[i] == all_rows(text, width)[i]
        },
{
}

/// A text in pieces of at most `width` characters, or whole when it already fits. At width
/// zero a text that is not empty comes whole, behind an empty piece.
pub fn split_to_width(s: &str, width: usize) -> (r: Vec<String>)
    ensures
        texts(r@) == chunks(s@, width as nat),
{
    let x = chars_of(s);
    let mut out: Vec<String> = Vec::new();
    if width == 0 && x.len() > 0 {
        out.push(String::new());
        out.push(s.to_owned());
        assert(texts(out@) == chunks(s@, 0));
        return out;
    }
    let mut from: usize = 0;
    assert(s@.skip(0) == s@);
    assert(texts(out@) + chunks(s@, width as nat) == chunks(s@, width as nat));
    while x.len() - from > width
        invariant
            width > 0 || x@.len() == 0,
            from <= x@.len(),
            x@ == s@,
            texts(out@) + chunks(s@.skip(from as int), width as nat) == chunks(s@, width as nat),
        decreases x@.len() - from,
    {
        let ghost rest = s@.skip(from as int);
        let piece = text_of(&x, from, from + width);
        assert(piece@ == rest.take(width as int));
        assert(rest.skip(width as int) == s@.skip(from + width));
        let ghost before = out@;
        out.push(piece);
        assert(texts(out@) == texts(before).push(piece@));
        assert(texts(before) + (seq![piece@] + chunks(s@.skip(from + width), width as nat))
            == texts(out@) + chunks(s@.skip(from + width), width as nat));
        from = from + width;
    }
    let last = text_of(&x, from, x.len());
    assert(last@ == s@.skip(from as int));
    let ghost before = out@;
    out.push(last);
    assert(texts(out@) == texts(before) + seq![last@]);
    out
}

fn word_list(s: &str) -> (r: Vec<String>)
    ensures
        texts(r@) == words(s@),
{
    let x = chars_of(s);
    let mut done: Vec<String> = Vec::new();
    let mut word = String::new();
    let mut i: usize = 0;
    assert(s@.take(0) == Seq::<char>::empty());
    while i < x.len()
        invariant
            i <= x@.len(),
            x@ == s@,
            word_split(s@.take(i as int)) == (texts(done@), word@),
        decreases x@.len() - i,
    {
        assert(s@.take(i + 1).drop_last() == s@.take(i as int));
        assert(s@.take(i + 1).last() == x@[i as int]);
        if !is_white_space(x[i]) {
            push_char(&mut word, x[i]);
        } else if !word.as_str().is_empty() {
            let ghost before = done@;
            let ghost finished = word@;
            done.push(word);
            assert(texts(done@) == texts(before).push(finished));
            word = String::new();
        }
        i = i + 1;
    }
    assert(s@.take(x@.len() as int) == s@);
    if !word.as_str().is_empty() {
        let ghost before = done@;
        let ghost finished = word@;
        done.push(word);
        assert(texts(done@) == texts(before).push(finished));
    }
    done
}

fn lay_piece(rows: &mut Vec<String>, piece: String, width: usize)
    ensures
        texts(final(rows)@) == lay(texts(old(rows)@), piece@, width as nat),
{
    let ghost before = texts(rows@);
    let n: usize = rows.len();
    if n > 0 {
        let row = chars_of(rows[n - 1].as_str());
        let len: usize = chars_of(piece.as_str()).len();
        assert(before.last() == rows@[n - 1]@);
        if len < width && row.len() < width && row.len() <= width - 1 - len {
            let mut longer = rows[n - 1].clone();
            push_char(&mut longer, ' ');
            longer.append(piece.as_str());
            let ghost text = longer@;
            rows.pop();
            assert(texts(rows@) == before.drop_last());
            let ghost short = rows@;
            rows.push(longer);
            assert(texts(rows@) == texts(short).push(text));
            return ;
        }
    }
    let ghost short = rows@;
    let ghost text = piece@;
    rows.push(piece);
    assert(texts(rows@) == texts(short).push(text));
}

/// Break a sentence across rows of at most `width` characters.
///
/// A panel draws one item per line and does not wrap, so a sentence that carries a path
/// would be a row wider than the screen. A word wider than the row is broken too: a path is
/// the one part of such a sentence with no spaces to break at. Where rows are cut that has
/// to be visible, since the part cut off is usually the part that says what to do.
pub fn wrap(text: &str, width: usize, max_lines: usize) -> (r: Vec<String>)
    ensures
        texts(r@) == rows(text@, width as nat, max_lines as nat),
{
    let w: usize = if width == 0 {
        1
    } else {
        width
    };
    let ws = word_list(text);
    let ghost all_words = words(text@);
    let mut out: Vec<String> = Vec::new();
    let mut i: usize = 0;
    while i < ws.len()
        invariant
            i <= ws@.len(),
            w > 0,
            texts(ws@) == all_words,
            texts(out@) == laid(pieces(all_words.take(i as int), w as nat), w as nat),
        decreases ws@.len() - i,
    {
        let mut ps = split_to_width(ws[i].as_str(), w);
        let ghost some = pieces(all_words.take(i as int), w as nat);
        let ghost more = texts(ps@);
        assert(all_words.take(i + 1).drop_last() == all_words.take(i as int));
        assert(all_words.take(i + 1).last() == ws@[i as int]@);
        let mut k: usize = 0;
        assert(some + more.take(0) == some);
        while k < ps.len()
            invariant
                k <= ps@.len(),
                texts(ps@) == more,
                texts(out@) == laid(some + more.take(k as int), w as nat),
            decreases ps@.len() - k,
        {
            assert((some + more.take(k + 1)).drop_last() == some + more.take(k as int));
            assert((some + more.take(k + 1)).last() == ps@[k as int]@);
            let piece = ps[k].clone();
            lay_piece(&mut out, piece, w);
            k = k + 1;
        }
        assert(more.take(ps@.len() as int) == more);
        i = i + 1;
    }
    assert(all_words.take(ws@.len() as int) == all_words);
    let ghost all = all_rows(text@, width as nat);
    assert(texts(out@) == all);
    if out.len() > max_lines {
        out.truncate(max_lines);
        assert(texts(out@) == all.take(max_lines as int));
        if max_lines > 0 {
            let mut last = out[max_lines - 1].clone();
            assert(last@ == all[max_lines - 1]);
            last.append(" …");
            let ghost text = last@;
            out.pop();
            let ghost short = out@;
            assert(texts(short) == all.take(max_lines - 1));
            out.push(last);
            assert(texts(out@) == texts(short).push(text));
        }
    }
    out
}

} // verus!
