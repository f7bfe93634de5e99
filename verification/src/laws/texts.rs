//! What the ways of taking texts apart and of putting them together have to do with each other.

use crate::text::{
    digit, digits, joined, lemma_split_has_a_piece, line_list, split_on, trimmed, trimmed_end,
    trimmed_start, white_space, without_return, without_trailing,
};
use vstd::prelude::*;

verus! {

/// What a decimal digit counts.
pub open spec fn counts(c: char) -> nat {
    if '0' <= c <= '9' {
        (c as int - '0' as int) as nat
    } else {
        0
    }
}

/// The number that decimal digits stand for.
pub open spec fn number_in(s: Seq<char>) -> nat
    decreases s.len(),
{
    if s.len() == 0 {
        0
    } else {
        number_in(s.drop_last()) * 10 + counts(s.last())
    }
}

/// A number reads back from its digits, which are digits alone and begin with no zero but that
/// of zero itself.
pub proof fn a_number_reads_back(n: nat)
    ensures
        number_in(digits(n)) == n,
        digits(n).len() > 0,
        forall|i: int| 0 <= i < digits(n).len() ==> '0' <= #[trigger] digits(n)[i] <= '9',
        digits(n)[0] == '0' ==> n == 0,
    decreases n,
{
    assert('0' as int == 48 && '1' as int == 49 && '2' as int == 50 && '3' as int == 51 && '4'
        as int == 52 && '5' as int == 53 && '6' as int == 54 && '7' as int == 55 && '8' as int == 56
        && '9' as int == 57);
    if n < 10 {
        let s = digits(n);
        assert(s.drop_last().len() == 0);
        assert(number_in(s.drop_last()) == 0);
        assert(s.last() == digit(n));
        assert(counts(digit(n)) == n);
    } else {
        a_number_reads_back(n / 10);
        let s = digits(n);
        assert(s.drop_last() == digits(n / 10));
        assert(s.last() == digit(n % 10));
        assert(counts(digit(n % 10)) == n % 10);
        assert(s[0] == digits(n / 10)[0]);
    }
}

/// Two numbers with the same digits are the same number.
pub proof fn numbers_are_told_apart(m: nat, n: nat)
    ensures
        digits(m) == digits(n) ==> m == n,
{
    a_number_reads_back(m);
    a_number_reads_back(n);
}

/// Whether a text is white space alone.
pub open spec fn blank(s: Seq<char>) -> bool {
    forall|i: int| 0 <= i < s.len() ==> white_space(#[trigger] s[i])
}

/// What is trimmed off a text is white space alone, on both sides, and all of it: what is left
/// stands in the text, and neither begins nor ends with any.
pub proof fn only_white_space_is_trimmed(s: Seq<char>)
    ensures
        exists|i: int, j: int|
            #![trigger s.subrange(i, j)]
            0 <= i <= j <= s.len() && trimmed(s) == s.subrange(i, j) && blank(s.take(i)) && blank(
                s.skip(j),
            ),
        trimmed(s).len() > 0 ==> !white_space(trimmed(s)[0]) && !white_space(trimmed(s).last()),
{
    lemma_trimmed_start(s);
    let rest = trimmed_start(s);
    lemma_trimmed_end(rest);
    let i = s.len() - rest.len();
    let j = i + trimmed_end(rest).len();
    assert(rest == s.skip(i));
    assert(trimmed(s) == s.subrange(i, j));
    let tail = rest.skip(trimmed_end(rest).len() as int);
    assert(tail == s.skip(j));
    if trimmed(s).len() > 0 {
        assert(trimmed(s)[0] == rest[0]);
    }
}

proof fn lemma_trimmed_start(s: Seq<char>)
    ensures
        trimmed_start(s).len() <= s.len(),
        trimmed_start(s) == s.skip(s.len() - trimmed_start(s).len()),
        blank(s.take(s.len() - trimmed_start(s).len())),
        trimmed_start(s).len() > 0 ==> !white_space(trimmed_start(s)[0]),
    decreases s.len(),
{
    if s.len() > 0 && white_space(s[0]) {
        let rest = s.drop_first();
        lemma_trimmed_start(rest);
        let k = rest.len() - trimmed_start(rest).len();
        assert(rest.skip(k) == s.skip(k + 1));
        let head = s.take(k + 1);
        assert forall|i: int| 0 <= i < head.len() implies white_space(#[trigger] head[i]) by {
            if i > 0 {
                assert(rest.take(k)[i - 1] == head[i]);
            }
        }
    } else {
        assert(s.skip(0) == s);
    }
}

proof fn lemma_trimmed_end(s: Seq<char>)
    ensures
        trimmed_end(s).len() <= s.len(),
        trimmed_end(s) == s.take(trimmed_end(s).len() as int),
        blank(s.skip(trimmed_end(s).len() as int)),
        trimmed_end(s).len() > 0 ==> !white_space(trimmed_end(s).last()),
    decreases s.len(),
{
    if s.len() > 0 && white_space(s.last()) {
        let rest = s.drop_last();
        lemma_trimmed_end(rest);
        let k = trimmed_end(rest).len() as int;
        assert(rest.take(k) == s.take(k));
        let tail = s.skip(k);
        assert forall|i: int| 0 <= i < tail.len() implies white_space(#[trigger] tail[i]) by {
            if i < tail.len() - 1 {
                assert(rest.skip(k)[i] == tail[i]);
            }
        }
    } else {
        assert(s.take(s.len() as int) == s);
    }
}

/// What is taken off the end of a text is repetitions of one character, and all of them.
pub proof fn only_repetitions_are_taken_off(s: Seq<char>, c: char)
    ensures
        without_trailing(s, c).len() <= s.len(),
        without_trailing(s, c) == s.take(without_trailing(s, c).len() as int),
        forall|i: int| without_trailing(s, c).len() <= i < s.len() ==> #[trigger] s[i] == c,
        without_trailing(s, c).len() > 0 ==> without_trailing(s, c).last() != c,
    decreases s.len(),
{
    if s.len() > 0 && s.last() == c {
        let rest = s.drop_last();
        only_repetitions_are_taken_off(rest, c);
        let k = without_trailing(rest, c).len() as int;
        assert(rest.take(k) == s.take(k));
        assert forall|i: int| k <= i < s.len() implies #[trigger] s[i] == c by {
            if i < rest.len() {
                assert(rest[i] == s[i]);
            }
        }
    } else {
        assert(s.take(s.len() as int) == s);
    }
}

/// Splitting a text loses nothing: no piece holds the character it was split on, and the pieces
/// put together with it between them are the text.
pub proof fn splitting_loses_nothing(s: Seq<char>, c: char)
    ensures
        joined(split_on(s, c), seq![c]) == s,
        forall|k: int|
            0 <= k < split_on(s, c).len() ==> !(#[trigger] split_on(s, c)[k]).contains(c),
    decreases s.len(),
{
    lemma_split_has_a_piece(s, c);
    let all = split_on(s, c);
    if s.len() > 0 {
        let rest = s.drop_last();
        let before = split_on(rest, c);
        splitting_loses_nothing(rest, c);
        lemma_split_has_a_piece(rest, c);
        assert(rest.push(s.last()) == s);
        if s.last() == c {
            assert(all.drop_last() == before);
            assert(joined(all, seq![c]) == rest + seq![c] + Seq::<char>::empty());
            assert(rest + seq![c] + Seq::<char>::empty() == s);
            assert forall|k: int| 0 <= k < all.len() implies !(#[trigger] all[k]).contains(c) by {
                if k < before.len() {
                    assert(all[k] == before[k]);
                }
            }
        } else {
            let last = before.last().push(s.last());
            assert(all.drop_last() == before.drop_last());
            assert(all.last() == last);
            if before.len() == 1 {
                assert(joined(before, seq![c]) == before[0]);
                assert(all[0] == last);
                assert(joined(all, seq![c]) == last);
            } else {
                let head = joined(before.drop_last(), seq![c]) + seq![c];
                assert(rest == head + before.last());
                assert(joined(all, seq![c]) == head + last);
                assert(head + last == (head + before.last()).push(s.last()));
            }
            assert forall|k: int| 0 <= k < all.len() implies !(#[trigger] all[k]).contains(c) by {
                if k < before.len() - 1 {
                    assert(all[k] == before[k]);
                } else {
                    assert(all[k] == last);
                    assert(!before[before.len() - 1].contains(c));
                    assert forall|i: int| 0 <= i < last.len() implies last[i] != c by {
                        if i < before.last().len() {
                            assert(before.last()[i] == last[i]);
                            assert(before.last().contains(last[i]));
                        }
                    }
                }
            }
        }
    } else {
        assert(all.len() == 1);
        assert(joined(all, seq![c]) == all[0]);
        assert(all[0] == s);
    }
}

/// No line of a text holds a line feed. The lines of a text without carriage returns, put
/// together with line feeds between them, are the text, without the line feed it may end with.
pub proof fn no_line_is_lost(s: Seq<char>)
    ensures
        forall|k: int| 0 <= k < line_list(s).len() ==> !(#[trigger] line_list(s)[k]).contains('\n'),
        !s.contains('\r') && s.len() > 0 && s.last() != '\n' ==> joined(line_list(s), seq!['\n'])
            == s,
        !s.contains('\r') && s.len() > 0 && s.last() == '\n' ==> joined(line_list(s), seq!['\n'])
            == s.drop_last(),
{
    let pieces = split_on(s, '\n');
    let all = line_list(s);
    splitting_loses_nothing(s, '\n');
    lemma_split_has_a_piece(s, '\n');
    assert forall|k: int| 0 <= k < all.len() implies !(#[trigger] all[k]).contains('\n') by {
        assert(!pieces[k].contains('\n'));
        if k < pieces.len() - 1 {
            assert(all[k] == without_return(pieces[k]));
            assert forall|i: int| 0 <= i < all[k].len() implies all[k][i] != '\n' by {
                assert(pieces[k][i] == all[k][i]);
                assert(pieces[k].contains(all[k][i]));
            }
        } else {
            assert(all[k] == pieces[k]);
        }
    }
    if !s.contains('\r') && s.len() > 0 {
        assert forall|k: int| 0 <= k < pieces.len() implies without_return(#[trigger] pieces[k])
            == pieces[k] by {
            lemma_pieces_come_from(s, '\n', k);
            if pieces[k].len() > 0 {
                assert(pieces[k].contains(pieces[k].last()));
            }
        }
        assert(pieces.drop_last().map_values(|p: Seq<char>| without_return(p))
            == pieces.drop_last());
        if s.last() == '\n' {
            assert(split_on(s.drop_last(), '\n') == pieces.drop_last());
            assert(pieces.last().len() == 0);
            splitting_loses_nothing(s.drop_last(), '\n');
            assert(all == pieces.drop_last());
        } else {
            assert(pieces.last().last() == s.last());
            assert(pieces.last().len() > 0);
            assert(all == pieces);
        }
    }
}

proof fn lemma_pieces_come_from(s: Seq<char>, c: char, k: int)
    requires
        0 <= k < split_on(s, c).len(),
    ensures
        forall|x: char| #[trigger] split_on(s, c)[k].contains(x) ==> s.contains(x),
    decreases s.len(),
{
    if s.len() > 0 {
        let rest = s.drop_last();
        let before = split_on(rest, c);
        lemma_split_has_a_piece(rest, c);
        let all = split_on(s, c);
        assert forall|x: char| #[trigger] all[k].contains(x) implies s.contains(x) by {
            let i = choose|i: int| 0 <= i < all[k].len() && all[k][i] == x;
            if k < before.len() {
                lemma_pieces_come_from(rest, c, k);
                if i < before[k].len() {
                    assert(before[k][i] == x);
                    assert(before[k].contains(x));
                    assert(rest.contains(x));
                    let j = choose|j: int| 0 <= j < rest.len() && rest[j] == x;
                    assert(s[j] == x);
                } else {
                    assert(s[s.len() - 1] == x);
                }
            }
        }
    }
}

} // verus!
