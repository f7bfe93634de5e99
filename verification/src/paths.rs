//! File paths as texts, compared and joined as the file system sees them.

use crate::text::{begins_with, lemma_split_has_a_piece, same_text, split, split_on, texts};
use vstd::prelude::*;
use vstd::string::*;

verus! {

/// Whether a path starts at the root.
pub open spec fn rooted(p: Seq<char>) -> bool {
    p.len() > 0 && p[0] == '/'
}

/// Whether a piece of a path names something, rather than being empty or a dot.
pub open spec fn names_something(piece: Seq<char>) -> bool {
    piece.len() > 0 && piece != "."@
}

/// The components of a path. Repeated and trailing separators and inner dots do not
/// count; a dot that a relative path begins with does.
pub open spec fn components(p: Seq<char>) -> Seq<Seq<char>> {
    let pieces = split_on(p, '/');
    let named = pieces.filter(|c: Seq<char>| names_something(c));
    if pieces[0] == "."@ {
        seq!["."@] + named
    } else {
        named
    }
}

/// Whether two paths are the same path, however they are spelled.
pub open spec fn same_place(a: Seq<char>, b: Seq<char>) -> bool {
    rooted(a) == rooted(b) && components(a) == components(b)
}

/// The path reached by going on from one path along another.
pub open spec fn joined_path(base: Seq<char>, p: Seq<char>) -> Seq<char> {
    if rooted(p) {
        p
    } else if base.len() == 0 || base.last() == '/' {
        base + p
    } else {
        base + "/"@ + p
    }
}

/// Being the same path is an equivalence.
pub proof fn same_place_is_an_equivalence(a: Seq<char>, b: Seq<char>, c: Seq<char>)
    ensures
        same_place(a, a),
        same_place(a, b) == same_place(b, a),
        same_place(a, b) && same_place(b, c) ==> same_place(a, c),
{
}

proof fn lemma_split_across(a: Seq<char>, b: Seq<char>)
    ensures
        split_on(a + "/"@ + b, '/') == split_on(a, '/') + split_on(b, '/'),
    decreases b.len(),
{
    reveal_strlit("/");
    let whole = a + "/"@ + b;
    lemma_split_has_a_piece(b, '/');
    if b.len() == 0 {
        assert(whole.drop_last() == a);
        assert(whole.last() == '/');
        assert(split_on(a, '/').push(Seq::<char>::empty()) == split_on(a, '/') + split_on(b, '/'));
    } else {
        let rest = b.drop_last();
        lemma_split_across(a, rest);
        lemma_split_has_a_piece(rest, '/');
        assert(whole.drop_last() == a + "/"@ + rest);
        assert(whole.last() == b.last());
        let before = split_on(a, '/') + split_on(rest, '/');
        assert(before.last() == split_on(rest, '/').last());
        assert(before.drop_last() == split_on(a, '/') + split_on(rest, '/').drop_last());
        assert(split_on(whole, '/') == split_on(a, '/') + split_on(b, '/'));
    }
}

/// Going on from a path along a relative one leads to a place below it: its components come
/// first, and those that the relative path names follow them.
pub proof fn a_joined_path_goes_on_from_its_base(base: Seq<char>, p: Seq<char>)
    requires
        base.len() > 0,
        !rooted(p),
    ensures
        begins_with(joined_path(base, p), base),
        rooted(joined_path(base, p)) == rooted(base),
        components(joined_path(base, p)) == components(base) + split_on(p, '/').filter(
            |c: Seq<char>| names_something(c),
        ),
{
    reveal_strlit("/");
    let keep = |c: Seq<char>| names_something(c);
    let joined = joined_path(base, p);
    assert(joined.subrange(0, base.len() as int) == base);
    let below = if base.last() == '/' {
        base.drop_last()
    } else {
        base
    };
    assert(joined == below + "/"@ + p);
    lemma_split_across(below, p);
    lemma_split_has_a_piece(below, '/');
    let own = split_on(below, '/');
    let more = split_on(p, '/');
    Seq::filter_distributes_over_add(own, more, keep);
    if base.last() == '/' {
        let empty = seq![Seq::<char>::empty()];
        assert(split_on(base, '/') == own + empty);
        Seq::filter_distributes_over_add(own, empty, keep);
        assert(empty.filter(keep) == Seq::<Seq<char>>::empty()) by {
            reveal(Seq::filter);
            assert(empty.drop_last().filter(keep) == Seq::<Seq<char>>::empty());
        }
        assert(own.filter(keep) + Seq::<Seq<char>>::empty() == own.filter(keep));
        assert(split_on(base, '/')[0] == own[0]);
    }
    assert((own + more)[0] == own[0]);
    assert(components(joined) == components(base) + more.filter(keep));
}

fn component_list(p: &str) -> (v: Vec<String>)
    ensures
        texts(v@) == components(p@),
{
    let pieces = split(p, '/');
    let ghost all = texts(pieces@);
    let ghost keep = |c: Seq<char>| names_something(c);
    proof {
        lemma_split_has_a_piece(p@, '/');
    }
    let mut v: Vec<String> = Vec::new();
    let leading = same_text(pieces[0].as_str(), ".");
    let ghost head = if leading {
        seq!["."@]
    } else {
        Seq::<Seq<char>>::empty()
    };
    if leading {
        v.push(".".to_owned());
    }
    assert(texts(v@) == head);
    assert(all.take(0).filter(keep) == Seq::<Seq<char>>::empty()) by {
        reveal(Seq::filter);
    }
    let mut i: usize = 0;
    while i < pieces.len()
        invariant
            i <= pieces@.len(),
            all == texts(pieces@),
            keep == (|c: Seq<char>| names_something(c)),
            texts(v@) == head + all.take(i as int).filter(keep),
        decreases pieces@.len() - i,
    {
        proof {
            reveal(Seq::filter);
            assert(all.take(i + 1).drop_last() == all.take(i as int));
            assert(all.take(i + 1).last() == pieces@[i as int]@);
        }
        let named = !pieces[i].as_str().is_empty() && !same_text(pieces[i].as_str(), ".");
        assert(named == names_something(pieces@[i as int]@));
        if named {
            let ghost old_v = v@;
            v.push(pieces[i].clone());
            assert(texts(v@) == texts(old_v).push(pieces@[i as int]@));
        }
        i = i + 1;
    }
    assert(all.take(pieces@.len() as int) == all);
    assert(Seq::<Seq<char>>::empty() + all.filter(keep) == all.filter(keep));
    v
}

/// Whether a path starts at the root.
pub fn is_rooted(p: &str) -> (r: bool)
    ensures
        r == rooted(p@),
{
    let x = crate::text::chars_of(p);
    x.len() > 0 && x[0] == '/'
}

/// Whether two paths are the same path, however they are spelled.
pub fn same_path(a: &str, b: &str) -> (r: bool)
    ensures
        r == same_place(a@, b@),
{
    let x = component_list(a);
    let y = component_list(b);
    if is_rooted(a) != is_rooted(b) {
        return false;
    }
    if x.len() != y.len() {
        assert(texts(x@).len() != texts(y@).len());
        return false;
    }
    let mut i: usize = 0;
    while i < x.len()
        invariant
            i <= x@.len(),
            x@.len() == y@.len(),
            texts(x@) == components(a@),
            texts(y@) == components(b@),
            forall|k: int| 0 <= k < i ==> texts(x@)[k] == texts(y@)[k],
        decreases x@.len() - i,
    {
        if !same_text(x[i].as_str(), y[i].as_str()) {
            assert(texts(x@)[i as int] != texts(y@)[i as int]);
            return false;
        }
        i = i + 1;
    }
    assert(texts(x@) == texts(y@));
    true
}

/// The path reached by going on from one path along another.
pub fn join_path(base: &str, p: &str) -> (r: String)
    ensures
        r@ == joined_path(base@, p@),
{
    if is_rooted(p) {
        return p.to_owned();
    }
    let b = crate::text::chars_of(base);
    let mut r = base.to_owned();
    if b.len() > 0 && b[b.len() - 1] != '/' {
        r.append("/");
    }
    r.append(p);
    r
}

} // verus!
