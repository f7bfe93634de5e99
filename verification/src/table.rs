//! Rows under names, in the order of the names.

use crate::text::{same_text, sorts_before, text_before};
use vstd::prelude::*;

verus! {

/// What is under a name.
pub open spec fn row_at<V>(s: Seq<(Seq<char>, V)>, name: Seq<char>) -> Option<V>
    decreases s.len(),
{
    if s.len() == 0 {
        None
    } else if s[0].0 == name {
        Some(s[0].1)
    } else {
        row_at(s.drop_first(), name)
    }
}

/// The rows with one put under a name, in place of what was there if anything was.
pub open spec fn with_row<V>(s: Seq<(Seq<char>, V)>, name: Seq<char>, v: V) -> Seq<(Seq<char>, V)>
    decreases s.len(),
{
    if s.len() == 0 || sorts_before(name, s[0].0) {
        seq![(name, v)] + s
    } else if s[0].0 == name {
        seq![(name, v)] + s.drop_first()
    } else {
        seq![s[0]] + with_row(s.drop_first(), name, v)
    }
}

/// The rows without the one under a name.
pub open spec fn without_row<V>(s: Seq<(Seq<char>, V)>, name: Seq<char>) -> Seq<(Seq<char>, V)>
    decreases s.len(),
{
    if s.len() == 0 {
        s
    } else if s[0].0 == name {
        s.drop_first()
    } else {
        seq![s[0]] + without_row(s.drop_first(), name)
    }
}

/// Whether the names strictly ascend, so that no name has two rows.
pub open spec fn in_order<V>(s: Seq<(Seq<char>, V)>) -> bool {
    forall|i: int, j: int| 0 <= i < j < s.len() ==> sorts_before(#[trigger] s[i].0, #[trigger] s[j].0)
}

/// The order of texts is strict: nothing comes before itself, it is transitive, and of two
/// different texts one comes before the other.
pub proof fn the_order_of_texts_is_strict(a: Seq<char>, b: Seq<char>, c: Seq<char>)
    ensures
        !sorts_before(a, a),
        sorts_before(a, b) && sorts_before(b, c) ==> sorts_before(a, c),
        a != b ==> sorts_before(a, b) || sorts_before(b, a),
        !(sorts_before(a, b) && sorts_before(b, a)),
    decreases a.len(),
{
    if a.len() > 0 {
        let (x, y, z) = (a.drop_first(), b.drop_first(), c.drop_first());
        the_order_of_texts_is_strict(x, y, z);
        if b.len() > 0 && a[0] == b[0] && a != b {
            if x == y {
                assert(a == seq![a[0]] + x);
                assert(b == seq![b[0]] + y);
            }
        }
    } else if b.len() == 0 {
        assert(a == b);
    }
}

/// Rows in order stay in order when one is put among them or taken out, and what is under
/// every name is what was put there last.
pub proof fn a_table_keeps_its_order_and_its_rows<V>(
    s: Seq<(Seq<char>, V)>,
    name: Seq<char>,
    v: V,
    other: Seq<char>,
)
    requires
        in_order(s),
    ensures
        in_order(with_row(s, name, v)),
        in_order(without_row(s, name)),
        row_at(with_row(s, name, v), other) == if other == name {
            Some(v)
        } else {
            row_at(s, other)
        },
        row_at(without_row(s, name), other) == if other == name {
            None
        } else {
            row_at(s, other)
        },
{
    lemma_with_row_ordered(s, name, v);
    lemma_without_row_ordered(s, name);
    lemma_with_row_at(s, name, v, other);
    lemma_without_row_at(s, name, other);
}

proof fn lemma_tail_in_order<V>(s: Seq<(Seq<char>, V)>)
    requires
        in_order(s),
        s.len() > 0,
    ensures
        in_order(s.drop_first()),
        forall|i: int| 0 <= i < s.drop_first().len() ==> sorts_before(
            s[0].0,
            #[trigger] s.drop_first()[i].0,
        ),
{
    let t = s.drop_first();
    assert forall|i: int, j: int| 0 <= i < j < t.len() implies sorts_before(
        #[trigger] t[i].0,
        #[trigger] t[j].0,
    ) by {
        assert(t[i] == s[i + 1] && t[j] == s[j + 1]);
    }
    assert forall|i: int| 0 <= i < t.len() implies sorts_before(s[0].0, #[trigger] t[i].0) by {
        assert(t[i] == s[i + 1]);
    }
}

proof fn lemma_prepend<V>(head: (Seq<char>, V), t: Seq<(Seq<char>, V)>)
    requires
        in_order(t),
        forall|i: int| 0 <= i < t.len() ==> sorts_before(head.0, #[trigger] t[i].0),
    ensures
        in_order(seq![head] + t),
{
    let s = seq![head] + t;
    assert forall|i: int, j: int| 0 <= i < j < s.len() implies sorts_before(
        #[trigger] s[i].0,
        #[trigger] s[j].0,
    ) by {
        assert(s[j] == t[j - 1]);
        if i > 0 {
            assert(s[i] == t[i - 1]);
        }
    }
}

proof fn lemma_with_row_ordered<V>(s: Seq<(Seq<char>, V)>, name: Seq<char>, v: V)
    requires
        in_order(s),
    ensures
        in_order(with_row(s, name, v)),
        forall|i: int|
            0 <= i < with_row(s, name, v).len() ==> {
                let n = (#[trigger] with_row(s, name, v)[i]).0;
                n == name || exists|k: int| 0 <= k < s.len() && #[trigger] s[k].0 == n
            },
    decreases s.len(),
{
    let all = with_row(s, name, v);
    if s.len() == 0 {
        assert(all == seq![(name, v)]);
    } else if sorts_before(name, s[0].0) {
        assert forall|i: int| 0 <= i < s.len() implies sorts_before(name, #[trigger] s[i].0) by {
            if i > 0 {
                the_order_of_texts_is_strict(name, s[0].0, s[i].0);
            }
        }
        lemma_prepend((name, v), s);
        assert forall|i: int| 0 <= i < all.len() implies ({
            let n = (#[trigger] all[i]).0;
            n == name || exists|k: int| 0 <= k < s.len() && #[trigger] s[k].0 == n
        }) by {
            if i > 0 {
                assert(all[i] == s[i - 1]);
            }
        }
    } else if s[0].0 == name {
        lemma_tail_in_order(s);
        lemma_prepend((name, v), s.drop_first());
        assert forall|i: int| 0 <= i < all.len() implies ({
            let n = (#[trigger] all[i]).0;
            n == name || exists|k: int| 0 <= k < s.len() && #[trigger] s[k].0 == n
        }) by {
            if i > 0 {
                assert(all[i] == s[i]);
            }
        }
    } else {
        let t = s.drop_first();
        lemma_tail_in_order(s);
        lemma_with_row_ordered(t, name, v);
        let rest = with_row(t, name, v);
        assert forall|i: int| 0 <= i < rest.len() implies sorts_before(
            s[0].0,
            #[trigger] rest[i].0,
        ) by {
            let n = rest[i].0;
            if n == name {
                the_order_of_texts_is_strict(s[0].0, name, name);
            } else {
                let k = choose|k: int| 0 <= k < t.len() && #[trigger] t[k].0 == n;
                assert(sorts_before(s[0].0, t[k].0));
            }
        }
        lemma_prepend(s[0], rest);
        assert forall|i: int| 0 <= i < all.len() implies ({
            let n = (#[trigger] all[i]).0;
            n == name || exists|k: int| 0 <= k < s.len() && #[trigger] s[k].0 == n
        }) by {
            if i > 0 {
                assert(all[i] == rest[i - 1]);
                if rest[i - 1].0 != name {
                    let k = choose|k: int| 0 <= k < t.len() && #[trigger] t[k].0 == all[i].0;
                    assert(s[k + 1] == t[k]);
                }
            } else {
                assert(all[i] == s[0]);
            }
        }
    }
}

proof fn lemma_without_row_ordered<V>(s: Seq<(Seq<char>, V)>, name: Seq<char>)
    requires
        in_order(s),
    ensures
        in_order(without_row(s, name)),
        forall|i: int|
            0 <= i < without_row(s, name).len() ==> exists|k: int|
                0 <= k < s.len() && #[trigger] s[k] == #[trigger] without_row(s, name)[i],
    decreases s.len(),
{
    let all = without_row(s, name);
    if s.len() > 0 {
        let t = s.drop_first();
        lemma_tail_in_order(s);
        if s[0].0 == name {
            assert forall|i: int| 0 <= i < all.len() implies exists|k: int|
                0 <= k < s.len() && #[trigger] s[k] == #[trigger] all[i] by {
                assert(s[i + 1] == all[i]);
            }
        } else {
            lemma_without_row_ordered(t, name);
            let rest = without_row(t, name);
            assert forall|i: int| 0 <= i < rest.len() implies sorts_before(
                s[0].0,
                #[trigger] rest[i].0,
            ) by {
                let k = choose|k: int| 0 <= k < t.len() && #[trigger] t[k] == rest[i];
                assert(sorts_before(s[0].0, t[k].0));
            }
            lemma_prepend(s[0], rest);
            assert forall|i: int| 0 <= i < all.len() implies exists|k: int|
                0 <= k < s.len() && #[trigger] s[k] == #[trigger] all[i] by {
                if i > 0 {
                    assert(all[i] == rest[i - 1]);
                    let k = choose|k: int| 0 <= k < t.len() && #[trigger] t[k] == rest[i - 1];
                    assert(s[k + 1] == all[i]);
                } else {
                    assert(s[0] == all[0]);
                }
            }
        }
    }
}

proof fn lemma_with_row_at<V>(s: Seq<(Seq<char>, V)>, name: Seq<char>, v: V, other: Seq<char>)
    ensures
        row_at(with_row(s, name, v), other) == if other == name {
            Some(v)
        } else {
            row_at(s, other)
        },
    decreases s.len(),
{
    let all = with_row(s, name, v);
    if s.len() == 0 || sorts_before(name, s[0].0) {
        assert(all[0] == (name, v));
        assert(all.drop_first() == s);
    } else if s[0].0 == name {
        assert(all[0] == (name, v));
        assert(all.drop_first() == s.drop_first());
    } else {
        lemma_with_row_at(s.drop_first(), name, v, other);
        assert(all[0] == s[0]);
        assert(all.drop_first() == with_row(s.drop_first(), name, v));
    }
}

proof fn lemma_absent<V>(s: Seq<(Seq<char>, V)>, name: Seq<char>)
    requires
        forall|i: int| 0 <= i < s.len() ==> #[trigger] s[i].0 != name,
    ensures
        row_at(s, name) is None,
    decreases s.len(),
{
    if s.len() > 0 {
        let t = s.drop_first();
        assert forall|i: int| 0 <= i < t.len() implies #[trigger] t[i].0 != name by {
            assert(t[i] == s[i + 1]);
        }
        lemma_absent(t, name);
    }
}

proof fn lemma_without_row_at<V>(s: Seq<(Seq<char>, V)>, name: Seq<char>, other: Seq<char>)
    requires
        in_order(s),
    ensures
        row_at(without_row(s, name), other) == if other == name {
            None
        } else {
            row_at(s, other)
        },
    decreases s.len(),
{
    let all = without_row(s, name);
    if s.len() > 0 {
        let t = s.drop_first();
        lemma_tail_in_order(s);
        if s[0].0 == name {
            assert forall|i: int| 0 <= i < t.len() implies #[trigger] t[i].0 != name by {
                the_order_of_texts_is_strict(name, t[i].0, name);
            }
            lemma_absent(t, name);
        } else {
            lemma_without_row_at(t, name, other);
            assert(all[0] == s[0]);
            assert(all.drop_first() == without_row(t, name));
        }
    }
}

/// Two tables with the same rows under every name are the same table.
pub proof fn the_rows_make_the_table<V>(s: Seq<(Seq<char>, V)>, t: Seq<(Seq<char>, V)>)
    requires
        in_order(s),
        in_order(t),
        forall|n: Seq<char>| #[trigger] row_at(s, n) == row_at(t, n),
    ensures
        s == t,
    decreases s.len(),
{
    if s.len() == 0 {
        if t.len() > 0 {
            assert(row_at(t, t[0].0) is Some);
            assert(row_at(s, t[0].0) is None);
        }
        assert(s == t);
    } else {
        assert(row_at(s, s[0].0) == Some(s[0].1));
        assert(t.len() > 0) by {
            assert(row_at(t, s[0].0) is Some);
        }
        assert(row_at(t, t[0].0) == Some(t[0].1));
        lemma_tail_in_order(s);
        lemma_tail_in_order(t);
        if s[0].0 != t[0].0 {
            the_order_of_texts_is_strict(s[0].0, t[0].0, s[0].0);
            if sorts_before(s[0].0, t[0].0) {
                lemma_before_all(t, s[0].0);
            } else {
                lemma_before_all(s, t[0].0);
            }
        }
        assert(s[0] == t[0]);
        let (x, y) = (s.drop_first(), t.drop_first());
        assert forall|n: Seq<char>| #[trigger] row_at(x, n) == row_at(y, n) by {
            if n == s[0].0 {
                assert forall|i: int| 0 <= i < x.len() implies #[trigger] x[i].0 != n by {
                    the_order_of_texts_is_strict(n, x[i].0, n);
                }
                assert forall|i: int| 0 <= i < y.len() implies #[trigger] y[i].0 != n by {
                    the_order_of_texts_is_strict(n, y[i].0, n);
                }
                lemma_absent(x, n);
                lemma_absent(y, n);
            } else {
                assert(row_at(s, n) == row_at(t, n));
            }
        }
        the_rows_make_the_table(x, y);
        assert(s == seq![s[0]] + x);
        assert(t == seq![t[0]] + y);
    }
}

proof fn lemma_before_all<V>(s: Seq<(Seq<char>, V)>, name: Seq<char>)
    requires
        in_order(s),
        s.len() > 0,
        sorts_before(name, s[0].0),
    ensures
        row_at(s, name) is None,
{
    assert forall|i: int| 0 <= i < s.len() implies #[trigger] s[i].0 != name by {
        the_order_of_texts_is_strict(name, s[0].0, s[i].0);
        the_order_of_texts_is_strict(name, s[i].0, name);
    }
    lemma_absent(s, name);
}

/// A name with a row is the name of one of the rows.
pub proof fn a_row_stands_somewhere<V>(s: Seq<(Seq<char>, V)>, name: Seq<char>)
    ensures
        row_at(s, name) is Some <==> exists|i: int| 0 <= i < s.len() && #[trigger] s[i].0 == name,
    decreases s.len(),
{
    if s.len() > 0 {
        let t = s.drop_first();
        a_row_stands_somewhere(t, name);
        if exists|i: int| 0 <= i < t.len() && #[trigger] t[i].0 == name {
            let i = choose|i: int| 0 <= i < t.len() && #[trigger] t[i].0 == name;
            assert(s[i + 1].0 == name);
        }
        if exists|i: int| 0 <= i < s.len() && #[trigger] s[i].0 == name {
            let i = choose|i: int| 0 <= i < s.len() && #[trigger] s[i].0 == name;
            if i > 0 {
                assert(t[i - 1].0 == name);
            }
        }
    }
}

/// One row by its view.
pub open spec fn row_view<T: View>(row: (String, T)) -> (Seq<char>, T::V) {
    (row.0@, row.1@)
}

/// Rows by their views.
pub open spec fn row_views<T: View>(rows: Seq<(String, T)>) -> Seq<(Seq<char>, T::V)> {
    rows.map_values(|r: (String, T)| row_view(r))
}

/// Rows under names, in the order of the names.
pub struct Table<T: View> {
    rows: Vec<(String, T)>,
}

impl<T: View> View for Table<T> {
    type V = Seq<(Seq<char>, T::V)>;

    closed spec fn view(&self) -> Seq<(Seq<char>, T::V)> {
        row_views(self.rows@)
    }
}

impl<T: View> Table<T> {
    /// The names strictly ascend, always.
    #[verifier::type_invariant]
    pub open spec fn ordered(self) -> bool {
        in_order(self@)
    }

    /// A table without rows.
    pub fn new() -> (r: Table<T>)
        ensures
            r@ == Seq::<(Seq<char>, T::V)>::empty(),
    {
        let rows: Vec<(String, T)> = Vec::new();
        assert(row_views(rows@) == Seq::<(Seq<char>, T::V)>::empty());
        Table { rows }
    }

    /// The rows.
    pub fn rows(&self) -> (r: &Vec<(String, T)>)
        ensures
            row_views(r@) == self@,
            in_order(self@),
    {
        proof {
            use_type_invariant(self);
        }
        &self.rows
    }

    /// How many rows there are.
    pub fn len(&self) -> (r: usize)
        ensures
            r == self@.len(),
    {
        self.rows.len()
    }

    /// What is under a name.
    pub fn get(&self, name: &str) -> (r: Option<&T>)
        ensures
            match r {
                Some(v) => row_at(self@, name@) == Some(v@),
                None => row_at(self@, name@) is None,
            },
    {
        let ghost all = self@;
        let mut i: usize = 0;
        assert(all.skip(0) == all);
        while i < self.rows.len()
            invariant
                i <= self.rows@.len(),
                all == row_views(self.rows@),
                row_at(all, name@) == row_at(all.skip(i as int), name@),
            decreases self.rows@.len() - i,
        {
            assert(all.skip(i as int)[0] == row_view(self.rows@[i as int]));
            assert(all.skip(i as int).drop_first() == all.skip(i + 1));
            if same_text(self.rows[i].0.as_str(), name) {
                return Some(&self.rows[i].1);
            }
            i = i + 1;
        }
        None
    }

    /// Put a row under a name, in place of what was there if anything was.
    pub fn insert(&mut self, name: String, v: T)
        ensures
            final(self)@ == with_row(old(self)@, name@, v@),
    {
        proof {
            use_type_invariant(&*self);
        }
        let ghost all = self@;
        let mut rows: Vec<(String, T)> = Vec::new();
        core::mem::swap(&mut rows, &mut self.rows);
        let mut i: usize = 0;
        let mut here = false;
        assert(all.skip(0) == all);
        assert(all.take(0) + with_row(all.skip(0), name@, v@) == with_row(all, name@, v@));
        while i < rows.len()
            invariant_except_break
                !here,
            invariant
                i <= rows@.len(),
                all == row_views(rows@),
                all.take(i as int) + with_row(all.skip(i as int), name@, v@) == with_row(
                    all,
                    name@,
                    v@,
                ),
            ensures
                i <= rows@.len(),
                all == row_views(rows@),
                all.take(i as int) + with_row(all.skip(i as int), name@, v@) == with_row(
                    all,
                    name@,
                    v@,
                ),
                here ==> i < rows@.len() && all[i as int].0 == name@ && !sorts_before(
                    name@,
                    name@,
                ),
                !here ==> i == rows@.len() || sorts_before(name@, all[i as int].0),
            decreases rows@.len() - i,
        {
            let ghost rest = all.skip(i as int);
            assert(rest[0] == all[i as int]);
            assert(all[i as int] == row_view(rows@[i as int]));
            assert(rest.drop_first() == all.skip(i + 1));
            if text_before(name.as_str(), rows[i].0.as_str()) {
                break;
            }
            if same_text(rows[i].0.as_str(), name.as_str()) {
                here = true;
                break;
            }
            assert(all.take(i as int) + (seq![all[i as int]] + with_row(
                all.skip(i + 1),
                name@,
                v@,
            )) == all.take(i + 1) + with_row(all.skip(i + 1), name@, v@));
            i = i + 1;
        }
        let ghost n = name@;
        let ghost val = v@;
        let ghost old_rows = rows@;
        if here {
            rows.remove(i);
            rows.insert(i, (name, v));
            assert(row_views(rows@) == all.take(i as int) + (seq![(n, val)] + all.skip(
                i as int,
            ).drop_first()));
        } else {
            rows.insert(i, (name, v));
            assert(row_views(rows@) == all.take(i as int) + (seq![(n, val)] + all.skip(
                i as int,
            )));
        }
        proof {
            lemma_with_row_ordered(all, n, val);
        }
        self.rows = rows;
    }

    /// Take out what is under a name, and say whether anything was.
    pub fn remove(&mut self, name: &str) -> (r: bool)
        ensures
            final(self)@ == without_row(old(self)@, name@),
            r == (row_at(old(self)@, name@) is Some),
    {
        proof {
            use_type_invariant(&*self);
        }
        let ghost all = self@;
        let mut rows: Vec<(String, T)> = Vec::new();
        core::mem::swap(&mut rows, &mut self.rows);
        let mut i: usize = 0;
        let mut here = false;
        assert(all.skip(0) == all);
        assert(all.take(0) + without_row(all.skip(0), name@) == without_row(all, name@));
        while i < rows.len() && !here
            invariant
                i <= rows@.len(),
                all == row_views(rows@),
                all.take(i as int) + without_row(all.skip(i as int), name@) == without_row(
                    all,
                    name@,
                ),
                row_at(all, name@) == row_at(all.skip(i as int), name@),
                here ==> i < rows@.len() && all[i as int].0 == name@,
            decreases rows@.len() - i + (if here { 0int } else { 1int }),
        {
            let ghost rest = all.skip(i as int);
            assert(rest[0] == all[i as int]);
            assert(all[i as int] == row_view(rows@[i as int]));
            assert(rest.drop_first() == all.skip(i + 1));
            if same_text(rows[i].0.as_str(), name) {
                here = true;
            } else {
                assert(all.take(i as int) + (seq![all[i as int]] + without_row(
                    all.skip(i + 1),
                    name@,
                )) == all.take(i + 1) + without_row(all.skip(i + 1), name@));
                i = i + 1;
            }
        }
        proof {
            assert(i < rows@.len() ==> all.skip(i as int)[0] == all[i as int]);
            lemma_without_row_ordered(all, name@);
        }
        if here {
            rows.remove(i);
            assert(row_views(rows@) == all.take(i as int) + all.skip(i as int).drop_first());
        } else {
            assert(all.take(i as int) + all.skip(i as int) == all);
        }
        self.rows = rows;
        here
    }
}

} // verus!
