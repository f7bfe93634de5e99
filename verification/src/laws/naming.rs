//! What can be told from the names of directories and from the spelling of paths.

use crate::laws::texts::{a_number_reads_back, counts, number_in};
use crate::paths::{components, names_something};
use crate::scratch::{
    four_digits, from_here, hex_digit, hex_digits, plain, root_name,
};
use crate::text::{digits, split_on};
use vstd::prelude::*;

verus! {

/// Letters, digits, dashes and underscores of a tag are kept, and everything else becomes a
/// dash, one for one. What is plain already stays as it is.
pub proof fn a_plain_tag_is_kept(tag: Seq<char>, i: int)
    ensures
        plain(tag).len() == tag.len(),
        plain(plain(tag)) == plain(tag),
        0 <= i < tag.len() ==> {
            let c = tag[i];
            let kept = ('a' <= c && c <= 'z') || ('A' <= c && c <= 'Z') || ('0' <= c && c <= '9')
                || c == '_' || c == '-';
            plain(tag)[i] == if kept {
                c
            } else {
                '-'
            }
        },
{
    assert(plain(plain(tag)) == plain(tag));
}

/// What a hexadecimal digit in lower case counts.
pub open spec fn low_hex_counts(c: char) -> nat {
    if 'a' <= c <= 'f' {
        (10 + (c as int - 'a' as int)) as nat
    } else {
        counts(c)
    }
}

/// The number that hexadecimal digits stand for.
pub open spec fn hex_number_in(s: Seq<char>) -> nat
    decreases s.len(),
{
    if s.len() == 0 {
        0
    } else {
        hex_number_in(s.drop_last()) * 16 + low_hex_counts(s.last())
    }
}

/// A number reads back from its hexadecimal digits.
pub proof fn a_hexadecimal_number_reads_back(n: nat)
    ensures
        hex_number_in(hex_digits(n)) == n,
    decreases n,
{
    assert('0' as int == 48 && '1' as int == 49 && '2' as int == 50 && '3' as int == 51 && '4'
        as int == 52 && '5' as int == 53 && '6' as int == 54 && '7' as int == 55 && '8' as int == 56
        && '9' as int == 57);
    assert('a' as int == 97 && 'b' as int == 98 && 'c' as int == 99 && 'd' as int == 100 && 'e'
        as int == 101 && 'f' as int == 102);
    let s = hex_digits(n);
    if n < 16 {
        assert(s.drop_last().len() == 0);
        assert(hex_number_in(s.drop_last()) == 0);
        assert(s.last() == hex_digit(n));
        assert(low_hex_counts(hex_digit(n)) == n);
    } else {
        a_hexadecimal_number_reads_back(n / 16);
        assert(s.drop_last() == hex_digits(n / 16));
        assert(s.last() == hex_digit(n % 16));
        assert(low_hex_counts(hex_digit(n % 16)) == n % 16);
    }
}

/// A process's directory tells its id and its start time apart from any other's.
pub proof fn two_processes_have_two_directories(pid: nat, stamp: nat, other: nat, later: nat)
    requires
        root_name(pid, stamp) == root_name(other, later),
    ensures
        pid == other,
        stamp % 0x1_0000_0000 == later % 0x1_0000_0000,
{
    reveal_strlit("-");
    let head = "rvt-test-"@;
    let dash = "-"@;
    let a = digits(pid);
    let b = digits(other);
    let x = hex_digits(stamp % 0x1_0000_0000);
    let y = hex_digits(later % 0x1_0000_0000);
    let p = root_name(pid, stamp);
    let q = root_name(other, later);
    let n = head.len() as int;
    a_number_reads_back(pid);
    a_number_reads_back(other);
    assert('-' as int == 45 && '0' as int == 48);
    assert(p[n + a.len()] == '-');
    assert(q[n + b.len()] == '-');
    if a.len() < b.len() {
        assert(q[n + a.len()] == b[a.len() as int]);
    } else if b.len() < a.len() {
        assert(p[n + b.len()] == a[b.len() as int]);
    }
    assert(a.len() == b.len());
    assert(p.subrange(n, n + a.len()) == a);
    assert(q.subrange(n, n + b.len()) == b);
    assert(p.skip(n + a.len() + 1) == x);
    assert(q.skip(n + b.len() + 1) == y);
    a_hexadecimal_number_reads_back(stamp % 0x1_0000_0000);
    a_hexadecimal_number_reads_back(later % 0x1_0000_0000);
}

/// A number is written with four digits at least, and with no more than it needs beyond that.
/// It reads back.
pub proof fn a_number_takes_four_digits(n: nat)
    ensures
        number_in(four_digits(n)) == n,
        four_digits(n).len() == if digits(n).len() > 4 {
            digits(n).len()
        } else {
            4
        },
{
    a_number_reads_back(n);
    let d = digits(n);
    if d.len() < 4 {
        lemma_zeros((4 - d.len()) as nat, d);
    }
}

proof fn lemma_zeros(k: nat, s: Seq<char>)
    ensures
        number_in(Seq::new(k, |i: int| '0') + s) == number_in(s),
    decreases s.len() + k,
{
    let z = Seq::new(k, |i: int| '0');
    let all = z + s;
    assert('0' as int == 48);
    if s.len() > 0 {
        lemma_zeros(k, s.drop_last());
        assert(all.drop_last() == z + s.drop_last());
        assert(all.last() == s.last());
    } else if k > 0 {
        let less = (k - 1) as nat;
        lemma_zeros(less, s);
        let y = Seq::new(less, |i: int| '0');
        assert(all.drop_last() == y + s);
        assert(all.last() == '0');
        assert(counts('0') == 0);
        assert(number_in(s) == 0);
    } else {
        assert(all == s);
    }
}

/// What is taken off a name to start it here is separators alone, and all of them.
pub proof fn only_leading_separators_are_taken_off(p: Seq<char>)
    ensures
        from_here(p).len() <= p.len(),
        from_here(p) == p.skip(p.len() - from_here(p).len()),
        forall|i: int| 0 <= i < p.len() - from_here(p).len() ==> #[trigger] p[i] == '/',
        from_here(p).len() > 0 ==> from_here(p)[0] != '/',
    decreases p.len(),
{
    if p.len() > 0 && p[0] == '/' {
        let rest = p.drop_first();
        only_leading_separators_are_taken_off(rest);
        let k = rest.len() - from_here(rest).len();
        assert(rest.skip(k) == p.skip(k + 1));
        assert forall|i: int| 0 <= i < k + 1 implies #[trigger] p[i] == '/' by {
            if i > 0 {
                assert(rest[i - 1] == p[i]);
            }
        }
    } else {
        assert(p.skip(0) == p);
    }
}

/// A name without separators is one component, however short, unless it is the dot that stands
/// for where one is.
pub proof fn a_name_is_one_component(s: Seq<char>)
    requires
        s.len() > 0,
        !s.contains('/'),
        s != "."@,
    ensures
        components(s) == seq![s],
{
    assert forall|i: int| 0 <= i < s.len() implies s[i] != '/' by {
        assert(s.contains(s[i]));
    }
    lemma_whole(s, s.len() as int);
    assert(s.take(s.len() as int) == s);
    let pieces = split_on(s, '/');
    let f = |c: Seq<char>| names_something(c);
    assert(pieces == seq![s]);
    assert(pieces.filter(f) == seq![s]) by {
        reveal_with_fuel(Seq::filter, 2);
        assert(pieces.drop_last() == Seq::<Seq<char>>::empty());
        assert(f(pieces.last()));
    }
}

/// A text without separators is one piece.
pub proof fn lemma_whole(s: Seq<char>, n: int)
    requires
        0 <= n <= s.len(),
        forall|i: int| 0 <= i < s.len() ==> s[i] != '/',
    ensures
        split_on(s.take(n), '/') == seq![s.take(n)],
    decreases n,
{
    if n > 0 {
        lemma_whole(s, n - 1);
        let before = split_on(s.take(n - 1), '/');
        assert(s.take(n).drop_last() == s.take(n - 1));
        assert(s.take(n - 1).push(s[n - 1]) == s.take(n));
        assert(before.drop_last().push(s.take(n)) == seq![s.take(n)]);
        assert(before.last() == s.take(n - 1));
    } else {
        assert(s.take(0) == Seq::<char>::empty());
    }
}

} // verus!
