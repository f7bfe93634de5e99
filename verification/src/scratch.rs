//! Names for scratch directories that no two users of them share.

use crate::paths::{
    a_joined_path_goes_on_from_its_base, components, join_path, joined_path, names_something, rooted,
};
use crate::text::{
    begins_with, chars_of, decimal, digit, digits, finishes_with, push_char, split_on, text_of,
};
use vstd::prelude::*;
use vstd::string::*;

verus! {

/// Set this to any value to keep scratch directories after a test finishes.
pub const KEEP_ENV: &'static str = "RVT_KEEP_SCRATCH";

/// Whether a character is unambiguous in a path.
pub open spec fn is_plain(c: char) -> bool {
    ||| '0' <= c <= '9'
    ||| 'A' <= c <= 'Z'
    ||| 'a' <= c <= 'z'
    ||| c == '-'
    ||| c == '_'
}

/// A character, or a dash in its place.
pub open spec fn plain_char(c: char) -> char {
    if is_plain(c) {
        c
    } else {
        '-'
    }
}

/// A tag with every character that is not plain replaced.
pub open spec fn plain(tag: Seq<char>) -> Seq<char> {
    tag.map_values(|c: char| plain_char(c))
}

/// Reduce a tag to characters that are unambiguous in a path.
pub fn sanitised(tag: &str) -> (r: String)
    ensures
        r@ == plain(tag@),
{
    let x = chars_of(tag);
    let mut r = String::new();
    let mut i: usize = 0;
    while i < x.len()
        invariant
            i <= x@.len(),
            x@ == tag@,
            r@ == plain(tag@.take(i as int)),
        decreases x@.len() - i,
    {
        let c = x[i];
        let kept = ('0' <= c && c <= '9') || ('A' <= c && c <= 'Z') || ('a' <= c && c <= 'z') || c
            == '-' || c == '_';
        push_char(
            &mut r,
            if kept {
                c
            } else {
                '-'
            },
        );
        assert(plain(tag@.take(i + 1)) == plain(tag@.take(i as int)).push(plain_char(c)));
        i = i + 1;
    }
    assert(tag@.take(x@.len() as int) == tag@);
    r
}

/// The character for one hexadecimal digit.
pub open spec fn hex_digit(n: nat) -> char {
    if n < 10 {
        digit(n)
    } else if n == 10 {
        'a'
    } else if n == 11 {
        'b'
    } else if n == 12 {
        'c'
    } else if n == 13 {
        'd'
    } else if n == 14 {
        'e'
    } else {
        'f'
    }
}

/// The hexadecimal digits of a number, most significant first.
pub open spec fn hex_digits(n: nat) -> Seq<char>
    decreases n,
{
    if n < 16 {
        seq![hex_digit(n)]
    } else {
        hex_digits(n / 16).push(hex_digit(n % 16))
    }
}

fn hexadecimal(n: u64) -> (s: String)
    ensures
        s@ == hex_digits(n as nat),
    decreases n,
{
    let mut s = if n < 16 {
        String::new()
    } else {
        hexadecimal(n / 16)
    };
    let d: u64 = n % 16;
    let ghost before = s@;
    if d < 10 {
        s.append(decimal(d).as_str());
        assert(s@ == before.push(digit(d as nat)));
    } else if d == 10 {
        push_char(&mut s, 'a');
    } else if d == 11 {
        push_char(&mut s, 'b');
    } else if d == 12 {
        push_char(&mut s, 'c');
    } else if d == 13 {
        push_char(&mut s, 'd');
    } else if d == 14 {
        push_char(&mut s, 'e');
    } else {
        push_char(&mut s, 'f');
    }
    assert(seq![hex_digit(d as nat)] == Seq::<char>::empty().push(hex_digit(d as nat)));
    s
}

/// The name of one process's directory: its id, and its start time cut to 32 bits, because
/// ids are reused and paths have to leave room for a socket.
pub open spec fn root_name(pid: nat, stamp: nat) -> Seq<char> {
    "rvt-test-"@ + digits(pid) + "-"@ + hex_digits(stamp % 0x1_0000_0000)
}

/// One process's directory, directly in the temporary directory: no level may be shared
/// between users.
pub fn root(temp_dir: &str, pid: u32, stamp: u64) -> (r: String)
    ensures
        r@ == joined_path(temp_dir@, root_name(pid as nat, stamp as nat)),
{
    let mut name = "rvt-test-".to_owned();
    name.append(decimal(pid as u64).as_str());
    name.append("-");
    name.append(hexadecimal(stamp % 0x1_0000_0000).as_str());
    join_path(temp_dir, name.as_str())
}

/// A number with zeros before it, up to four digits.
pub open spec fn four_digits(n: nat) -> Seq<char> {
    let d = digits(n);
    if d.len() < 4 {
        Seq::new((4 - d.len()) as nat, |i: int| '0') + d
    } else {
        d
    }
}

/// The name of a scratch directory.
pub open spec fn scratch_name(n: nat, tag: Seq<char>) -> Seq<char> {
    four_digits(n) + "-"@ + plain(tag)
}

/// Where one process keeps its scratch directories, and how many it has named.
pub struct Scratches {
    pub root: String,
    pub named: u64,
}

/// A directory of its own.
#[derive(Debug)]
pub struct Scratch {
    path: String,
}

impl View for Scratch {
    type V = Seq<char>;

    closed spec fn view(&self) -> Seq<char> {
        self.path@
    }
}

impl Scratch {
    /// Name a directory. The tag appears in the path, so that a leftover says who made it.
    pub fn new(among: &mut Scratches, tag: &str) -> (r: Scratch)
        requires
            old(among).named < u64::MAX,
        ensures
            r@ == joined_path(old(among).root@, scratch_name(old(among).named as nat, tag@)),
            final(among).root == old(among).root,
            final(among).named == old(among).named + 1,
    {
        let d = decimal(among.named);
        let len: usize = chars_of(d.as_str()).len();
        let mut name = String::new();
        let mut i: usize = len;
        while i < 4
            invariant
                len <= i,
                i <= 4 || i == len,
                name@ == Seq::new((i - len) as nat, |k: int| '0'),
            decreases 4 - i,
        {
            push_char(&mut name, '0');
            assert(name@ == Seq::new((i + 1 - len) as nat, |k: int| '0'));
            i = i + 1;
        }
        name.append(d.as_str());
        assert(name@ == four_digits(among.named as nat));
        name.append("-");
        name.append(sanitised(tag).as_str());
        let path = join_path(among.root.as_str(), name.as_str());
        among.named = among.named + 1;
        Scratch { path }
    }

    /// The directory itself.
    pub fn path(&self) -> (r: &str)
        ensures
            r@ == self@,
    {
        self.path.as_str()
    }

    /// A path inside the directory, also for a name that starts at the root: that is taken
    /// from the directory on. Nothing is created.
    pub fn join(&self, name: &str) -> (r: String)
        ensures
            r@ == joined_path(self@, from_here(name@)),
            !rooted(name@) ==> r@ == joined_path(self@, name@),
            begins_with(r@, self@),
    {
        let x = chars_of(name);
        let mut i: usize = 0;
        assert(name@.skip(0) == name@);
        while i < x.len() && x[i] == '/'
            invariant
                i <= x@.len(),
                x@ == name@,
                from_here(name@) == from_here(name@.skip(i as int)),
            decreases x@.len() - i,
        {
            assert(name@.skip(i as int)[0] == '/');
            assert(name@.skip(i as int).drop_first() == name@.skip(i + 1));
            i = i + 1;
        }
        let rest = text_of(&x, i, x.len());
        assert(rest@ == name@.skip(i as int));
        proof {
            a_joined_path_stays_inside(self@, name@);
        }
        join_path(self.path.as_str(), rest.as_str())
    }
}

/// A path without the separators it begins with.
pub open spec fn from_here(p: Seq<char>) -> Seq<char>
    decreases p.len(),
{
    if rooted(p) {
        from_here(p.drop_first())
    } else {
        p
    }
}

proof fn lemma_from_here_is_relative(p: Seq<char>)
    ensures
        !rooted(from_here(p)),
    decreases p.len(),
{
    if rooted(p) {
        lemma_from_here_is_relative(p.drop_first());
    }
}

/// A path joined to a directory begins with that directory, whatever the name; and the
/// directory's components come first among its own.
pub proof fn a_joined_path_stays_inside(dir: Seq<char>, name: Seq<char>)
    ensures
        begins_with(joined_path(dir, from_here(name)), dir),
        dir.len() > 0 ==> {
            let r = joined_path(dir, from_here(name));
            &&& rooted(r) == rooted(dir)
            &&& components(dir).is_prefix_of(components(r))
        },
{
    lemma_from_here_is_relative(name);
    if dir.len() > 0 {
        a_joined_path_goes_on_from_its_base(dir, from_here(name));
    } else {
        assert(joined_path(dir, from_here(name)).subrange(0, 0) == dir);
    }
}

proof fn lemma_one_piece(s: Seq<char>)
    requires
        !s.contains('/'),
    ensures
        split_on(s, '/') == seq![s],
    decreases s.len(),
{
    if s.len() > 0 {
        let rest = s.drop_last();
        assert forall|i: int| 0 <= i < rest.len() implies rest[i] != '/' by {
            assert(rest[i] == s[i]);
        }
        lemma_one_piece(rest);
        assert(s.last() == s[s.len() - 1]);
        assert(rest.push(s.last()) == s);
        assert(split_on(s, '/') == seq![s]);
    } else {
        assert(s == Seq::<char>::empty());
    }
}

/// A name without a separator is one component below the path it is joined to.
proof fn lemma_one_below(dir: Seq<char>, name: Seq<char>)
    requires
        dir.len() > 0,
        !name.contains('/'),
        name.len() > 1,
    ensures
        components(joined_path(dir, name)) == components(dir).push(name),
{
    reveal_strlit(".");
    assert(!rooted(name)) by {
        assert(name[0] != '/');
    }
    lemma_one_piece(name);
    a_joined_path_goes_on_from_its_base(dir, name);
    let keep = |c: Seq<char>| names_something(c);
    assert(seq![name].filter(keep) == seq![name]) by {
        reveal(Seq::filter);
        assert(seq![name].drop_last() == Seq::<Seq<char>>::empty());
        assert(seq![name].last() == name);
        assert(Seq::<Seq<char>>::empty().filter(keep) == Seq::<Seq<char>>::empty());
    }
    assert(components(dir) + seq![name] == components(dir).push(name));
}

proof fn lemma_hex_digits(n: nat)
    ensures
        !hex_digits(n).contains('/'),
        hex_digits(n).len() > 0,
    decreases n,
{
    assert('0' as int == 48 && '/' as int == 47);
    if n >= 16 {
        lemma_hex_digits(n / 16);
    }
    let s = hex_digits(n);
    assert forall|i: int| 0 <= i < s.len() implies s[i] != '/' by {
        if n >= 16 && i < s.len() - 1 {
            assert(s[i] == hex_digits(n / 16)[i]);
        }
    }
}

/// The directory of a process lies directly in the temporary directory.
pub proof fn the_root_lies_directly_in_the_temporary_directory(
    temp_dir: Seq<char>,
    pid: nat,
    stamp: nat,
)
    requires
        temp_dir.len() > 0,
    ensures
        components(joined_path(temp_dir, root_name(pid, stamp))) == components(temp_dir).push(
            root_name(pid, stamp),
        ),
{
    reveal_strlit("rvt-test-");
    reveal_strlit("-");
    lemma_digits_value(pid);
    lemma_hex_digits(stamp % 0x1_0000_0000);
    assert('0' as int == 48 && '/' as int == 47);
    let d = digits(pid);
    let h = hex_digits(stamp % 0x1_0000_0000);
    let s = root_name(pid, stamp);
    assert forall|i: int| 0 <= i < s.len() implies s[i] != '/' by {
        let start = "rvt-test-"@.len() as int;
        if i < start {
            assert(s[i] == "rvt-test-"@[i]);
        } else if i < start + d.len() {
            assert(s[i] == d[i - start]);
        } else if i > start + d.len() {
            assert(s[i] == h[i - start - d.len() - 1]);
        }
    }
    lemma_one_below(temp_dir, s);
}

/// The number that decimal digits stand for.
spec fn value(s: Seq<char>) -> int
    decreases s.len(),
{
    if s.len() == 0 {
        0
    } else {
        value(s.drop_last()) * 10 + (s.last() as int - '0' as int)
    }
}

proof fn lemma_digits_value(n: nat)
    ensures
        value(digits(n)) == n,
        digits(n).len() > 0,
        forall|i: int| 0 <= i < digits(n).len() ==> '0' <= #[trigger] digits(n)[i] <= '9',
    decreases n,
{
    assert('0' as int == 48 && '1' as int == 49 && '2' as int == 50 && '3' as int == 51 && '4' as int
        == 52 && '5' as int == 53 && '6' as int == 54 && '7' as int == 55 && '8' as int == 56
        && '9' as int == 57);
    if n < 10 {
        assert(seq![digit(n)].drop_last() == Seq::<char>::empty());
        assert(value(seq![digit(n)].drop_last()) == 0);
        assert(seq![digit(n)].last() == digit(n));
    } else {
        lemma_digits_value(n / 10);
        assert(digits(n).drop_last() == digits(n / 10));
    }
}

proof fn lemma_zeros_value(k: nat, s: Seq<char>)
    ensures
        value(Seq::new(k, |i: int| '0') + s) == value(s),
    decreases k, s.len(),
{
    let zeros = Seq::new(k, |i: int| '0');
    if s.len() > 0 {
        lemma_zeros_value(k, s.drop_last());
        assert((zeros + s).drop_last() == zeros + s.drop_last());
        assert((zeros + s).last() == s.last());
    } else if k > 0 {
        let fewer = Seq::new((k - 1) as nat, |i: int| '0');
        lemma_zeros_value((k - 1) as nat, s);
        assert((zeros + s).drop_last() == fewer + s);
        assert((zeros + s).last() == '0');
        assert(value(s) == 0);
    } else {
        assert(zeros + s == s);
    }
}

proof fn lemma_four_digits(n: nat)
    ensures
        value(four_digits(n)) == n,
        forall|i: int| 0 <= i < four_digits(n).len() ==> four_digits(n)[i] != '-',
{
    lemma_digits_value(n);
    let d = digits(n);
    let k = if d.len() < 4 {
        (4 - d.len()) as nat
    } else {
        0
    };
    lemma_zeros_value(k, d);
    let zeros = Seq::new(k, |i: int| '0');
    if k == 0 {
        assert(zeros + d == d);
    }
    assert forall|i: int| 0 <= i < four_digits(n).len() implies four_digits(n)[i] != '-' by {
        if i >= k {
            assert(four_digits(n)[i] == d[i - k]);
        }
    }
}

/// No two scratch directories of a process share a path, whatever their tags: one with
/// another number has another path.
pub proof fn two_scratches_have_two_paths(
    root: Seq<char>,
    n: nat,
    m: nat,
    a: Seq<char>,
    b: Seq<char>,
)
    requires
        n != m,
    ensures
        joined_path(root, scratch_name(n, a)) != joined_path(root, scratch_name(m, b)),
{
    reveal_strlit("-");
    lemma_four_digits(n);
    lemma_four_digits(m);
    let x = four_digits(n);
    let y = four_digits(m);
    let p = scratch_name(n, a);
    let q = scratch_name(m, b);
    lemma_plain_start(n, a);
    lemma_plain_start(m, b);
    assert(p[x.len() as int] == '-');
    assert(q[y.len() as int] == '-');
    if joined_path(root, p) == joined_path(root, q) {
        let base = if root.len() == 0 || root.last() == '/' {
            root
        } else {
            root + "/"@
        };
        assert(joined_path(root, p) == base + p);
        assert(joined_path(root, q) == base + q);
        assert(p == (base + p).skip(base.len() as int));
        assert(q == (base + q).skip(base.len() as int));
        assert(p == q);
        if x.len() < y.len() {
            assert(q[x.len() as int] == y[x.len() as int]);
        } else if y.len() < x.len() {
            assert(p[y.len() as int] == x[y.len() as int]);
        }
        assert(x.len() == y.len());
        assert(x == p.take(x.len() as int));
        assert(y == q.take(y.len() as int));
    }
}

proof fn lemma_plain_start(n: nat, tag: Seq<char>)
    ensures
        scratch_name(n, tag).len() > 0,
        scratch_name(n, tag)[0] != '/',
{
    lemma_digits_value(n);
    reveal_strlit("-");
    let d = digits(n);
    assert(d[0] != '/') by {
        assert('0' <= d[0]);
        assert('0' as int == 48 && '/' as int == 47);
    }
    assert(scratch_name(n, tag)[0] == four_digits(n)[0]);
}

/// A tag cannot lead out of the directory that scratch directories are kept in: whatever it
/// holds, the path is one component below that directory, and the component ends with the
/// tag made plain.
pub proof fn a_tag_cannot_escape_the_root(root: Seq<char>, n: nat, tag: Seq<char>)
    requires
        root.len() > 0,
    ensures
        components(joined_path(root, scratch_name(n, tag))) == components(root).push(
            scratch_name(n, tag),
        ),
        !scratch_name(n, tag).contains('/'),
        finishes_with(scratch_name(n, tag), "-"@ + plain(tag)),
{
    reveal_strlit("-");
    lemma_plain_start(n, tag);
    lemma_digits_value(n);
    let d = digits(n);
    let s = scratch_name(n, tag);
    let f = four_digits(n);
    assert('0' as int == 48 && '/' as int == 47 && '9' as int == 57);
    assert forall|i: int| 0 <= i < s.len() implies s[i] != '/' by {
        if i < f.len() {
            assert(s[i] == f[i]);
            if d.len() < 4 && i >= 4 - d.len() {
                assert(f[i] == d[i - (4 - d.len())]);
            } else if d.len() >= 4 {
                assert(f[i] == d[i]);
            }
        } else if i > f.len() {
            assert(s[i] == plain(tag)[i - f.len() - 1]);
        }
    }
    assert(s.subrange(f.len() as int, s.len() as int) == "-"@ + plain(tag));
    lemma_one_below(root, s);
}

} // verus!
