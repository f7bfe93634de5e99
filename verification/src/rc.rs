//! Where a mount's rclone remote control listens.

use crate::paths::{join_path, joined_path, rooted};
use crate::text::{chars_of, push_char};
use vstd::prelude::*;
use vstd::string::*;

verus! {

/// How one character of a mount name is written in a file name: a separator would leave the
/// directory, so it is escaped, and so is the escape.
pub open spec fn escaped_char(c: char) -> Seq<char> {
    if c == '/' {
        seq!['%', '2', 'F']
    } else if c == '%' {
        seq!['%', '2', '5']
    } else {
        seq![c]
    }
}

/// A mount name with its separators escaped.
pub open spec fn escaped_name(name: Seq<char>) -> Seq<char>
    decreases name.len(),
{
    if name.len() == 0 {
        Seq::<char>::empty()
    } else {
        escaped_name(name.drop_last()) + escaped_char(name.last())
    }
}

/// The name of a mount's socket file.
pub open spec fn socket_file(name: Seq<char>) -> Seq<char> {
    escaped_name(name) + ".sock"@
}

/// The name of a mount's socket file. Escaped rather than folded, so that no two mounts
/// share one.
pub fn socket_file_name(name: &str) -> (r: String)
    ensures
        r@ == socket_file(name@),
{
    let x = chars_of(name);
    let mut r = String::new();
    let mut i: usize = 0;
    assert(name@.take(0) == Seq::<char>::empty());
    while i < x.len()
        invariant
            i <= x@.len(),
            x@ == name@,
            r@ == escaped_name(name@.take(i as int)),
        decreases x@.len() - i,
    {
        assert(name@.take(i + 1).drop_last() == name@.take(i as int));
        assert(name@.take(i + 1).last() == x@[i as int]);
        let ghost before = r@;
        if x[i] == '/' {
            push_char(&mut r, '%');
            push_char(&mut r, '2');
            push_char(&mut r, 'F');
        } else if x[i] == '%' {
            push_char(&mut r, '%');
            push_char(&mut r, '2');
            push_char(&mut r, '5');
        } else {
            push_char(&mut r, x[i]);
        }
        assert(r@ == before + escaped_char(x@[i as int]));
        i = i + 1;
    }
    assert(name@.take(x@.len() as int) == name@);
    r.append(".sock");
    r
}

/// Where a mount's rc socket lives.
pub fn rc_socket_path(runtime_dir: &str, name: &str) -> (r: String)
    ensures
        r@ == joined_path(runtime_dir@, socket_file(name@)),
{
    join_path(runtime_dir, socket_file_name(name).as_str())
}

/// A name without separators or escapes keeps its own spelling.
pub proof fn an_ordinary_name_is_kept(name: Seq<char>)
    requires
        !name.contains('/'),
        !name.contains('%'),
    ensures
        escaped_name(name) == name,
    decreases name.len(),
{
    if name.len() > 0 {
        let before = name.drop_last();
        assert forall|c: char| before.contains(c) implies name.contains(c) by {
            let k = choose|k: int| 0 <= k < before.len() && before[k] == c;
            assert(name[k] == c);
        }
        an_ordinary_name_is_kept(before);
        assert(name[name.len() - 1] == name.last());
        assert(before + seq![name.last()] == name);
    }
}

/// A socket path never leaves the runtime directory: whatever the name, it is that
/// directory, a separator, and a file name that holds no separator.
pub proof fn a_socket_stays_in_the_runtime_directory(runtime_dir: Seq<char>, name: Seq<char>)
    requires
        runtime_dir.len() > 0,
        runtime_dir.last() != '/',
    ensures
        !socket_file(name).contains('/'),
        joined_path(runtime_dir, socket_file(name)) == runtime_dir + "/"@ + socket_file(name),
{
    reveal_strlit(".sock");
    lemma_no_separator(name);
    let f = socket_file(name);
    assert forall|k: int| 0 <= k < f.len() implies f[k] != '/' by {
        if k < escaped_name(name).len() {
            assert(f[k] == escaped_name(name)[k]);
        }
    }
    assert(f.len() > 0);
    assert(!rooted(f));
}

proof fn lemma_no_separator(name: Seq<char>)
    ensures
        forall|k: int| 0 <= k < escaped_name(name).len() ==> escaped_name(name)[k] != '/',
    decreases name.len(),
{
    if name.len() > 0 {
        lemma_no_separator(name.drop_last());
        let before = escaped_name(name.drop_last());
        let all = escaped_name(name);
        assert forall|k: int| 0 <= k < all.len() implies all[k] != '/' by {
            if k < before.len() {
                assert(all[k] == before[k]);
            } else {
                assert(all[k] == escaped_char(name.last())[k - before.len()]);
            }
        }
    }
}

/// No two mounts share a socket.
pub proof fn sockets_are_distinct(a: Seq<char>, b: Seq<char>)
    requires
        socket_file(a) == socket_file(b),
    ensures
        a == b,
{
    reveal_strlit(".sock");
    let x = escaped_name(a);
    let y = escaped_name(b);
    assert(socket_file(a).len() == x.len() + 5);
    assert(socket_file(b).len() == y.len() + 5);
    assert(x == socket_file(a).take(x.len() as int));
    assert(y == socket_file(b).take(y.len() as int));
    lemma_escaped_name_is_injective(a, b);
}

proof fn lemma_escaped_name_is_injective(a: Seq<char>, b: Seq<char>)
    requires
        escaped_name(a) == escaped_name(b),
    ensures
        a == b,
    decreases a.len(),
{
    lemma_front(a);
    lemma_front(b);
    if a.len() == 0 {
        assert(b.len() == 0);
        assert(a == b);
    } else {
        assert(b.len() > 0);
        let x = escaped_name(a);
        let y = escaped_name(b);
        let ra = escaped_name(a.drop_first());
        let rb = escaped_name(b.drop_first());
        assert(x[0] == escaped_char(a[0])[0]);
        assert(y[0] == escaped_char(b[0])[0]);
        if a[0] == '/' || a[0] == '%' {
            assert(x[2] == escaped_char(a[0])[2]);
            assert(y[2] == escaped_char(b[0])[2]);
        }
        assert(a[0] == b[0]);
        let n = escaped_char(a[0]).len() as int;
        assert(ra == x.skip(n));
        assert(rb == y.skip(n));
        lemma_escaped_name_is_injective(a.drop_first(), b.drop_first());
        assert(a == seq![a[0]] + a.drop_first());
        assert(b == seq![b[0]] + b.drop_first());
    }
}

proof fn lemma_front(name: Seq<char>)
    ensures
        name.len() == 0 ==> escaped_name(name).len() == 0,
        name.len() > 0 ==> escaped_name(name) == escaped_char(name[0]) + escaped_name(
            name.drop_first(),
        ),
    decreases name.len(),
{
    if name.len() == 1 {
        assert(name.drop_last() == Seq::<char>::empty());
        assert(name.drop_first() == Seq::<char>::empty());
        assert(escaped_name(name.drop_last()) == Seq::<char>::empty());
        assert(escaped_name(name.drop_first()) == Seq::<char>::empty());
        assert(escaped_name(name) == escaped_char(name[0]) + Seq::<char>::empty());
    } else if name.len() > 1 {
        lemma_front(name.drop_last());
        assert(name.drop_last().drop_first() == name.drop_first().drop_last());
        assert(name.drop_first().last() == name.last());
        assert(name.drop_last()[0] == name[0]);
    }
}

} // verus!
