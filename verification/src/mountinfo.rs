//! The kernel's mount table.

use crate::paths::{same_path, same_place};
use crate::text::{chars_of, lines, line_list, push_char, same_text, split, split_on, texts, views};
use vstd::prelude::*;
use vstd::string::*;

verus! {

/// One mounted file system.
#[derive(Debug, Clone, PartialEq, Eq)]
pub struct MountEntry<S = String> {
    pub mount_point: S,
    pub fs_type: S,
    pub source: S,
}

impl View for MountEntry {
    type V = MountEntry<Seq<char>>;

    open spec fn view(&self) -> MountEntry<Seq<char>> {
        MountEntry {
            mount_point: self.mount_point@,
            fs_type: self.fs_type@,
            source: self.source@,
        }
    }
}

impl MountEntry<Seq<char>> {
    /// Whether rclone serves it.
    pub open spec fn by_rclone(self) -> bool {
        self.fs_type == "fuse.rclone"@
    }
}

impl MountEntry {
    /// Whether rclone serves it.
    pub fn is_rclone(&self) -> (r: bool)
        ensures
            r == self@.by_rclone(),
    {
        same_text(self.fs_type.as_str(), "fuse.rclone")
    }
}

/// Whether anything is mounted at a point.
pub open spec fn mounted_at(live: Seq<MountEntry<Seq<char>>>, point: Seq<char>) -> bool {
    exists|i: int| 0 <= i < live.len() && same_place(#[trigger] live[i].mount_point, point)
}

/// Whether anything is mounted at a point.
pub fn is_mounted_at(live: &Vec<MountEntry>, point: &str) -> (r: bool)
    ensures
        r == mounted_at(views(live@), point@),
{
    let mut i: usize = 0;
    while i < live.len()
        invariant
            i <= live@.len(),
            forall|k: int|
                0 <= k < i ==> !same_place(#[trigger] views(live@)[k].mount_point, point@),
        decreases live@.len() - i,
    {
        if same_path(live[i].mount_point.as_str(), point) {
            assert(same_place(views(live@)[i as int].mount_point, point@));
            return true;
        }
        i = i + 1;
    }
    false
}

/// Whether a character is an octal digit.
pub open spec fn is_octal(c: char) -> bool {
    '0' <= c <= '7'
}

/// The number that an octal digit stands for.
pub open spec fn octal(c: char) -> int {
    c as int - '0' as int
}

/// Whether an escape begins a text: a backslash and three octal digits for an ASCII
/// character.
pub open spec fn is_escape(s: Seq<char>) -> bool {
    &&& s.len() >= 4
    &&& s[0] == '\\'
    &&& is_octal(s[1])
    &&& is_octal(s[2])
    &&& is_octal(s[3])
    &&& octal(s[1]) <= 1
}

/// The character that an escape stands for.
pub open spec fn escaped_char(s: Seq<char>) -> char {
    ((octal(s[1]) * 64 + octal(s[2]) * 8 + octal(s[3])) as u8) as char
}

/// A field of the mount table with its escapes undone: the kernel writes white space and
/// backslashes as octal numbers.
pub open spec fn unescaped(s: Seq<char>) -> Seq<char>
    decreases s.len(),
{
    if s.len() == 0 {
        s
    } else if is_escape(s) {
        seq![escaped_char(s)] + unescaped(s.skip(4))
    } else {
        seq![s[0]] + unescaped(s.drop_first())
    }
}

/// Where the field that ends the optional ones stands, from a position on.
pub open spec fn dash_from(fields: Seq<Seq<char>>, i: int) -> Option<int>
    decreases fields.len() - i,
{
    if i >= fields.len() {
        None
    } else if fields[i] == "-"@ {
        Some(i)
    } else {
        dash_from(fields, i + 1)
    }
}

/// One line of the mount table: the fifth field is the mount point, and behind the dash that
/// ends the optional fields stand the type and the source.
pub open spec fn entry_of_line(line: Seq<char>) -> Option<MountEntry<Seq<char>>> {
    let fields = split_on(line, ' ');
    match dash_from(fields, 6) {
        Some(d) => if d + 2 < fields.len() {
            Some(
                MountEntry {
                    mount_point: unescaped(fields[4]),
                    fs_type: fields[d + 1],
                    source: unescaped(fields[d + 2]),
                },
            )
        } else {
            None
        },
        None => None,
    }
}

/// The entries of lines, in their order. A line that is none is passed over.
pub open spec fn entries_of_lines(rows: Seq<Seq<char>>) -> Seq<MountEntry<Seq<char>>>
    decreases rows.len(),
{
    if rows.len() == 0 {
        Seq::empty()
    } else {
        match entry_of_line(rows.last()) {
            Some(e) => entries_of_lines(rows.drop_last()).push(e),
            None => entries_of_lines(rows.drop_last()),
        }
    }
}

fn unescape(s: &str) -> (r: String)
    ensures
        r@ == unescaped(s@),
{
    let x = chars_of(s);
    let mut r = String::new();
    let mut i: usize = 0;
    assert(s@.skip(0) == s@);
    assert(Seq::<char>::empty() + unescaped(s@) == unescaped(s@));
    while i < x.len()
        invariant
            i <= x@.len(),
            x@ == s@,
            r@ + unescaped(s@.skip(i as int)) == unescaped(s@),
        decreases x@.len() - i,
    {
        let ghost rest = s@.skip(i as int);
        let ghost before = r@;
        assert(rest[0] == x@[i as int]);
        let mut step: usize = 1;
        if x[i] == '\\' && x.len() - i >= 4 {
            let a = x[i + 1];
            let b = x[i + 2];
            let c = x[i + 3];
            assert(rest[1] == a && rest[2] == b && rest[3] == c);
            if '0' <= a && a <= '1' && '0' <= b && b <= '7' && '0' <= c && c <= '7' {
                let n: u8 = ((a as u32 - 48) * 64 + (b as u32 - 48) * 8 + (c as u32 - 48)) as u8;
                assert(is_escape(rest));
                assert(n as char == escaped_char(rest));
                push_char(&mut r, n as char);
                step = 4;
            }
        }
        if step == 1 {
            assert(!is_escape(rest));
            push_char(&mut r, x[i]);
            assert(rest.drop_first() == s@.skip(i + 1));
            assert(before + (seq![rest[0]] + unescaped(s@.skip(i + 1))) == r@ + unescaped(
                s@.skip(i + 1),
            ));
        } else {
            assert(rest.skip(4) == s@.skip(i + 4));
            assert(before + (seq![escaped_char(rest)] + unescaped(s@.skip(i + 4))) == r@
                + unescaped(s@.skip(i + 4)));
        }
        i = i + step;
    }
    assert(s@.skip(x@.len() as int) == Seq::<char>::empty());
    assert(r@ + Seq::<char>::empty() == r@);
    r
}

fn parse_line(line: &str) -> (r: Option<MountEntry>)
    ensures
        match r {
            Some(e) => entry_of_line(line@) == Some(e@),
            None => entry_of_line(line@) is None,
        },
{
    let fields = split(line, ' ');
    let ghost all = split_on(line@, ' ');
    if fields.len() < 7 {
        assert(dash_from(all, 6) is None);
        return None;
    }
    let mut i: usize = 6;
    while i < fields.len()
        invariant
            6 <= i <= fields@.len(),
            texts(fields@) == all,
            all == split_on(line@, ' '),
            dash_from(all, 6) == dash_from(all, i as int),
        decreases fields@.len() - i,
    {
        assert(all[i as int] == fields@[i as int]@);
        if same_text(fields[i].as_str(), "-") {
            if fields.len() - i > 2 {
                assert(all[i + 1] == fields@[i + 1]@ && all[i + 2] == fields@[i + 2]@);
                assert(all[4] == fields@[4]@);
                return Some(
                    MountEntry {
                        mount_point: unescape(fields[4].as_str()),
                        fs_type: fields[i + 1].clone(),
                        source: unescape(fields[i + 2].as_str()),
                    },
                );
            }
            return None;
        }
        i = i + 1;
    }
    None
}

/// The entries of a mount table as the kernel writes it.
pub fn parse(table: &str) -> (r: Vec<MountEntry>)
    ensures
        views(r@) == entries_of_lines(line_list(table@)),
{
    let rows = lines(table);
    let ghost all = texts(rows@);
    let mut out: Vec<MountEntry> = Vec::new();
    let mut i: usize = 0;
    while i < rows.len()
        invariant
            i <= rows@.len(),
            all == texts(rows@),
            views(out@) == entries_of_lines(all.take(i as int)),
        decreases rows@.len() - i,
    {
        assert(all.take(i + 1).drop_last() == all.take(i as int));
        assert(all.take(i + 1).last() == rows@[i as int]@);
        if let Some(e) = parse_line(rows[i].as_str()) {
            let ghost before = out@;
            out.push(e);
            assert(views(out@) == views(before).push(e@));
        }
        i = i + 1;
    }
    assert(all.take(rows@.len() as int) == all);
    out
}

} // verus!
