//! What the configuration says of a mount.

use crate::systemd::{argv_serving, Serving};
use crate::text::texts;
use vstd::prelude::*;
use vstd::string::*;

verus! {

/// What the name of every unit of this service begins with.
pub const UNIT_PREFIX: &'static str = "rvt-mount-";

/// One configured mount: what to serve, and where.
#[derive(Debug, Clone, PartialEq, Eq)]
pub struct Mount<S = String> {
    pub name: S,
    pub remote: S,
    pub path: S,
    pub mount_point: S,
}

impl View for Mount {
    type V = Mount<Seq<char>>;

    open spec fn view(&self) -> Mount<Seq<char>> {
        Mount {
            name: self.name@,
            remote: self.remote@,
            path: self.path@,
            mount_point: self.mount_point@,
        }
    }
}

/// The unit that a mount of this name runs as.
pub open spec fn unit_named(name: Seq<char>) -> Seq<char> {
    UNIT_PREFIX@ + name + ".service"@
}

impl Mount<Seq<char>> {
    /// The unit that this mount runs as.
    pub open spec fn unit(self) -> Seq<char> {
        unit_named(self.name)
    }

    /// What rclone is told to serve.
    pub open spec fn spec_text(self) -> Seq<char> {
        self.remote + ":"@ + self.path
    }

    /// What rclone is told, from the subcommand on: what to serve and where come right after
    /// it, so that they can be read back.
    pub open spec fn arguments(self, socket: Seq<char>, more: Seq<Seq<char>>) -> Seq<Seq<char>> {
        seq![
            "mount"@,
            self.spec_text(),
            self.mount_point,
            "--rc"@,
            "--rc-addr"@,
            "unix://"@ + socket,
            "--rc-no-auth"@,
        ] + more
    }
}

/// What a unit serves can be read back from its argv, whatever else it was told.
pub proof fn a_unit_says_what_it_serves(
    m: Mount<Seq<char>>,
    rclone: Seq<char>,
    socket: Seq<char>,
    more: Seq<Seq<char>>,
)
    ensures
        argv_serving(seq![seq![rclone] + m.arguments(socket, more)]) == Some(
            (Serving { fs_spec: m.spec_text(), mount_point: m.mount_point }),
        ),
{
    let argv = seq![rclone] + m.arguments(socket, more);
    assert(argv[1] == "mount"@);
    assert(argv[2] == m.spec_text());
    assert(argv[3] == m.mount_point);
}

impl Mount {
    /// The unit that this mount runs as.
    pub fn unit_name(&self) -> (r: String)
        ensures
            r@ == self@.unit(),
    {
        let mut r = UNIT_PREFIX.to_owned();
        r.append(self.name.as_str());
        r.append(".service");
        r
    }

    /// What rclone is told, from the subcommand on, ending with what the configuration adds.
    pub fn mount_args(&self, socket: &str, more: &Vec<String>) -> (r: Vec<String>)
        ensures
            texts(r@) == self@.arguments(socket@, texts(more@)),
    {
        let mut addr = "unix://".to_owned();
        addr.append(socket);
        let mut args: Vec<String> = Vec::new();
        args.push("mount".to_owned());
        args.push(self.fs_spec());
        args.push(self.mount_point.clone());
        args.push("--rc".to_owned());
        args.push("--rc-addr".to_owned());
        args.push(addr);
        args.push("--rc-no-auth".to_owned());
        let ghost head = texts(args@);
        assert(head + texts(more@) == self@.arguments(socket@, texts(more@)));
        let mut i: usize = 0;
        assert(head + texts(more@).take(0) == head);
        while i < more.len()
            invariant
                i <= more@.len(),
                texts(args@) == head + texts(more@).take(i as int),
            decreases more@.len() - i,
        {
            let ghost before = args@;
            args.push(more[i].clone());
            assert(texts(args@) == texts(before).push(more@[i as int]@));
            assert(texts(more@).take(i + 1) == texts(more@).take(i as int).push(more@[i as int]@));
            i = i + 1;
        }
        assert(texts(more@).take(more@.len() as int) == texts(more@));
        args
    }

    /// What rclone is told to serve, as `remote:path`.
    pub fn fs_spec(&self) -> (r: String)
        ensures
            r@ == self@.spec_text(),
    {
        let mut r = self.remote.clone();
        r.append(":");
        r.append(self.path.as_str());
        r
    }
}

} // verus!
