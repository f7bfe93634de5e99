//! What a mount needs around it: its directory, its runtime directory, its locks, and the
//! kernel's helper for giving a mount point back.

use crate::config::Mount;
use crate::errors::{outcome, SupervisorError};
use crate::mountinfo::{is_mounted_at, mounted_at, MountEntry};
use crate::paths::joined_path;
use crate::rc::{rc_socket_path, socket_file};
use crate::supervisor::orphans::Target;
use crate::supervisor::targets::{configured, mount_config};
use crate::supervisor::unmount::Release;
use crate::text::{
    from_utf8_lossy, lossy_text, same_text, texts, trim, trim_end_of, trimmed, views,
    without_trailing,
};
use vstd::prelude::*;
use vstd::string::*;

verus! {

/// `ENOTCONN`. What every operation on a mount point returns once the FUSE daemon serving
/// it has gone away without unmounting.
pub const ENOTCONN: i32 = 107;

/// The mode of the runtime directory. A directory nobody else can traverse is what protects
/// the rc sockets in it.
pub const RUNTIME_DIR_MODE: u32 = 448;

/// Whether a probe of a mount point found it present but no longer served. `errno` is what
/// the probe failed with; a probe that did not answer in time is none.
///
/// Reporting an unanswered probe as served leaves the mount as it is, and the next look
/// tries again.
pub fn is_stale(errno: Option<i32>) -> (r: bool)
    ensures
        r == (errno == Some(ENOTCONN)),
{
    match errno {
        Some(n) => n == ENOTCONN,
        None => false,
    }
}

/// What the helper is told.
pub open spec fn helper_args(point: Seq<char>, how: Release) -> Seq<Seq<char>> {
    match how {
        Release::Refuse => seq!["-u"@, point],
        Release::Detach => seq!["-u"@, "-z"@, point],
    }
}

/// What `fusermount3`, or `fusermount` on older systems, is told.
pub fn fusermount_args(point: &str, how: Release) -> (r: Vec<String>)
    ensures
        texts(r@) == helper_args(point@, how),
{
    let mut args: Vec<String> = Vec::new();
    args.push("-u".to_owned());
    match how {
        Release::Refuse => {},
        Release::Detach => {
            args.push("-z".to_owned());
        },
    }
    args.push(point.to_owned());
    args
}

/// How a program ended.
pub enum Exit<S = String, B = Vec<u8>> {
    Success,
    /// With a failure, and what it wrote to its error output.
    Failure(B),
    /// It could not be run at all.
    NotRun(S),
}

impl View for Exit {
    type V = Exit<Seq<char>, Seq<u8>>;

    open spec fn view(&self) -> Exit<Seq<char>, Seq<u8>> {
        match *self {
            Exit::Success => Exit::Success,
            Exit::Failure(b) => Exit::Failure(b@),
            Exit::NotRun(t) => Exit::NotRun(t@),
        }
    }
}

/// What the helper's end means for a release. A complete sentence without its full stop,
/// since advice may follow it.
pub open spec fn release_result(point: Seq<char>, exit: Exit<Seq<char>, Seq<u8>>) -> Result<
    (),
    SupervisorError<Seq<char>>,
> {
    match exit {
        Exit::Success => Ok(()),
        Exit::Failure(stderr) => Err(
            SupervisorError::Busy {
                detail: point + " could not be unmounted: "@ + without_trailing(
                    trimmed(lossy_text(stderr)),
                    '.',
                ),
            },
        ),
        Exit::NotRun(why) => Err(
            SupervisorError::Supervision {
                context: "running fusermount for "@ + point,
                source: Some(why),
            },
        ),
    }
}

/// What the helper's end means for a release.
pub fn fusermount(point: &str, exit: Exit) -> (r: Result<(), SupervisorError>)
    ensures
        outcome(r) == release_result(point@, exit@),
{
    match exit {
        Exit::Success => Ok(()),
        Exit::Failure(stderr) => {
            let mut s = point.to_owned();
            s.append(" could not be unmounted: ");
            let said = trim(from_utf8_lossy(&stderr).as_str());
            s.append(trim_end_of(said.as_str(), '.').as_str());
            Err(SupervisorError::Busy { detail: s })
        },
        Exit::NotRun(why) => {
            let mut s = "running fusermount for ".to_owned();
            s.append(point);
            Err(SupervisorError::Supervision { context: s, source: Some(why) })
        },
    }
}

/// What is at a path that is to be mounted onto.
pub enum PathKind<S = String> {
    Directory,
    NotADirectory,
    Missing,
    /// It could not be looked at, for this reason.
    Unreadable(S),
}

impl View for PathKind {
    type V = PathKind<Seq<char>>;

    open spec fn view(&self) -> PathKind<Seq<char>> {
        match *self {
            PathKind::Directory => PathKind::Directory,
            PathKind::NotADirectory => PathKind::NotADirectory,
            PathKind::Missing => PathKind::Missing,
            PathKind::Unreadable(t) => PathKind::Unreadable(t@),
        }
    }
}

/// Whether a mount point has to be created first, if it can be mounted onto at all.
pub open spec fn point_check(path: Seq<char>, kind: PathKind<Seq<char>>) -> Result<
    bool,
    SupervisorError<Seq<char>>,
> {
    match kind {
        PathKind::Directory => Ok(false),
        PathKind::Missing => Ok(true),
        PathKind::NotADirectory => Err(
            SupervisorError::BadMountPoint {
                path,
                reason: "exists but is not a directory"@,
                source: None,
            },
        ),
        PathKind::Unreadable(why) => Err(
            SupervisorError::BadMountPoint {
                path,
                reason: "could not be inspected"@,
                source: Some(why),
            },
        ),
    }
}

/// Whether a mount point has to be created first, if it can be mounted onto at all.
pub fn prepare_mount_point(path: &str, kind: PathKind) -> (r: Result<bool, SupervisorError>)
    ensures
        outcome(r) == point_check(path@, kind@),
{
    match kind {
        PathKind::Directory => Ok(false),
        PathKind::Missing => Ok(true),
        PathKind::NotADirectory => Err(
            SupervisorError::BadMountPoint {
                path: path.to_owned(),
                reason: "exists but is not a directory".to_owned(),
                source: None,
            },
        ),
        PathKind::Unreadable(why) => Err(
            SupervisorError::BadMountPoint {
                path: path.to_owned(),
                reason: "could not be inspected".to_owned(),
                source: Some(why),
            },
        ),
    }
}

/// The error for a mount point that could not be created.
pub fn not_created(path: &str, why: String) -> (r: SupervisorError)
    ensures
        r@ == (SupervisorError::BadMountPoint {
            path: path@,
            reason: "could not be created"@,
            source: Some(why@),
        }),
{
    SupervisorError::BadMountPoint {
        path: path.to_owned(),
        reason: "could not be created".to_owned(),
        source: Some(why),
    }
}

/// The error for a runtime directory that could not be prepared.
pub fn prepare_runtime_dir(dir: &str, why: String) -> (r: SupervisorError)
    ensures
        r@ == (SupervisorError::Supervision {
            context: "preparing the runtime directory "@ + dir@,
            source: Some(why@),
        }),
{
    let mut s = "preparing the runtime directory ".to_owned();
    s.append(dir);
    SupervisorError::Supervision { context: s, source: Some(why) }
}

/// What clearing the way for a start looks at: the socket to remove, and the mount point to
/// probe.
pub struct Leftovers<S = String> {
    pub socket: S,
    pub mount_point: S,
}

impl View for Leftovers {
    type V = Leftovers<Seq<char>>;

    open spec fn view(&self) -> Leftovers<Seq<char>> {
        Leftovers { socket: self.socket@, mount_point: self.mount_point@ }
    }
}

/// What a hard-killed rclone may leave behind of a mount.
pub open spec fn leftovers_of(
    mounts: Seq<Mount<Seq<char>>>,
    runtime_dir: Seq<char>,
    name: Seq<char>,
) -> Result<Leftovers<Seq<char>>, SupervisorError<Seq<char>>> {
    match configured(mounts, name) {
        Some(m) => Ok(
            Leftovers {
                socket: joined_path(runtime_dir, socket_file(name)),
                mount_point: m.mount_point,
            },
        ),
        None => Err(SupervisorError::UnknownMount(name)),
    }
}

/// What a hard-killed rclone may leave behind of a mount, so that a start can succeed once
/// it is cleared.
pub fn prepare_for_start(mounts: &Vec<Mount>, runtime_dir: &str, name: &str) -> (r: Result<
    Leftovers,
    SupervisorError,
>)
    ensures
        match r {
            Ok(l) => leftovers_of(views(mounts@), runtime_dir@, name@) == Ok::<
                _,
                SupervisorError<Seq<char>>,
            >(l@),
            Err(e) => leftovers_of(views(mounts@), runtime_dir@, name@) == Err::<
                Leftovers<Seq<char>>,
                _,
            >(e@),
        },
{
    match mount_config(mounts, name) {
        Ok(m) => Ok(
            Leftovers {
                socket: rc_socket_path(runtime_dir, name),
                mount_point: m.mount_point.clone(),
            },
        ),
        Err(e) => Err(e),
    }
}

/// Whether a start has to ask for its mount point first: only where it is mounted but
/// unserved, since a live mount there is somebody else's.
pub fn clears_point(live: &Vec<MountEntry>, point: &str, stale: bool) -> (r: bool)
    ensures
        r == (mounted_at(views(live@), point@) && stale),
{
    is_mounted_at(live, point) && stale
}

/// The lock an unmount needs besides that of the name it was asked for. A redirect acts on a
/// unit that the caller's own lock does not guard, and after a rename two names reach the
/// same one.
pub fn second_lock(name: &str, target: &Target) -> (r: Option<String>)
    ensures
        match r {
            Some(n) => target@.name != name@ && n@ == target@.name,
            None => target@.name == name@,
        },
{
    if same_text(target.name.as_str(), name) {
        None
    } else {
        Some(target.name.clone())
    }
}

/// Whether the lock of a name that could not be resolved is to be dropped. Nothing can ever
/// act under a name that no mount goes by. `holders` counts the lock's owners: two are the
/// table of locks and the caller, and with any more somebody is queued on it.
pub fn drops_lock(e: &SupervisorError, holders: usize) -> (r: bool)
    ensures
        r == (e@ is UnknownMount && holders == 2),
{
    match e {
        SupervisorError::UnknownMount(_) => holders == 2,
        _ => false,
    }
}

} // verus!
