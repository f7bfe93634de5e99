//! Reaching the service, and telling the ways that fail apart.
//!
//! A service that is stopped, a service too different to talk to, and a bus that is not
//! there are three separate situations, and none of them says anything about whether a
//! mount is up.

use crate::errors::BusFailure;
use crate::ipc::{IpcError, INTERFACE_NAME};
use crate::text::{decimal, digits, opt_text, same_text};
use vstd::prelude::*;
use vstd::string::*;

verus! {

/// The service's user unit, which the tray's menu starts and stops.
pub const UNIT: &'static str = "rclone-vfsmount-trayd";

/// The command that starts the service.
pub const START_HINT: &'static str = "systemctl --user start rclone-vfsmount-trayd";

/// The lowest interface version whose vocabulary this build uses.
pub const MIN_INTERFACE: u32 = 1;

/// Why the service could not be reached, or could not be understood.
///
/// `Refused` is set apart from the rest: it is the service answering and saying no, and it
/// is the only kind that says anything about a mount.
#[derive(Debug, Clone, PartialEq, Eq)]
pub enum LinkError<S = String> {
    /// No session bus to reach.
    NoSessionBus(S),
    /// The bus is there and nobody owns the service's name.
    NotRunning,
    /// Something owns the name but does not answer the interface this build calls.
    Incompatible,
    /// The service is older than the vocabulary this build needs.
    TooOld { needed: u32, found: u32 },
    /// The service answered and refused, in these words where it gave any.
    Refused(Option<S>),
    /// The call reached the bus and failed for some other reason.
    Transport(S),
}

impl View for LinkError {
    type V = LinkError<Seq<char>>;

    open spec fn view(&self) -> LinkError<Seq<char>> {
        match *self {
            LinkError::NoSessionBus(t) => LinkError::NoSessionBus(t@),
            LinkError::NotRunning => LinkError::NotRunning,
            LinkError::Incompatible => LinkError::Incompatible,
            LinkError::TooOld { needed, found } => LinkError::TooOld { needed, found },
            LinkError::Refused(t) => LinkError::Refused(opt_text(t)),
            LinkError::Transport(t) => LinkError::Transport(t@),
        }
    }
}

impl LinkError<Seq<char>> {
    /// The code to exit with.
    pub open spec fn code(self) -> u8 {
        match self {
            LinkError::Refused(_) => 1,
            LinkError::NotRunning => 3,
            LinkError::Incompatible => 4,
            LinkError::TooOld { .. } => 4,
            LinkError::NoSessionBus(_) => 5,
            LinkError::Transport(_) => 5,
        }
    }

    /// The sentence to show.
    pub open spec fn sentence(self) -> Seq<char> {
        match self {
            LinkError::NoSessionBus(e) => "No session bus to reach ("@ + e
                + "). This runs inside a desktop session; over SSH, point DBUS_SESSION_BUS_ADDRESS at the user bus."@,
            LinkError::NotRunning =>
                "The rclone-vfsmount-tray service is not running. Start it with:\n    "@
                + START_HINT@
                + "\nThis says nothing about your mounts: any that were up are still up."@,
            LinkError::Incompatible => "The service on this bus does not answer "@
                + INTERFACE_NAME@
                + ". It is a different, incompatible version of the interface; update the client and service to match."@,
            LinkError::TooOld { needed, found } => "This command needs interface version "@
                + digits(needed as nat) + ", but the service provides "@ + digits(found as nat)
                + ". Update rclone-vfsmount-trayd."@,
            LinkError::Refused(Some(t)) => t,
            LinkError::Refused(None) => "the service refused the request"@,
            LinkError::Transport(e) => "The service could not be reached: "@ + e,
        }
    }
}

impl LinkError {
    /// A distinct code per kind of failure, so that a script can branch without parsing
    /// prose.
    pub fn exit_code(&self) -> (r: u8)
        ensures
            r == self@.code(),
    {
        match self {
            LinkError::Refused(_) => 1,
            LinkError::NotRunning => 3,
            LinkError::Incompatible | LinkError::TooOld { .. } => 4,
            LinkError::NoSessionBus(_) | LinkError::Transport(_) => 5,
        }
    }

    /// The sentence to show.
    pub fn message(&self) -> (r: String)
        ensures
            r@ == self@.sentence(),
    {
        match self {
            LinkError::NoSessionBus(e) => {
                let mut s = "No session bus to reach (".to_owned();
                s.append(e.as_str());
                s.append(
                    "). This runs inside a desktop session; over SSH, point DBUS_SESSION_BUS_ADDRESS at the user bus.",
                );
                s
            },
            LinkError::NotRunning => {
                let mut s =
                    "The rclone-vfsmount-tray service is not running. Start it with:\n    ".to_owned();
                s.append(START_HINT);
                s.append(
                    "\nThis says nothing about your mounts: any that were up are still up.",
                );
                s
            },
            LinkError::Incompatible => {
                let mut s = "The service on this bus does not answer ".to_owned();
                s.append(INTERFACE_NAME);
                s.append(
                    ". It is a different, incompatible version of the interface; update the client and service to match.",
                );
                s
            },
            LinkError::TooOld { needed, found } => {
                let mut s = "This command needs interface version ".to_owned();
                s.append(decimal(*needed as u64).as_str());
                s.append(", but the service provides ");
                s.append(decimal(*found as u64).as_str());
                s.append(". Update rclone-vfsmount-trayd.");
                s
            },
            LinkError::Refused(Some(t)) => t.clone(),
            LinkError::Refused(None) => "the service refused the request".to_owned(),
            LinkError::Transport(e) => {
                let mut s = "The service could not be reached: ".to_owned();
                s.append(e.as_str());
                s
            },
        }
    }
}

/// The three ways a call fails at the wire, told apart by the D-Bus error name.
#[derive(Debug, Clone, Copy, PartialEq, Eq, Structural)]
pub enum Wire {
    NotRunning,
    Incompatible,
    Transport,
}

/// What a D-Bus error name says of the wire. Not knowing the interface, the object or the
/// member is a service too different to talk to, not a stopped one.
pub open spec fn wire_of_name(name: Seq<char>) -> Wire {
    if name == "org.freedesktop.DBus.Error.ServiceUnknown"@ || name
        == "org.freedesktop.DBus.Error.NameHasNoOwner"@ {
        Wire::NotRunning
    } else if name == "org.freedesktop.DBus.Error.UnknownInterface"@ || name
        == "org.freedesktop.DBus.Error.UnknownObject"@ || name
        == "org.freedesktop.DBus.Error.UnknownMethod"@ || name
        == "org.freedesktop.DBus.Error.UnknownProperty"@ {
        Wire::Incompatible
    } else {
        Wire::Transport
    }
}

/// Sort a D-Bus error name.
pub fn classify_error_name(name: &str) -> (r: Wire)
    ensures
        r == wire_of_name(name@),
{
    if same_text(name, "org.freedesktop.DBus.Error.ServiceUnknown") || same_text(
        name,
        "org.freedesktop.DBus.Error.NameHasNoOwner",
    ) {
        Wire::NotRunning
    } else if same_text(name, "org.freedesktop.DBus.Error.UnknownInterface") || same_text(
        name,
        "org.freedesktop.DBus.Error.UnknownObject",
    ) || same_text(name, "org.freedesktop.DBus.Error.UnknownMethod") || same_text(
        name,
        "org.freedesktop.DBus.Error.UnknownProperty",
    ) {
        Wire::Incompatible
    } else {
        Wire::Transport
    }
}

/// What a failed call says of the wire. One without an error name never got an answer.
pub open spec fn wire_of(e: BusFailure<Seq<char>>) -> Wire {
    match e.name {
        Some(n) => wire_of_name(n),
        None => Wire::Transport,
    }
}

/// Sort a failed call.
pub fn classify(e: &BusFailure) -> (r: Wire)
    ensures
        r == wire_of(e@),
{
    match &e.name {
        Some(n) => classify_error_name(n.as_str()),
        None => Wire::Transport,
    }
}

/// A failed call as a failure of the link.
pub open spec fn link_failure(e: BusFailure<Seq<char>>) -> LinkError<Seq<char>> {
    match wire_of(e) {
        Wire::NotRunning => LinkError::NotRunning,
        Wire::Incompatible => LinkError::Incompatible,
        Wire::Transport => LinkError::Transport(e.text),
    }
}

/// Sort a failed call into the kinds of failures of the link. The verdict does not depend
/// on which call it was that failed.
pub fn from_zbus(e: BusFailure) -> (r: LinkError)
    ensures
        r@ == link_failure(e@),
{
    match classify(&e) {
        Wire::NotRunning => LinkError::NotRunning,
        Wire::Incompatible => LinkError::Incompatible,
        Wire::Transport => LinkError::Transport(e.text),
    }
}

/// A call that brought no reply as a failure of the link. A refusal keeps its words.
pub open spec fn call_failure(e: IpcError<Seq<char>>) -> LinkError<Seq<char>> {
    match e {
        IpcError::ZBus(z) => link_failure(z),
        IpcError::UnknownMount(t) => LinkError::Refused(Some(t)),
        IpcError::NotManaged(t) => LinkError::Refused(Some(t)),
        IpcError::Busy(t) => LinkError::Refused(Some(t)),
        IpcError::Refused(t) => LinkError::Refused(t),
    }
}

/// A call that brought no reply as a failure of the link.
pub fn from_ipc(e: IpcError) -> (r: LinkError)
    ensures
        r@ == call_failure(e@),
{
    match e {
        IpcError::ZBus(z) => from_zbus(z),
        IpcError::UnknownMount(t) | IpcError::NotManaged(t) | IpcError::Busy(t) => {
            LinkError::Refused(Some(t))
        },
        IpcError::Refused(t) => LinkError::Refused(t),
    }
}

/// Whether a service that reports this interface version can be talked to. A newer one can.
pub open spec fn handshake_result(version: u32) -> Result<(), LinkError<Seq<char>>> {
    if version < MIN_INTERFACE {
        Err(LinkError::TooOld { needed: MIN_INTERFACE, found: version })
    } else {
        Ok(())
    }
}

/// Check that the service speaks a version this build can use. Reading the version first
/// is where an absent or incompatible interface shows as one clear failure, instead of each
/// later call failing on its own.
pub fn handshake(version: u32) -> (r: Result<(), LinkError>)
    ensures
        match r {
            Ok(_) => handshake_result(version) is Ok,
            Err(e) => handshake_result(version) == Err::<(), _>(e@),
        },
{
    if version < MIN_INTERFACE {
        return Err(LinkError::TooOld { needed: MIN_INTERFACE, found: version });
    }
    Ok(())
}

/// A failure of the link that is no refusal says nothing about a mount: only the service's
/// own refusals exit with one, and every exit code names its kind.
pub proof fn only_a_refusal_speaks_of_a_mount(e: LinkError<Seq<char>>)
    ensures
        e.code() == 1 <==> e is Refused,
        e.code() == 3 <==> e is NotRunning,
        e.code() == 4 <==> (e is Incompatible || e is TooOld),
        e.code() == 5 <==> (e is NoSessionBus || e is Transport),
{
}

/// How long to wait before trying the link again.
///
/// Only failures that are not a stopped service back off: an absent service is waited for on
/// the bus and costs nothing.
#[derive(Debug)]
pub struct Backoff {
    next_secs: u64,
}

impl Backoff {
    /// The first wait, in seconds.
    pub const FIRST: u64 = 1;

    /// The longest wait, in seconds.
    pub const CEILING: u64 = 60;

    /// The wait that comes next, in seconds.
    pub closed spec fn next(self) -> u64 {
        self.next_secs
    }

    /// The wait lies between the first and the longest.
    #[verifier::type_invariant]
    closed spec fn in_range(self) -> bool {
        Backoff::FIRST <= self.next_secs <= Backoff::CEILING
    }

    /// A wait that has not been taken yet.
    pub fn new() -> (r: Backoff)
        ensures
            r.next() == Backoff::FIRST,
    {
        Backoff { next_secs: Backoff::FIRST }
    }

    /// The delay to wait now, in seconds, doubling the one after it up to the ceiling.
    pub fn take(&mut self) -> (secs: u64)
        ensures
            secs == old(self).next(),
            Backoff::FIRST <= secs <= Backoff::CEILING,
            final(self).next() == longer(secs),
    {
        proof {
            use_type_invariant(&*self);
        }
        let now: u64 = self.next_secs;
        let doubled: u64 = now * 2;
        self.next_secs = if doubled < Backoff::CEILING {
            doubled
        } else {
            Backoff::CEILING
        };
        now
    }

    /// Back to the first wait, after a connection that worked.
    pub fn reset(&mut self)
        ensures
            final(self).next() == Backoff::FIRST,
    {
        self.next_secs = Backoff::FIRST;
    }
}

/// The wait that follows a wait.
pub open spec fn longer(secs: u64) -> u64 {
    if 2 * secs < Backoff::CEILING {
        (2 * secs) as u64
    } else {
        Backoff::CEILING
    }
}

/// The wait after so many waits.
pub open spec fn wait_after(n: nat) -> u64
    decreases n,
{
    if n == 0 {
        Backoff::FIRST
    } else {
        longer(wait_after((n - 1) as nat))
    }
}

/// Without a reset the wait never shortens, and a long outage does not grow it without
/// bound: from the seventh on every wait is the longest.
pub proof fn the_wait_grows_to_the_ceiling(n: nat)
    ensures
        wait_after(n) <= wait_after(n + 1) <= Backoff::CEILING,
        n >= 6 ==> wait_after(n) == Backoff::CEILING,
    decreases n,
{
    if n > 0 {
        the_wait_grows_to_the_ceiling((n - 1) as nat);
    }
    if n <= 6 {
        reveal_with_fuel(wait_after, 8);
    }
}

} // verus!
