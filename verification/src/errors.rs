//! What can go wrong in supervising a mount, and what a bus can answer instead of a reply.

use crate::text::opt_text;
use vstd::prelude::*;

verus! {

/// Why a mount operation did not do what was asked. `source` is what an underlying failure
/// said, where there was one.
#[derive(Debug, Clone, PartialEq, Eq)]
pub enum SupervisorError<S = String> {
    /// No mount goes by this name.
    UnknownMount(S),
    /// What is there is not this service's to act on.
    NotManaged(S),
    /// The mount point is in use.
    Busy { detail: S },
    /// rclone did not come up.
    RcloneFailed { reason: S, source: Option<S> },
    /// Nothing can be mounted onto this path.
    BadMountPoint { path: S, reason: S, source: Option<S> },
    /// The machinery around the mount failed.
    Supervision { context: S, source: Option<S> },
}

impl View for SupervisorError {
    type V = SupervisorError<Seq<char>>;

    open spec fn view(&self) -> SupervisorError<Seq<char>> {
        match *self {
            SupervisorError::UnknownMount(n) => SupervisorError::UnknownMount(n@),
            SupervisorError::NotManaged(n) => SupervisorError::NotManaged(n@),
            SupervisorError::Busy { detail } => SupervisorError::Busy { detail: detail@ },
            SupervisorError::RcloneFailed { reason, source } => SupervisorError::RcloneFailed {
                reason: reason@,
                source: opt_text(source),
            },
            SupervisorError::BadMountPoint { path, reason, source } => {
                SupervisorError::BadMountPoint {
                    path: path@,
                    reason: reason@,
                    source: opt_text(source),
                }
            },
            SupervisorError::Supervision { context, source } => SupervisorError::Supervision {
                context: context@,
                source: opt_text(source),
            },
        }
    }
}

/// A result by its view.
pub open spec fn outcome<T>(r: Result<T, SupervisorError>) -> Result<
    T,
    SupervisorError<Seq<char>>,
> {
    match r {
        Ok(v) => Ok(v),
        Err(e) => Err(e@),
    }
}

/// What a call over the bus failed with.
#[derive(Debug, Clone, PartialEq, Eq)]
pub struct BusFailure<S = String> {
    /// The D-Bus error name, where the other side answered with an error reply.
    pub name: Option<S>,
    /// The message that came with that reply.
    pub message: Option<S>,
    /// The failure in words.
    pub text: S,
}

impl View for BusFailure {
    type V = BusFailure<Seq<char>>;

    open spec fn view(&self) -> BusFailure<Seq<char>> {
        BusFailure { name: opt_text(self.name), message: opt_text(self.message), text: self.text@ }
    }
}

} // verus!
