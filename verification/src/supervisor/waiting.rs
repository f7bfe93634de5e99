//! Waiting for what an operation set going. Each function is one look: it says whether the
//! wait is over, or what to look at next.

use crate::config::Mount;
use crate::errors::SupervisorError;
use crate::supervisor::state::{failure_reason, failure_text};
use crate::systemd::UnitStatus;
use crate::text::{decimal, digits, opt_text, trim_end, trimmed_end};
use vstd::prelude::*;
use vstd::string::*;

verus! {

/// How long to wait for a mount point to start serving, in milliseconds. Covers a token
/// refresh and the first listing of a cold remote, not just process startup.
pub const READY_TIMEOUT_MS: u64 = 45_000;

/// How long to wait for a mount point to be released after its unit was stopped.
pub const GONE_TIMEOUT_MS: u64 = 30_000;

/// How long to wait for systemd to free a unit's name.
pub const UNIT_GONE_TIMEOUT_MS: u64 = 35_000;

/// How long to sleep between two looks.
pub const POLL_INTERVAL_MS: u64 = 250;

/// Whether a wait is over.
pub enum Wait<S = String> {
    Over,
    Failed(SupervisorError<S>),
    /// Look again after a sleep.
    Sleep,
    /// Find out the unit's status first.
    AskStatus,
    /// Find out what the unit said first.
    AskOutput,
}

impl View for Wait {
    type V = Wait<Seq<char>>;

    open spec fn view(&self) -> Wait<Seq<char>> {
        match *self {
            Wait::Over => Wait::Over,
            Wait::Failed(e) => Wait::Failed(e@),
            Wait::Sleep => Wait::Sleep,
            Wait::AskStatus => Wait::AskStatus,
            Wait::AskOutput => Wait::AskOutput,
        }
    }
}

/// What is said of a mount point that did not start serving in time.
pub open spec fn late_text(m: Mount<Seq<char>>, timeout_ms: u64, said: Seq<char>) -> Seq<char> {
    trimmed_end(
        m.mount_point + " did not start serving within "@ + digits((timeout_ms / 1000) as nat)
            + "s. "@ + failure_text(m.unit(), said),
    )
}

/// One look at a mount that is coming up. `late` is whether the time is up.
pub open spec fn readiness(
    m: Mount<Seq<char>>,
    timeout_ms: u64,
    mounted: bool,
    status: Option<UnitStatus>,
    late: bool,
    said: Option<Seq<char>>,
) -> Wait<Seq<char>> {
    if mounted {
        Wait::Over
    } else {
        match (status, said) {
            (None, _) => Wait::AskStatus,
            (Some(UnitStatus::Failed), None) => Wait::AskOutput,
            (Some(UnitStatus::Failed), Some(said)) => Wait::Failed(
                SupervisorError::RcloneFailed { reason: failure_text(m.unit(), said), source: None },
            ),
            (Some(_), None) => if late {
                Wait::AskOutput
            } else {
                Wait::Sleep
            },
            (Some(_), Some(said)) => if late {
                Wait::Failed(
                    SupervisorError::RcloneFailed {
                        reason: late_text(m, timeout_ms, said),
                        source: None,
                    },
                )
            } else {
                Wait::Sleep
            },
        }
    }
}

/// One look at a mount that is coming up. The kernel is asked, not the unit: a unit is
/// active seconds before its mount point answers. A unit that has already failed will never
/// become ready, so waiting out the time would only delay showing the user why.
pub fn await_ready(
    m: &Mount,
    timeout_ms: u64,
    mounted: bool,
    status: Option<UnitStatus>,
    late: bool,
    said: Option<String>,
) -> (r: Wait)
    ensures
        r@ == readiness(m@, timeout_ms, mounted, status, late, opt_text(said)),
{
    if mounted {
        return Wait::Over;
    }
    let status = match status {
        None => {
            return Wait::AskStatus;
        },
        Some(s) => s,
    };
    let failed = match status {
        UnitStatus::Failed => true,
        _ => false,
    };
    if !failed && !late {
        return Wait::Sleep;
    }
    let said = match said {
        None => {
            return Wait::AskOutput;
        },
        Some(t) => t,
    };
    let reason = failure_reason(m.unit_name().as_str(), said);
    if failed {
        return Wait::Failed(SupervisorError::RcloneFailed { reason, source: None });
    }
    let mut s = m.mount_point.clone();
    s.append(" did not start serving within ");
    s.append(decimal(timeout_ms / 1000).as_str());
    s.append("s. ");
    s.append(reason.as_str());
    Wait::Failed(SupervisorError::RcloneFailed { reason: trim_end(s.as_str()), source: None })
}

/// What is said of a unit that did not go in time.
pub open spec fn lingering_text(unit: Seq<char>, timeout_ms: u64) -> Seq<char> {
    unit + " is still shutting down after "@ + digits((timeout_ms / 1000) as nat) + "s"@
}

/// One look at a unit that is to stop occupying its name.
pub open spec fn unit_departure(
    unit: Seq<char>,
    timeout_ms: u64,
    status: UnitStatus,
    late: bool,
) -> Wait<Seq<char>> {
    if status == UnitStatus::Inactive || status == UnitStatus::Failed {
        Wait::Over
    } else if late {
        Wait::Failed(
            SupervisorError::Supervision {
                context: lingering_text(unit, timeout_ms),
                source: None,
            },
        )
    } else {
        Wait::Sleep
    }
}

/// One look at a unit that is to stop occupying its name. Stopping a unit only enqueues a
/// job, so the name is still taken when that returns, and a remount straight after would
/// collide with it.
pub fn await_unit_gone(unit: &str, timeout_ms: u64, status: UnitStatus, late: bool) -> (r: Wait)
    ensures
        r@ == unit_departure(unit@, timeout_ms, status, late),
{
    match status {
        UnitStatus::Inactive | UnitStatus::Failed => Wait::Over,
        _ => if late {
            let mut s = unit.to_owned();
            s.append(" is still shutting down after ");
            s.append(decimal(timeout_ms / 1000).as_str());
            s.append("s");
            Wait::Failed(SupervisorError::Supervision { context: s, source: None })
        } else {
            Wait::Sleep
        },
    }
}

/// One look at a mount point that is to go: whether it went, or `None` to look again.
pub fn await_gone(mounted: bool, late: bool) -> (r: Option<bool>)
    ensures
        r == (if !mounted {
            Some(true)
        } else if late {
            Some(false)
        } else {
            None
        }),
{
    if !mounted {
        Some(true)
    } else if late {
        Some(false)
    } else {
        None
    }
}

/// A wait for a mount to come up never outlasts its time: once it is up, everything asked
/// for is answered and the wait is over or has failed.
pub proof fn a_wait_ends_when_its_time_is_up(
    m: Mount<Seq<char>>,
    timeout_ms: u64,
    mounted: bool,
    status: UnitStatus,
    said: Seq<char>,
)
    ensures
        readiness(m, timeout_ms, mounted, Some(status), true, Some(said)) is Over <==> mounted,
        readiness(m, timeout_ms, mounted, Some(status), true, Some(said)) is Failed <==> !mounted,
        !(unit_departure(m.unit(), timeout_ms, status, true) is Sleep),
{
}

} // verus!
