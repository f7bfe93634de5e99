//! Bringing a mount up, one question at a time.
//!
//! [`Start`] decides; whoever drives it performs each [`StartAsk`] and hands the answer back.

use crate::config::Mount;
use crate::errors::{outcome, SupervisorError};
use crate::mountinfo::{is_mounted_at, mounted_at, MountEntry};
use crate::supervisor::orphans::Target;
use crate::supervisor::targets::{
    find_target, first_target, refuse_to_take_over, take_over, Wanted,
};
use crate::supervisor::unmount::{Release, Timeouts};
use crate::systemd::{UnitSpec, UnitStatus};
use crate::text::{finishes_with, opt_text, strip_suffix, texts, views};
use vstd::prelude::*;
use vstd::string::*;

verus! {

/// What the error is for mounting a name that no configuration entry has.
pub open spec fn unconfigured_refusal(
    name: Seq<char>,
    orphans: Seq<Target<Seq<char>>>,
) -> SupervisorError<Seq<char>> {
    match find_target(orphans, Wanted::Named(name)) {
        None => SupervisorError::UnknownMount(name),
        Some(o) => SupervisorError::NotManaged(
            name + " is a leftover unit, "@ + o.unit
                + ", not a configured mount — nothing describes what to start. Unmount it instead."@,
        ),
    }
}

/// Why a name that no configuration entry has cannot be mounted. An orphan answers to its
/// name everywhere else, so saying that no mount is configured under it would be wrong: it
/// is listed, and it is running. There is simply nothing left describing how to start it.
pub fn mount_unconfigured(name: &str, orphans: &Vec<Target>) -> (r: SupervisorError)
    ensures
        r@ == unconfigured_refusal(name@, views(orphans@)),
{
    match first_target(orphans, Wanted::Named(name)) {
        None => SupervisorError::UnknownMount(name.to_owned()),
        Some(o) => {
            let mut s = name.to_owned();
            s.append(" is a leftover unit, ");
            s.append(o.unit.as_str());
            s.append(
                ", not a configured mount — nothing describes what to start. Unmount it instead.",
            );
            SupervisorError::NotManaged(s)
        },
    }
}

/// The command that clears leftovers before rclone is exec'd.
///
/// None when this binary is not known, or no longer where it was started from: the mount
/// still starts, it just will not recover from a hard kill. The kernel marks the path of a
/// replaced binary as deleted.
pub open spec fn hook_for(
    exe: Option<Seq<char>>,
    is_file: bool,
    config_path: Seq<char>,
    name: Seq<char>,
) -> Option<(Seq<char>, Seq<Seq<char>>)> {
    match exe {
        None => None,
        Some(bin) => if !is_file || finishes_with(bin, " (deleted)"@) {
            None
        } else {
            Some((bin, seq!["--config"@, config_path, "prepare-mount"@, "--name"@, name]))
        },
    }
}

/// The command that clears leftovers before rclone is exec'd, given the path of this binary
/// where it is known, and whether there is a file at it. A transient unit runs from the
/// user manager's environment, so it is told which configuration this service was loaded
/// from, and before the subcommand: `--config` is not a global argument.
pub fn pre_start_hook(exe: Option<&str>, is_file: bool, config_path: &str, name: &str) -> (r:
    Option<(String, Vec<String>)>)
    ensures
        match r {
            Some((bin, args)) => hook_for(
                match exe {
                    Some(e) => Some(e@),
                    None => None,
                },
                is_file,
                config_path@,
                name@,
            ) == Some((bin@, texts(args@))),
            None => hook_for(
                match exe {
                    Some(e) => Some(e@),
                    None => None,
                },
                is_file,
                config_path@,
                name@,
            ) is None,
        },
{
    let bin = match exe {
        None => {
            return None;
        },
        Some(e) => e,
    };
    if !is_file || strip_suffix(bin, " (deleted)").is_some() {
        return None;
    }
    let mut args: Vec<String> = Vec::new();
    args.push("--config".to_owned());
    args.push(config_path.to_owned());
    args.push("prepare-mount".to_owned());
    args.push("--name".to_owned());
    args.push(name.to_owned());
    assert(texts(args@) == seq!["--config"@, config_path@, "prepare-mount"@, "--name"@, name@]);
    Some((bin.to_owned(), args))
}

/// Everything a unit is made from.
pub struct Plan<S = String, L = Vec<String>> {
    pub mount: Mount<S>,
    pub rclone: S,
    /// What the configuration adds to what rclone is told.
    pub options: L,
    /// The rc socket that rclone will listen on.
    pub socket: S,
    /// The configuration this service was loaded from.
    pub config_path: S,
    /// The path of this binary, where it is known.
    pub exe: Option<S>,
    /// Whether there is a file at that path.
    pub exe_is_file: bool,
}

/// A plan by its view.
pub type PlanModel = Plan<Seq<char>, Seq<Seq<char>>>;

impl View for Plan {
    type V = PlanModel;

    open spec fn view(&self) -> PlanModel {
        Plan {
            mount: self.mount@,
            rclone: self.rclone@,
            options: texts(self.options@),
            socket: self.socket@,
            config_path: self.config_path@,
            exe: opt_text(self.exe),
            exe_is_file: self.exe_is_file,
        }
    }
}

/// The file mode mask a unit runs under. An ordinary one, because rclone applies it to every
/// file it creates inside the mount.
pub const UNIT_UMASK: u32 = 18;

impl Plan<Seq<char>, Seq<Seq<char>>> {
    /// The unit to start.
    pub open spec fn unit_spec(self) -> UnitSpec<Seq<char>, Seq<Seq<char>>> {
        UnitSpec {
            name: self.mount.unit(),
            description: "rclone mount "@ + self.mount.spec_text() + " at "@
                + self.mount.mount_point,
            executable: self.rclone,
            args: self.mount.arguments(self.socket, self.options),
            pre_start: hook_for(
                self.exe,
                self.exe_is_file,
                self.config_path,
                self.mount.name,
            ),
            umask: UNIT_UMASK,
        }
    }
}

impl Plan {
    /// The unit to start.
    pub fn to_unit_spec(&self) -> (r: UnitSpec)
        ensures
            r@ == self@.unit_spec(),
    {
        let mut description = "rclone mount ".to_owned();
        description.append(self.mount.fs_spec().as_str());
        description.append(" at ");
        description.append(self.mount.mount_point.as_str());
        let exe = match &self.exe {
            Some(e) => Some(e.as_str()),
            None => None,
        };
        UnitSpec {
            name: self.mount.unit_name(),
            description,
            executable: self.rclone.clone(),
            args: self.mount.mount_args(self.socket.as_str(), &self.options),
            pre_start: pre_start_hook(
                exe,
                self.exe_is_file,
                self.config_path.as_str(),
                self.mount.name.as_str(),
            ),
            umask: UNIT_UMASK,
        }
    }
}

/// Where bringing a mount up has got to: what is to be asked next.
#[derive(Debug, Clone, Copy, PartialEq, Eq, Structural)]
pub enum StartPhase {
    /// Which units of ours serve what the configuration no longer names?
    ReadOrphans,
    /// What does the mount point resolve to?
    Resolve,
    /// Is anything mounted there?
    ReadMounts,
    /// Is it mounted, but no longer served?
    ReadStale,
    /// It is: does an orphan stand behind it?
    GuardRelease,
    /// Clear it.
    ReleaseStale,
    /// It is served: what is the mount's own unit doing?
    ReadStatus,
    /// Nothing under its name: does an orphan serve it?
    GuardStart,
    /// Wait for a unit on its way out.
    AwaitDeparture,
    /// Make sure the mount point is a directory.
    PreparePoint,
    /// Make sure the runtime directory is there, and private.
    PrepareRuntime,
    /// What is the unit doing now?
    ReadStatusAgain,
    /// Wait for a unit that is coming up already.
    AwaitComing,
    /// Wait for a unit still shutting down.
    AwaitShutdown,
    /// Remove what is left of the rc socket.
    ClearSocket,
    /// Free the unit's name.
    ResetFailed,
    /// Start the unit.
    StartUnit,
    /// Wait for the mount point to serve.
    AwaitReady,
}

/// What to do next, and report back.
#[derive(Debug, Clone, PartialEq, Eq)]
pub enum StartAsk<S = String, L = Vec<String>> {
    /// Sweep for orphans.
    Orphans,
    /// Resolve a path.
    Resolve(S),
    /// Read the mount table.
    Mounts,
    /// Probe whether a mounted point is served.
    Stale(S),
    /// Read a unit's status.
    Status(S),
    /// Ask the kernel for a mount point.
    Release(S, Release),
    /// Wait, this many milliseconds at most, for a unit to be gone.
    AwaitUnitGone(S, u64),
    /// Make sure a path is a directory to mount onto.
    PreparePoint(S),
    /// Make sure the runtime directory exists and is private.
    PrepareRuntime,
    /// Remove a socket file, if it is there.
    ClearSocket(S),
    /// Clear a failed unit.
    ResetFailed(S),
    /// Start a unit.
    Start(UnitSpec<S, L>),
    /// Wait, this many milliseconds at most, for the mount to serve.
    AwaitReady(u64),
}

impl View for StartAsk {
    type V = StartAsk<Seq<char>, Seq<Seq<char>>>;

    open spec fn view(&self) -> StartAsk<Seq<char>, Seq<Seq<char>>> {
        match *self {
            StartAsk::Orphans => StartAsk::Orphans,
            StartAsk::Resolve(p) => StartAsk::Resolve(p@),
            StartAsk::Mounts => StartAsk::Mounts,
            StartAsk::Stale(p) => StartAsk::Stale(p@),
            StartAsk::Status(u) => StartAsk::Status(u@),
            StartAsk::Release(p, how) => StartAsk::Release(p@, how),
            StartAsk::AwaitUnitGone(u, ms) => StartAsk::AwaitUnitGone(u@, ms),
            StartAsk::PreparePoint(p) => StartAsk::PreparePoint(p@),
            StartAsk::PrepareRuntime => StartAsk::PrepareRuntime,
            StartAsk::ClearSocket(p) => StartAsk::ClearSocket(p@),
            StartAsk::ResetFailed(u) => StartAsk::ResetFailed(u@),
            StartAsk::Start(s) => StartAsk::Start(s@),
            StartAsk::AwaitReady(ms) => StartAsk::AwaitReady(ms),
        }
    }
}

/// What came of a [`StartAsk`].
pub enum StartAnswer<S = String, T = Vec<Target>, L = Vec<MountEntry>> {
    Orphans(Result<T, SupervisorError<S>>),
    Path(S),
    Mounts(L),
    Stale(bool),
    Status(Result<UnitStatus, SupervisorError<S>>),
    /// Of everything else.
    Done(Result<(), SupervisorError<S>>),
}

/// An answer by its view.
pub type StartAnswerModel = StartAnswer<
    Seq<char>,
    Seq<Target<Seq<char>>>,
    Seq<MountEntry<Seq<char>>>,
>;

impl View for StartAnswer {
    type V = StartAnswerModel;

    open spec fn view(&self) -> StartAnswerModel {
        match *self {
            StartAnswer::Orphans(r) => StartAnswer::Orphans(
                match r {
                    Ok(v) => Ok(views(v@)),
                    Err(e) => Err(e@),
                },
            ),
            StartAnswer::Path(p) => StartAnswer::Path(p@),
            StartAnswer::Mounts(m) => StartAnswer::Mounts(views(m@)),
            StartAnswer::Stale(b) => StartAnswer::Stale(b),
            StartAnswer::Status(r) => StartAnswer::Status(outcome(r)),
            StartAnswer::Done(r) => StartAnswer::Done(outcome(r)),
        }
    }
}

/// A mount being brought up.
pub struct Start<S = String, L = Vec<String>> {
    pub plan: Plan<S, L>,
    pub timeouts: Timeouts,
    pub phase: StartPhase,
    /// The mount point as the kernel will report it.
    pub point: S,
    /// What the unit was doing when something was found mounted already.
    pub status: UnitStatus,
}

/// A mount being brought up, by its view.
pub type StartModel = Start<Seq<char>, Seq<Seq<char>>>;

impl View for Start {
    type V = StartModel;

    open spec fn view(&self) -> StartModel {
        Start {
            plan: self.plan@,
            timeouts: self.timeouts,
            phase: self.phase,
            point: self.point@,
            status: self.status,
        }
    }
}

/// Whether bringing a mount up goes on, and how it ended if not.
pub enum StartStep<S = String, L = Vec<String>> {
    Go(Start<S, L>),
    Finished(Result<(), SupervisorError<S>>),
}

/// A step by its view.
pub type StartStepModel = StartStep<Seq<char>, Seq<Seq<char>>>;

impl View for StartStep {
    type V = StartStepModel;

    open spec fn view(&self) -> StartStepModel {
        match *self {
            StartStep::Go(s) => StartStep::Go(s@),
            StartStep::Finished(r) => StartStep::Finished(outcome(r)),
        }
    }
}

/// What is said when the mount's own unit serves the path its entry had before.
pub open spec fn moved_refusal(name: Seq<char>, o: Target<Seq<char>>) -> Seq<char> {
    name + ": "@ + o.unit + " is still serving "@ + o.point
        + ", the mount point this entry had before it was changed. Unmount "@ + name
        + " first, then mount it again."@
}

/// What is said when something else is mounted at the point.
pub open spec fn taken_refusal(name: Seq<char>, point: Seq<char>) -> Seq<char> {
    name + ": "@ + point + " is already mounted by something we did not start"@
}

impl Start<Seq<char>, Seq<Seq<char>>> {
    /// A mount to be brought up, before anything was asked.
    pub open spec fn fresh(plan: PlanModel, timeouts: Timeouts) -> StartModel {
        Start {
            plan,
            timeouts,
            phase: StartPhase::ReadOrphans,
            point: plan.mount.mount_point,
            status: UnitStatus::Inactive,
        }
    }

    /// The unit that the mount runs as.
    pub open spec fn unit(self) -> Seq<char> {
        self.plan.mount.unit()
    }

    /// The same mount in another phase.
    pub open spec fn to(self, phase: StartPhase) -> StartStepModel {
        StartStep::Go(Start { phase, ..self })
    }

    /// What follows when the point is mounted and served, by what its own unit is doing.
    pub open spec fn already_served(self) -> StartStepModel {
        match self.status {
            UnitStatus::Active | UnitStatus::Activating => StartStep::Finished(Ok(())),
            UnitStatus::Deactivating => self.to(StartPhase::AwaitDeparture),
            UnitStatus::Failed => self.to(StartPhase::PreparePoint),
            UnitStatus::Inactive => StartStep::Finished(
                Err(SupervisorError::NotManaged(taken_refusal(self.plan.mount.name, self.point))),
            ),
        }
    }

    /// What is to be asked in this phase.
    pub open spec fn asks(self) -> StartAsk<Seq<char>, Seq<Seq<char>>> {
        match self.phase {
            StartPhase::ReadOrphans | StartPhase::GuardRelease | StartPhase::GuardStart => {
                StartAsk::Orphans
            },
            StartPhase::Resolve => StartAsk::Resolve(self.plan.mount.mount_point),
            StartPhase::ReadMounts => StartAsk::Mounts,
            StartPhase::ReadStale => StartAsk::Stale(self.point),
            StartPhase::ReleaseStale => StartAsk::Release(self.point, Release::Refuse),
            StartPhase::ReadStatus | StartPhase::ReadStatusAgain => StartAsk::Status(self.unit()),
            StartPhase::AwaitDeparture | StartPhase::AwaitShutdown => StartAsk::AwaitUnitGone(
                self.unit(),
                self.timeouts.unit_gone_ms,
            ),
            StartPhase::PreparePoint => StartAsk::PreparePoint(self.plan.mount.mount_point),
            StartPhase::PrepareRuntime => StartAsk::PrepareRuntime,
            StartPhase::AwaitComing | StartPhase::AwaitReady => StartAsk::AwaitReady(
                self.timeouts.ready_ms,
            ),
            StartPhase::ClearSocket => StartAsk::ClearSocket(self.plan.socket),
            StartPhase::ResetFailed => StartAsk::ResetFailed(self.unit()),
            StartPhase::StartUnit => StartAsk::Start(self.plan.unit_spec()),
        }
    }

    /// Whether an answer is one to what is asked.
    pub open spec fn fits(self, a: StartAnswerModel) -> bool {
        match self.asks() {
            StartAsk::Orphans => a is Orphans,
            StartAsk::Resolve(_) => a is Path,
            StartAsk::Mounts => a is Mounts,
            StartAsk::Stale(_) => a is Stale,
            StartAsk::Status(_) => a is Status,
            _ => a is Done,
        }
    }

    /// What the orphans found lead to.
    pub open spec fn on_orphans(self, orphans: Seq<Target<Seq<char>>>) -> StartStepModel {
        let name = self.plan.mount.name;
        match self.phase {
            StartPhase::ReadOrphans => match find_target(orphans, Wanted::OfUnit(self.unit())) {
                Some(o) => StartStep::Finished(
                    Err(SupervisorError::NotManaged(moved_refusal(name, o))),
                ),
                None => self.to(StartPhase::Resolve),
            },
            StartPhase::GuardRelease => match take_over(name, self.point, orphans) {
                Ok(_) => self.to(StartPhase::ReleaseStale),
                Err(e) => StartStep::Finished(Err(e)),
            },
            StartPhase::GuardStart => match take_over(name, self.point, orphans) {
                Ok(_) => self.already_served(),
                Err(e) => StartStep::Finished(Err(e)),
            },
            _ => StartStep::Go(self),
        }
    }

    /// What a status leads to.
    pub open spec fn on_status(self, status: UnitStatus) -> StartStepModel {
        match self.phase {
            StartPhase::ReadStatus => {
                let known = Start { status, ..self };
                if status.serves() {
                    known.already_served()
                } else {
                    known.to(StartPhase::GuardStart)
                }
            },
            StartPhase::ReadStatusAgain => match status {
                UnitStatus::Active | UnitStatus::Activating => self.to(StartPhase::AwaitComing),
                UnitStatus::Deactivating => self.to(StartPhase::AwaitShutdown),
                _ => self.to(StartPhase::ClearSocket),
            },
            _ => StartStep::Go(self),
        }
    }

    /// What it leads to that something was done.
    pub open spec fn on_done(self) -> StartStepModel {
        match self.phase {
            StartPhase::ReleaseStale | StartPhase::AwaitDeparture => self.to(
                StartPhase::PreparePoint,
            ),
            StartPhase::PreparePoint => self.to(StartPhase::PrepareRuntime),
            StartPhase::PrepareRuntime => self.to(StartPhase::ReadStatusAgain),
            StartPhase::AwaitShutdown => self.to(StartPhase::ClearSocket),
            StartPhase::ClearSocket => self.to(StartPhase::ResetFailed),
            StartPhase::ResetFailed => self.to(StartPhase::StartUnit),
            StartPhase::StartUnit => self.to(StartPhase::AwaitReady),
            StartPhase::AwaitComing | StartPhase::AwaitReady => StartStep::Finished(Ok(())),
            _ => StartStep::Go(self),
        }
    }

    /// What an answer leads to. A failure ends it, except one to remove the socket: rclone
    /// then says itself that it cannot listen.
    pub open spec fn next(self, a: StartAnswerModel) -> StartStepModel {
        match a {
            StartAnswer::Orphans(Ok(v)) => self.on_orphans(v),
            StartAnswer::Path(p) => if self.phase == StartPhase::Resolve {
                StartStep::Go(Start { phase: StartPhase::ReadMounts, point: p, ..self })
            } else {
                StartStep::Go(self)
            },
            StartAnswer::Mounts(m) => if self.phase == StartPhase::ReadMounts {
                if mounted_at(m, self.point) {
                    self.to(StartPhase::ReadStale)
                } else {
                    self.to(StartPhase::PreparePoint)
                }
            } else {
                StartStep::Go(self)
            },
            StartAnswer::Stale(stale) => if self.phase == StartPhase::ReadStale {
                if stale {
                    self.to(StartPhase::GuardRelease)
                } else {
                    self.to(StartPhase::ReadStatus)
                }
            } else {
                StartStep::Go(self)
            },
            StartAnswer::Status(Ok(status)) => self.on_status(status),
            StartAnswer::Done(Ok(_)) => self.on_done(),
            StartAnswer::Done(Err(e)) => if self.phase == StartPhase::ClearSocket {
                self.on_done()
            } else {
                StartStep::Finished(Err(e))
            },
            StartAnswer::Orphans(Err(e)) => StartStep::Finished(Err(e)),
            StartAnswer::Status(Err(e)) => StartStep::Finished(Err(e)),
        }
    }
}

/// Where a run of answers takes a mount being brought up.
pub open spec fn start_after(s: StartModel, answers: Seq<StartAnswerModel>) -> StartStepModel
    decreases answers.len(),
{
    if answers.len() == 0 {
        StartStep::Go(s)
    } else {
        match start_after(s, answers.drop_last()) {
            StartStep::Go(t) => t.next(answers.last()),
            StartStep::Finished(r) => StartStep::Finished(r),
        }
    }
}

/// Whether this answer of a run came in this phase.
pub open spec fn answered_at(
    s: StartModel,
    answers: Seq<StartAnswerModel>,
    phase: StartPhase,
    k: int,
) -> bool {
    &&& 0 <= k < answers.len()
    &&& start_after(s, answers.take(k)) matches StartStep::Go(t)
    &&& t.phase == phase
}

/// Whether every answer of a run is one to what was asked.
pub open spec fn to_the_point(s: StartModel, answers: Seq<StartAnswerModel>) -> bool {
    forall|k: int|
        0 <= k < answers.len() && start_after(s, answers.take(k)) is Go ==> start_after(
            s,
            answers.take(k),
        )->Go_0.fits(#[trigger] answers[k])
}

/// How far along a phase is.
pub open spec fn start_rank(phase: StartPhase) -> int {
    match phase {
        StartPhase::ReadOrphans => 0,
        StartPhase::Resolve => 1,
        StartPhase::ReadMounts => 2,
        StartPhase::ReadStale => 3,
        StartPhase::GuardRelease => 4,
        StartPhase::ReleaseStale => 5,
        StartPhase::ReadStatus => 6,
        StartPhase::GuardStart => 7,
        StartPhase::AwaitDeparture => 8,
        StartPhase::PreparePoint => 9,
        StartPhase::PrepareRuntime => 10,
        StartPhase::ReadStatusAgain => 11,
        StartPhase::AwaitComing => 12,
        StartPhase::AwaitShutdown => 13,
        StartPhase::ClearSocket => 14,
        StartPhase::ResetFailed => 15,
        StartPhase::StartUnit => 16,
        StartPhase::AwaitReady => 17,
    }
}

/// Whether an answer is a sweep that found no orphan running as this unit.
pub open spec fn found_free(a: StartAnswerModel, unit: Seq<char>) -> bool {
    match a {
        StartAnswer::Orphans(Ok(found)) => find_target(found, Wanted::OfUnit(unit)) is None,
        _ => false,
    }
}

/// Whether an answer is the status of a unit that is neither up nor coming up.
pub open spec fn found_down(a: StartAnswerModel) -> bool {
    match a {
        StartAnswer::Status(Ok(status)) => status != UnitStatus::Active && status
            != UnitStatus::Activating,
        _ => false,
    }
}

/// Every answer that fits takes a mount further along or ends the attempt, so it ends after
/// at most eighteen of them.
pub proof fn bringing_a_mount_up_ends(s: StartModel, a: StartAnswerModel)
    requires
        s.fits(a),
    ensures
        s.next(a) matches StartStep::Go(t) ==> start_rank(s.phase) < start_rank(t.phase) < 18,
{
}

/// Success is reported only where the mount's own unit was found up and its point served,
/// or where a wait for the point to serve succeeded. In particular never onto a mount being
/// torn down, and never onto one of somebody else's.
pub proof fn success_means_that_ours_is_serving(s: StartModel, a: StartAnswerModel)
    requires
        s.fits(a),
        s.next(a) == StartStep::<Seq<char>, Seq<Seq<char>>>::Finished(Ok(())),
    ensures
        ({
            ||| s.phase == StartPhase::AwaitComing && a->Done_0 is Ok
            ||| s.phase == StartPhase::AwaitReady && a->Done_0 is Ok
            ||| s.phase == StartPhase::ReadStatus && a == StartAnswerModel::Status(
                Ok(UnitStatus::Active),
            )
            ||| s.phase == StartPhase::GuardStart && s.status == UnitStatus::Activating
            ||| s.phase == StartPhase::GuardStart && s.status == UnitStatus::Active
        }),
{
}

/// The plan stays the one it was begun with.
pub proof fn the_plan_is_kept(
    plan: PlanModel,
    timeouts: Timeouts,
    answers: Seq<StartAnswerModel>,
)
    ensures
        start_after(StartModel::fresh(plan, timeouts), answers) matches StartStep::Go(t) ==> t.plan
            == plan && t.timeouts == timeouts,
    decreases answers.len(),
{
    if answers.len() > 0 {
        the_plan_is_kept(plan, timeouts, answers.drop_last());
    }
}

/// Where a run came through a phase with a given answer, a longer run did too.
proof fn lemma_still_answered(
    s: StartModel,
    answers: Seq<StartAnswerModel>,
    phase: StartPhase,
    k: int,
)
    requires
        answers.len() > 0,
        answered_at(s, answers.drop_last(), phase, k),
    ensures
        answered_at(s, answers, phase, k),
        answers.drop_last()[k] == answers[k],
{
    assert(answers.drop_last().take(k) == answers.take(k));
}

proof fn lemma_just_answered(s: StartModel, answers: Seq<StartAnswerModel>)
    requires
        answers.len() > 0,
        start_after(s, answers.drop_last()) is Go,
    ensures
        answered_at(
            s,
            answers,
            start_after(s, answers.drop_last())->Go_0.phase,
            answers.len() - 1,
        ),
{
    assert(answers.take(answers.len() - 1) == answers.drop_last());
}

/// A unit is started only once the sweep for orphans has found its name free, its status
/// was read as neither up nor coming up, and, right before, a failed unit of its name was
/// cleared.
pub proof fn a_unit_is_started_only_under_a_free_name(
    plan: PlanModel,
    timeouts: Timeouts,
    answers: Seq<StartAnswerModel>,
)
    requires
        to_the_point(StartModel::fresh(plan, timeouts), answers),
        start_after(StartModel::fresh(plan, timeouts), answers) is Go,
        start_after(StartModel::fresh(plan, timeouts), answers)->Go_0.phase
            == StartPhase::StartUnit,
    ensures
        exists|k: int|
            #[trigger] answered_at(
                StartModel::fresh(plan, timeouts),
                answers,
                StartPhase::ReadOrphans,
                k,
            ) && found_free(answers[k], plan.mount.unit()),
        exists|k: int|
            #[trigger] answered_at(
                StartModel::fresh(plan, timeouts),
                answers,
                StartPhase::ReadStatusAgain,
                k,
            ) && found_down(answers[k]),
        answered_at(
            StartModel::fresh(plan, timeouts),
            answers,
            StartPhase::ResetFailed,
            answers.len() - 1,
        ),
{
    let s = StartModel::fresh(plan, timeouts);
    lemma_name_was_free(plan, timeouts, answers);
    lemma_not_up(plan, timeouts, answers);
    assert(answers.len() > 0);
    lemma_just_answered(s, answers);
    lemma_last_fits(s, answers);
}

proof fn lemma_last_fits(s: StartModel, answers: Seq<StartAnswerModel>)
    requires
        to_the_point(s, answers),
        answers.len() > 0,
        start_after(s, answers.drop_last()) is Go,
    ensures
        start_after(s, answers.drop_last())->Go_0.fits(answers.last()),
        to_the_point(s, answers.drop_last()),
{
    let before = answers.drop_last();
    assert(answers.take(answers.len() - 1) == before);
    assert(answers[answers.len() - 1] == answers.last());
    assert forall|k: int|
        0 <= k < before.len() && start_after(s, before.take(k)) is Go implies start_after(
        s,
        before.take(k),
    )->Go_0.fits(#[trigger] before[k]) by {
        assert(before.take(k) == answers.take(k));
        assert(before[k] == answers[k]);
    }
}

proof fn lemma_name_was_free(
    plan: PlanModel,
    timeouts: Timeouts,
    answers: Seq<StartAnswerModel>,
)
    requires
        start_after(StartModel::fresh(plan, timeouts), answers) is Go,
        start_rank(start_after(StartModel::fresh(plan, timeouts), answers)->Go_0.phase) > 0,
    ensures
        exists|k: int|
            #[trigger] answered_at(
                StartModel::fresh(plan, timeouts),
                answers,
                StartPhase::ReadOrphans,
                k,
            ) && found_free(answers[k], plan.mount.unit()),
    decreases answers.len(),
{
    let s = StartModel::fresh(plan, timeouts);
    let before = answers.drop_last();
    the_plan_is_kept(plan, timeouts, before);
    let t = start_after(s, before)->Go_0;
    if start_rank(t.phase) > 0 {
        lemma_name_was_free(plan, timeouts, before);
        let k = choose|k: int|
            #[trigger] answered_at(s, before, StartPhase::ReadOrphans, k) && found_free(before[k], plan.mount.unit());
        lemma_still_answered(s, answers, StartPhase::ReadOrphans, k);
    } else {
        lemma_just_answered(s, answers);
    }
}

proof fn lemma_not_up(plan: PlanModel, timeouts: Timeouts, answers: Seq<StartAnswerModel>)
    requires
        start_after(StartModel::fresh(plan, timeouts), answers) is Go,
        start_rank(start_after(StartModel::fresh(plan, timeouts), answers)->Go_0.phase)
            > start_rank(StartPhase::AwaitComing),
    ensures
        exists|k: int|
            #[trigger] answered_at(
                StartModel::fresh(plan, timeouts),
                answers,
                StartPhase::ReadStatusAgain,
                k,
            ) && found_down(answers[k]),
    decreases answers.len(),
{
    let s = StartModel::fresh(plan, timeouts);
    let before = answers.drop_last();
    let t = start_after(s, before)->Go_0;
    if start_rank(t.phase) > start_rank(StartPhase::AwaitComing) {
        lemma_not_up(plan, timeouts, before);
        let k = choose|k: int|
            #[trigger] answered_at(s, before, StartPhase::ReadStatusAgain, k) && found_down(before[k]);
        lemma_still_answered(s, answers, StartPhase::ReadStatusAgain, k);
    } else {
        lemma_just_answered(s, answers);
    }
}

/// Whether this answer of a run found the point free, or freed it: nothing was mounted
/// there, a point that nothing served was given back, or what is mounted there belongs to
/// the mount's own unit, which failed or is on its way out.
pub open spec fn made_room(
    s: StartModel,
    answers: Seq<StartAnswerModel>,
    point: Seq<char>,
    k: int,
) -> bool {
    ||| answered_at(s, answers, StartPhase::ReadMounts, k) && found_unmounted(answers[k], point)
    ||| answered_at(s, answers, StartPhase::ReleaseStale, k) && was_done(answers[k])
    ||| found_status(s, answers, UnitStatus::Failed, k)
    ||| found_status(s, answers, UnitStatus::Deactivating, k)
}

/// Whether an answer is a mount table with nothing at a point.
pub open spec fn found_unmounted(a: StartAnswerModel, point: Seq<char>) -> bool {
    match a {
        StartAnswer::Mounts(m) => !mounted_at(m, point),
        _ => false,
    }
}

/// Whether an answer says that what was asked for was done.
pub open spec fn was_done(a: StartAnswerModel) -> bool {
    match a {
        StartAnswer::Done(r) => r is Ok,
        _ => false,
    }
}

/// Whether this answer of a run told what the mount's own unit was doing, when something
/// was found mounted already.
pub open spec fn found_status(
    s: StartModel,
    answers: Seq<StartAnswerModel>,
    status: UnitStatus,
    k: int,
) -> bool {
    &&& answered_at(s, answers, StartPhase::ReadStatus, k)
    &&& answers[k] == StartAnswerModel::Status(Ok(status))
}

/// Nothing is mounted over what somebody else has mounted: an attempt comes to preparing the
/// point, and so to starting a unit, only once the point was found free or was freed.
pub proof fn nothing_is_mounted_over(
    plan: PlanModel,
    timeouts: Timeouts,
    answers: Seq<StartAnswerModel>,
)
    requires
        start_after(StartModel::fresh(plan, timeouts), answers) is Go,
        start_rank(start_after(StartModel::fresh(plan, timeouts), answers)->Go_0.phase)
            >= start_rank(StartPhase::PreparePoint),
    ensures
        exists|k: int|
            #[trigger] made_room(
                StartModel::fresh(plan, timeouts),
                answers,
                start_after(StartModel::fresh(plan, timeouts), answers)->Go_0.point,
                k,
            ),
    decreases answers.len(),
{
    let s = StartModel::fresh(plan, timeouts);
    let before = answers.drop_last();
    let t = start_after(s, before)->Go_0;
    let point = start_after(s, answers)->Go_0.point;
    if start_rank(t.phase) >= start_rank(StartPhase::PreparePoint) {
        nothing_is_mounted_over(plan, timeouts, before);
        let k = choose|k: int| #[trigger] made_room(s, before, point, k);
        lemma_still_room(s, answers, point, k);
    } else {
        lemma_just_answered(s, answers);
        if t.phase == StartPhase::GuardStart || t.phase == StartPhase::AwaitDeparture {
            lemma_status_was_read(plan, timeouts, before);
            let k = choose|k: int| #[trigger] found_status(s, before, t.status, k);
            lemma_still_answered(s, answers, StartPhase::ReadStatus, k);
            assert(found_status(s, answers, t.status, k));
            assert(made_room(s, answers, point, k));
        } else {
            assert(made_room(s, answers, point, answers.len() - 1));
        }
    }
}

proof fn lemma_still_room(
    s: StartModel,
    answers: Seq<StartAnswerModel>,
    point: Seq<char>,
    k: int,
)
    requires
        answers.len() > 0,
        made_room(s, answers.drop_last(), point, k),
    ensures
        made_room(s, answers, point, k),
{
    let before = answers.drop_last();
    if answered_at(s, before, StartPhase::ReadMounts, k) {
        lemma_still_answered(s, answers, StartPhase::ReadMounts, k);
    } else if answered_at(s, before, StartPhase::ReleaseStale, k) {
        lemma_still_answered(s, answers, StartPhase::ReleaseStale, k);
    } else {
        lemma_still_answered(s, answers, StartPhase::ReadStatus, k);
    }
}

proof fn lemma_status_was_read(
    plan: PlanModel,
    timeouts: Timeouts,
    answers: Seq<StartAnswerModel>,
)
    requires
        start_after(StartModel::fresh(plan, timeouts), answers) is Go,
    ensures
        ({
            let s = StartModel::fresh(plan, timeouts);
            let t = start_after(s, answers)->Go_0;
            &&& t.phase == StartPhase::AwaitDeparture ==> t.status == UnitStatus::Deactivating
            &&& t.phase == StartPhase::GuardStart || t.phase == StartPhase::AwaitDeparture ==> exists|
                k: int,
            | #[trigger] found_status(s, answers, t.status, k)
        }),
    decreases answers.len(),
{
    let s = StartModel::fresh(plan, timeouts);
    if answers.len() > 0 {
        let before = answers.drop_last();
        let t = start_after(s, before)->Go_0;
        let now = start_after(s, answers)->Go_0;
        lemma_status_was_read(plan, timeouts, before);
        lemma_just_answered(s, answers);
        if t.phase == StartPhase::GuardStart || t.phase == StartPhase::AwaitDeparture {
            let k = choose|k: int| #[trigger] found_status(s, before, t.status, k);
            lemma_still_answered(s, answers, StartPhase::ReadStatus, k);
            assert(found_status(s, answers, t.status, k));
        } else if t.phase == StartPhase::ReadStatus && now.phase != StartPhase::ReadStatus {
            assert(answers.last() == answers[answers.len() - 1]);
            assert(found_status(s, answers, now.status, answers.len() - 1));
        }
    }
}

/// Bringing a mount up takes a mount point from nobody: it is asked back from the kernel
/// only once it was found mounted but unserved, right after a sweep found no unit of ours
/// behind it, and never by detaching it.
pub proof fn only_an_unserved_point_is_cleared(
    plan: PlanModel,
    timeouts: Timeouts,
    answers: Seq<StartAnswerModel>,
)
    requires
        to_the_point(StartModel::fresh(plan, timeouts), answers),
        start_after(StartModel::fresh(plan, timeouts), answers) is Go,
        start_after(StartModel::fresh(plan, timeouts), answers)->Go_0.asks() is Release,
    ensures
        ({
            let s = StartModel::fresh(plan, timeouts);
            let t = start_after(s, answers)->Go_0;
            &&& t.asks() == StartAsk::<Seq<char>, Seq<Seq<char>>>::Release(
                t.point,
                Release::Refuse,
            )
            &&& answers.len() >= 2
            &&& answered_at(s, answers, StartPhase::ReadStale, answers.len() - 2)
            &&& answers[answers.len() - 2] == StartAnswerModel::Stale(true)
            &&& answered_at(s, answers, StartPhase::GuardRelease, answers.len() - 1)
            &&& answers.last() matches StartAnswer::Orphans(Ok(found))
            &&& find_target(found, Wanted::At(t.point)) is None
        }),
{
    let s = StartModel::fresh(plan, timeouts);
    let before = answers.drop_last();
    lemma_just_answered(s, answers);
    lemma_last_fits(s, answers);
    let t = start_after(s, before)->Go_0;
    assert(t.phase == StartPhase::GuardRelease);
    assert(before.len() > 0);
    lemma_just_answered(s, before);
    lemma_last_fits(s, before);
    lemma_still_answered(s, answers, start_after(s, before.drop_last())->Go_0.phase, before.len() - 1);
}

impl Start {
    /// Begin to bring a mount up.
    pub fn begin(plan: Plan, timeouts: Timeouts) -> (r: Start)
        ensures
            r@ == StartModel::fresh(plan@, timeouts),
    {
        let point = plan.mount.mount_point.clone();
        Start {
            plan,
            timeouts,
            phase: StartPhase::ReadOrphans,
            point,
            status: UnitStatus::Inactive,
        }
    }

    /// What to do next.
    pub fn ask(&self) -> (r: StartAsk)
        ensures
            r@ == self@.asks(),
    {
        match self.phase {
            StartPhase::ReadOrphans | StartPhase::GuardRelease | StartPhase::GuardStart => {
                StartAsk::Orphans
            },
            StartPhase::Resolve => StartAsk::Resolve(self.plan.mount.mount_point.clone()),
            StartPhase::ReadMounts => StartAsk::Mounts,
            StartPhase::ReadStale => StartAsk::Stale(self.point.clone()),
            StartPhase::ReleaseStale => StartAsk::Release(self.point.clone(), Release::Refuse),
            StartPhase::ReadStatus | StartPhase::ReadStatusAgain => StartAsk::Status(
                self.plan.mount.unit_name(),
            ),
            StartPhase::AwaitDeparture | StartPhase::AwaitShutdown => StartAsk::AwaitUnitGone(
                self.plan.mount.unit_name(),
                self.timeouts.unit_gone_ms,
            ),
            StartPhase::PreparePoint => StartAsk::PreparePoint(
                self.plan.mount.mount_point.clone(),
            ),
            StartPhase::PrepareRuntime => StartAsk::PrepareRuntime,
            StartPhase::AwaitComing | StartPhase::AwaitReady => StartAsk::AwaitReady(
                self.timeouts.ready_ms,
            ),
            StartPhase::ClearSocket => StartAsk::ClearSocket(self.plan.socket.clone()),
            StartPhase::ResetFailed => StartAsk::ResetFailed(self.plan.mount.unit_name()),
            StartPhase::StartUnit => StartAsk::Start(self.plan.to_unit_spec()),
        }
    }

    fn to_phase(self, phase: StartPhase) -> (r: StartStep)
        ensures
            r@ == self@.to(phase),
    {
        let mut s = self;
        s.phase = phase;
        StartStep::Go(s)
    }

    fn found_served(self) -> (r: StartStep)
        ensures
            r@ == self@.already_served(),
    {
        match self.status {
            // Already serving, and it is ours. This is the path taken after a service
            // restart, when every mount is already up.
            UnitStatus::Active | UnitStatus::Activating => StartStep::Finished(Ok(())),
            // Still mounted, but on its way out.
            UnitStatus::Deactivating => self.to_phase(StartPhase::AwaitDeparture),
            UnitStatus::Failed => self.to_phase(StartPhase::PreparePoint),
            // Something else is mounted there. Reporting success would tell the user that
            // their settings were applied, when what is serving is not ours.
            UnitStatus::Inactive => {
                let mut s = self.plan.mount.name;
                s.append(": ");
                s.append(self.point.as_str());
                s.append(" is already mounted by something we did not start");
                StartStep::Finished(Err(SupervisorError::NotManaged(s)))
            },
        }
    }

    fn with_orphans(self, orphans: &Vec<Target>) -> (r: StartStep)
        ensures
            r@ == self@.on_orphans(views(orphans@)),
    {
        match self.phase {
            StartPhase::ReadOrphans => {
                let unit = self.plan.mount.unit_name();
                match first_target(orphans, Wanted::OfUnit(unit.as_str())) {
                    // Nothing can succeed: the unit's name is taken, and the configured
                    // path cannot be served while that unit runs.
                    Some(o) => {
                        let mut s = self.plan.mount.name.clone();
                        s.append(": ");
                        s.append(o.unit.as_str());
                        s.append(" is still serving ");
                        s.append(o.point.as_str());
                        s.append(
                            ", the mount point this entry had before it was changed. Unmount ",
                        );
                        s.append(self.plan.mount.name.as_str());
                        s.append(" first, then mount it again.");
                        StartStep::Finished(Err(SupervisorError::NotManaged(s)))
                    },
                    None => self.to_phase(StartPhase::Resolve),
                }
            },
            // An rclone whose connection was aborted no longer answers while its unit is
            // still active, and a release does not ask who owns the point.
            StartPhase::GuardRelease => match refuse_to_take_over(
                self.plan.mount.name.as_str(),
                self.point.as_str(),
                orphans,
            ) {
                Ok(_) => self.to_phase(StartPhase::ReleaseStale),
                Err(e) => StartStep::Finished(Err(e)),
            },
            StartPhase::GuardStart => match refuse_to_take_over(
                self.plan.mount.name.as_str(),
                self.point.as_str(),
                orphans,
            ) {
                Ok(_) => self.found_served(),
                Err(e) => StartStep::Finished(Err(e)),
            },
            _ => StartStep::Go(self),
        }
    }

    fn with_status(self, status: UnitStatus) -> (r: StartStep)
        ensures
            r@ == self@.on_status(status),
    {
        match self.phase {
            StartPhase::ReadStatus => {
                let mut s = self;
                s.status = status;
                if status.is_serving() {
                    s.found_served()
                } else {
                    // Nothing of ours is serving under this name, so something else is at
                    // the point.
                    s.to_phase(StartPhase::GuardStart)
                }
            },
            StartPhase::ReadStatusAgain => match status {
                // Already on its way up: a second click, or two clients. Starting again
                // would be refused by systemd.
                UnitStatus::Active | UnitStatus::Activating => self.to_phase(
                    StartPhase::AwaitComing,
                ),
                // The ordinary remount gesture.
                UnitStatus::Deactivating => self.to_phase(StartPhase::AwaitShutdown),
                _ => self.to_phase(StartPhase::ClearSocket),
            },
            _ => StartStep::Go(self),
        }
    }

    fn done(self) -> (r: StartStep)
        ensures
            r@ == self@.on_done(),
    {
        match self.phase {
            StartPhase::ReleaseStale | StartPhase::AwaitDeparture => self.to_phase(
                StartPhase::PreparePoint,
            ),
            StartPhase::PreparePoint => self.to_phase(StartPhase::PrepareRuntime),
            StartPhase::PrepareRuntime => self.to_phase(StartPhase::ReadStatusAgain),
            StartPhase::AwaitShutdown => self.to_phase(StartPhase::ClearSocket),
            // rclone dies on an address in use rather than replacing a stale socket.
            StartPhase::ClearSocket => self.to_phase(StartPhase::ResetFailed),
            // A previous failure leaves the unit loaded, and its name cannot be started
            // again until it is cleared.
            StartPhase::ResetFailed => self.to_phase(StartPhase::StartUnit),
            StartPhase::StartUnit => self.to_phase(StartPhase::AwaitReady),
            StartPhase::AwaitComing | StartPhase::AwaitReady => StartStep::Finished(Ok(())),
            _ => StartStep::Go(self),
        }
    }

    /// Go on with the answer to what was asked.
    pub fn step(self, answer: StartAnswer) -> (r: StartStep)
        ensures
            r@ == self@.next(answer@),
    {
        match answer {
            StartAnswer::Orphans(Ok(v)) => self.with_orphans(&v),
            StartAnswer::Orphans(Err(e)) => StartStep::Finished(Err(e)),
            StartAnswer::Path(p) => match self.phase {
                StartPhase::Resolve => {
                    let mut s = self;
                    s.point = p;
                    s.phase = StartPhase::ReadMounts;
                    StartStep::Go(s)
                },
                _ => StartStep::Go(self),
            },
            StartAnswer::Mounts(m) => match self.phase {
                StartPhase::ReadMounts => if is_mounted_at(&m, self.point.as_str()) {
                    self.to_phase(StartPhase::ReadStale)
                } else {
                    self.to_phase(StartPhase::PreparePoint)
                },
                _ => StartStep::Go(self),
            },
            StartAnswer::Stale(stale) => match self.phase {
                StartPhase::ReadStale => if stale {
                    self.to_phase(StartPhase::GuardRelease)
                } else {
                    self.to_phase(StartPhase::ReadStatus)
                },
                _ => StartStep::Go(self),
            },
            StartAnswer::Status(Ok(status)) => self.with_status(status),
            StartAnswer::Status(Err(e)) => StartStep::Finished(Err(e)),
            StartAnswer::Done(Ok(_)) => self.done(),
            StartAnswer::Done(Err(e)) => match self.phase {
                StartPhase::ClearSocket => self.done(),
                _ => StartStep::Finished(Err(e)),
            },
        }
    }
}

} // verus!
