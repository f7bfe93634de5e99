//! Taking a mount down, one question at a time.
//!
//! [`Unmount`] decides; whoever drives it performs each [`Ask`] and hands the answer back.

use crate::errors::{outcome, SupervisorError};
use crate::mountinfo::{is_mounted_at, mounted_at, MountEntry};
use crate::paths::{same_path, same_place};
use crate::supervisor::orphans::Target;
use crate::systemd::UnitStatus;
use crate::text::{opt_text, same_text, views};
use vstd::prelude::*;
use vstd::string::*;

verus! {

/// How hard to try when asking the kernel for a mount point back.
///
/// They are not interchangeable: a plain unmount stays refused for as long as a file is
/// held open under the mount, even once the rclone behind it is dead.
#[derive(Debug, Clone, Copy, PartialEq, Eq, Structural)]
pub enum Release {
    /// `fusermount3 -u`. Refused while any process is using the mount, which is the only
    /// signal an in-progress write gives.
    Refuse,
    /// `fusermount3 -u -z`. Detaches whatever holds it, so a writer mid-file loses the
    /// rest.
    Detach,
}

/// How long to wait for what an operation set going, in milliseconds.
#[derive(Debug, Clone, Copy, PartialEq, Eq, Structural)]
pub struct Timeouts {
    /// For a mount point to start serving.
    pub ready_ms: u64,
    /// For a mount point to be released once its unit was stopped.
    pub gone_ms: u64,
    /// For systemd to free a unit's name.
    pub unit_gone_ms: u64,
}

/// How long to wait for a mount point that was asked for a second time, in milliseconds.
pub const LEFT_MS: u64 = 10_000;

/// Where an unmount has got to: what is to be asked next.
#[derive(Debug, Clone, Copy, PartialEq, Eq, Structural)]
pub enum Phase {
    /// Is anything mounted at the point?
    ReadMounts,
    /// What is the unit doing?
    ReadStatus,
    /// What is mounted at the point?
    CheckSource,
    /// Where did the unit mount, by its own argv?
    ReadArgv,
    /// Will the kernel give the point back?
    Probe,
    /// It would not: is the point still mounted?
    CheckProbe,
    /// Stop the unit.
    StopUnit,
    /// Wait for the point to be released.
    AwaitGone,
    /// Wait for the unit's name to be free.
    AwaitUnitGone,
    /// Clear the stopped unit.
    ResetStopped,
    /// Is the point mounted even now?
    CheckLeft,
    /// Ask for it once more.
    ReleaseLeft,
    /// Detach it from whatever holds it.
    Detach,
    /// Wait for it to go.
    AwaitLeft,
    /// Clear the unit whose stop timed out.
    ResetLeft,
}

/// What to do next, and report back.
#[derive(Debug, Clone, PartialEq, Eq)]
pub enum Ask<S = String> {
    /// Read the mount table.
    Mounts,
    /// Read a unit's status.
    Status(S),
    /// Read where a unit mounted, from the argv systemd holds for it, resolved.
    ArgvPoint(S),
    /// Ask the kernel for a mount point.
    Release(S, Release),
    /// Stop a unit.
    Stop(S),
    /// Wait, this many milliseconds at most, for a mount point to be gone.
    AwaitGone(S, u64),
    /// Wait, this many milliseconds at most, for a unit to be gone.
    AwaitUnitGone(S, u64),
    /// Clear a failed unit.
    ResetFailed(S),
}

impl View for Ask {
    type V = Ask<Seq<char>>;

    open spec fn view(&self) -> Ask<Seq<char>> {
        match *self {
            Ask::Mounts => Ask::Mounts,
            Ask::Status(u) => Ask::Status(u@),
            Ask::ArgvPoint(u) => Ask::ArgvPoint(u@),
            Ask::Release(p, how) => Ask::Release(p@, how),
            Ask::Stop(u) => Ask::Stop(u@),
            Ask::AwaitGone(p, ms) => Ask::AwaitGone(p@, ms),
            Ask::AwaitUnitGone(u, ms) => Ask::AwaitUnitGone(u@, ms),
            Ask::ResetFailed(u) => Ask::ResetFailed(u@),
        }
    }
}

/// What came of an [`Ask`].
pub enum Answer<S = String, L = Vec<MountEntry>> {
    Mounts(L),
    Status(Result<UnitStatus, SupervisorError<S>>),
    ArgvPoint(Result<Option<S>, SupervisorError<S>>),
    /// Of a release, a stop, a wait for a unit or a reset.
    Done(Result<(), SupervisorError<S>>),
    Gone(bool),
}

/// An answer by its view.
pub type AnswerModel = Answer<Seq<char>, Seq<MountEntry<Seq<char>>>>;

impl View for Answer {
    type V = AnswerModel;

    open spec fn view(&self) -> AnswerModel {
        match *self {
            Answer::Mounts(m) => Answer::Mounts(views(m@)),
            Answer::Status(r) => Answer::Status(outcome(r)),
            Answer::ArgvPoint(r) => Answer::ArgvPoint(
                match r {
                    Ok(p) => Ok(opt_text(p)),
                    Err(e) => Err(e@),
                },
            ),
            Answer::Done(r) => Answer::Done(outcome(r)),
            Answer::Gone(b) => Answer::Gone(b),
        }
    }
}

/// An unmount under way.
pub struct Unmount<S = String> {
    pub target: Target<S>,
    /// The caller has confirmed with the user that it is to be unmounted anyway.
    pub force: bool,
    pub timeouts: Timeouts,
    pub phase: Phase,
    /// Whether something was mounted at the point to begin with.
    pub live: bool,
    /// What the unit was doing to begin with.
    pub status: UnitStatus,
    /// What is mounted at the point, where that is not what the unit was to serve.
    pub source: S,
    /// Why the kernel would not give the point back.
    pub refusal: Option<SupervisorError<S>>,
}

impl View for Unmount {
    type V = Unmount<Seq<char>>;

    open spec fn view(&self) -> Unmount<Seq<char>> {
        Unmount {
            target: self.target@,
            force: self.force,
            timeouts: self.timeouts,
            phase: self.phase,
            live: self.live,
            status: self.status,
            source: self.source@,
            refusal: match self.refusal {
                Some(e) => Some(e@),
                None => None,
            },
        }
    }
}

/// Whether an unmount goes on, and how it ended if not.
pub enum Step<S = String> {
    Go(Unmount<S>),
    Finished(Result<(), SupervisorError<S>>),
}

impl View for Step {
    type V = Step<Seq<char>>;

    open spec fn view(&self) -> Step<Seq<char>> {
        match *self {
            Step::Go(u) => Step::Go(u@),
            Step::Finished(r) => Step::Finished(outcome(r)),
        }
    }
}

/// What is said when something that this mount does not own is mounted at its point.
pub open spec fn mismatch_text(t: Target<Seq<char>>, source: Seq<char>) -> Seq<char> {
    t.name + ": "@ + t.point + " is serving "@ + source + ", not "@ + t.fs_spec
        + " — refusing to unmount something this mount does not own"@
}

/// What is said when nothing brought the point back.
pub open spec fn stuck_text(point: Seq<char>) -> Seq<char> {
    point
        + " is still mounted after everything this can do to release it. Something is holding it that a lazy unmount did not clear either, so there is likely a second filesystem stacked under the same path."@
}

/// A refusal with what to do about it. "Usually", because every refusal reads the same; a
/// failure to ask at all passes through untouched.
pub open spec fn refusal_of(
    point: Seq<char>,
    e: SupervisorError<Seq<char>>,
) -> SupervisorError<Seq<char>> {
    match e {
        SupervisorError::Busy { detail } => SupervisorError::Busy {
            detail: detail
                + ". Usually a process is still using the mount — a file open under it, or a shell whose working directory is inside it. `fuser -m "@
                + point
                + "` names them. Unmounting anyway cuts anything mid-write off, and rclone then uploads the partial file as if it were complete."@,
        },
        _ => e,
    }
}

/// Add what to do about it to a refusal the kernel gave.
pub fn refused(point: &str, e: SupervisorError) -> (r: SupervisorError)
    ensures
        r@ == refusal_of(point@, e@),
{
    match e {
        SupervisorError::Busy { detail } => {
            let mut s = detail;
            s.append(
                ". Usually a process is still using the mount — a file open under it, or a shell whose working directory is inside it. `fuser -m ",
            );
            s.append(point);
            s.append(
                "` names them. Unmounting anyway cuts anything mid-write off, and rclone then uploads the partial file as if it were complete.",
            );
            SupervisorError::Busy { detail: s }
        },
        other => other,
    }
}

/// The first rclone mount at a point.
pub open spec fn rclone_at(live: Seq<MountEntry<Seq<char>>>, point: Seq<char>) -> Option<
    MountEntry<Seq<char>>,
>
    decreases live.len(),
{
    if live.len() == 0 {
        None
    } else if live[0].by_rclone() && same_place(live[0].mount_point, point) {
        Some(live[0])
    } else {
        rclone_at(live.drop_first(), point)
    }
}

fn find_rclone_at<'a>(live: &'a Vec<MountEntry>, point: &str) -> (r: Option<&'a MountEntry>)
    ensures
        match r {
            Some(e) => rclone_at(views(live@), point@) == Some(e@),
            None => rclone_at(views(live@), point@) is None,
        },
{
    let ghost all = views(live@);
    let mut i: usize = 0;
    assert(all.skip(0) == all);
    while i < live.len()
        invariant
            i <= live@.len(),
            all == views(live@),
            rclone_at(all, point@) == rclone_at(all.skip(i as int), point@),
        decreases live@.len() - i,
    {
        assert(all.skip(i as int)[0] == live@[i as int]@);
        assert(all.skip(i as int).drop_first() == all.skip(i + 1));
        if live[i].is_rclone() && same_path(live[i].mount_point.as_str(), point) {
            return Some(&live[i]);
        }
        i = i + 1;
    }
    None
}

impl Unmount<Seq<char>> {
    /// An unmount of a target, before anything was asked.
    pub open spec fn start(target: Target<Seq<char>>, force: bool, timeouts: Timeouts) -> Self {
        Unmount {
            target,
            force,
            timeouts,
            phase: Phase::ReadMounts,
            live: false,
            status: UnitStatus::Inactive,
            source: Seq::<char>::empty(),
            refusal: None,
        }
    }

    /// Whether a unit of ours exists: running, restarting, or failed.
    pub open spec fn ours(self) -> bool {
        self.status != UnitStatus::Inactive
    }

    /// Whether the mount may be detached from whatever holds it. Only right once the writer
    /// is gone, so only for a unit that this service stops itself.
    pub open spec fn may_detach(self) -> bool {
        self.force && self.ours()
    }

    /// The same unmount in another phase.
    pub open spec fn to(self, phase: Phase) -> Step<Seq<char>> {
        Step::Go(Unmount { phase, ..self })
    }

    /// What follows once the kernel has answered for the point.
    pub open spec fn released(self) -> Step<Seq<char>> {
        if self.ours() {
            self.to(Phase::StopUnit)
        } else {
            self.to(Phase::CheckLeft)
        }
    }

    /// The end of an unmount that would take down something the mount does not own.
    pub open spec fn not_owned(self) -> Step<Seq<char>> {
        Step::Finished(Err(SupervisorError::NotManaged(mismatch_text(self.target, self.source))))
    }

    /// What is to be asked in this phase.
    pub open spec fn asks(self) -> Ask<Seq<char>> {
        match self.phase {
            Phase::ReadMounts | Phase::CheckSource | Phase::CheckProbe | Phase::CheckLeft => {
                Ask::Mounts
            },
            Phase::ReadStatus => Ask::Status(self.target.unit),
            Phase::ReadArgv => Ask::ArgvPoint(self.target.unit),
            Phase::Probe | Phase::ReleaseLeft => Ask::Release(self.target.point, Release::Refuse),
            Phase::Detach => Ask::Release(self.target.point, Release::Detach),
            Phase::StopUnit => Ask::Stop(self.target.unit),
            Phase::AwaitGone => Ask::AwaitGone(self.target.point, self.timeouts.gone_ms),
            Phase::AwaitLeft => Ask::AwaitGone(self.target.point, LEFT_MS),
            Phase::AwaitUnitGone => Ask::AwaitUnitGone(
                self.target.unit,
                self.timeouts.unit_gone_ms,
            ),
            Phase::ResetStopped | Phase::ResetLeft => Ask::ResetFailed(self.target.unit),
        }
    }

    /// Whether an answer is one to what is asked.
    pub open spec fn fits(self, a: AnswerModel) -> bool {
        match self.asks() {
            Ask::Mounts => a is Mounts,
            Ask::Status(_) => a is Status,
            Ask::ArgvPoint(_) => a is ArgvPoint,
            Ask::AwaitGone(_, _) => a is Gone,
            _ => a is Done,
        }
    }

    /// What an answer leads to.
    pub open spec fn next(self, a: AnswerModel) -> Step<Seq<char>> {
        let point = self.target.point;
        match (self.phase, a) {
            (Phase::ReadMounts, Answer::Mounts(m)) => Step::Go(
                Unmount { phase: Phase::ReadStatus, live: mounted_at(m, point), ..self },
            ),
            (Phase::ReadStatus, Answer::Status(Ok(status))) => {
                let known = Unmount { status, ..self };
                if self.live && !known.ours() && !self.force {
                    Step::Finished(Err(SupervisorError::NotManaged(self.target.name)))
                } else if self.live {
                    known.to(Phase::CheckSource)
                } else if known.ours() {
                    known.to(Phase::StopUnit)
                } else {
                    Step::Finished(Ok(()))
                }
            },
            (Phase::CheckSource, Answer::Mounts(m)) => match rclone_at(m, point) {
                Some(e) => if !self.force && e.source != self.target.fs_spec {
                    let known = Unmount { source: e.source, ..self };
                    if self.status.serves() {
                        known.to(Phase::ReadArgv)
                    } else {
                        known.not_owned()
                    }
                } else {
                    self.to(Phase::Probe)
                },
                None => self.to(Phase::Probe),
            },
            (Phase::ReadArgv, Answer::ArgvPoint(Ok(p))) => match p {
                Some(p) => if same_place(p, point) {
                    self.to(Phase::Probe)
                } else {
                    self.not_owned()
                },
                None => self.not_owned(),
            },
            (Phase::Probe, Answer::Done(Ok(_))) => self.released(),
            (Phase::Probe, Answer::Done(Err(e))) => Step::Go(
                Unmount { phase: Phase::CheckProbe, refusal: Some(e), ..self },
            ),
            (Phase::CheckProbe, Answer::Mounts(m)) => if mounted_at(m, point)
                && !self.may_detach() && self.refusal is Some {
                Step::Finished(Err(refusal_of(point, self.refusal->0)))
            } else {
                self.released()
            },
            (Phase::StopUnit, Answer::Done(Ok(_))) => if self.live {
                self.to(Phase::AwaitGone)
            } else {
                self.to(Phase::AwaitUnitGone)
            },
            (Phase::AwaitGone, Answer::Gone(gone)) => if gone {
                self.to(Phase::AwaitUnitGone)
            } else {
                self.to(Phase::CheckLeft)
            },
            (Phase::AwaitUnitGone, Answer::Done(Ok(_))) => self.to(Phase::ResetStopped),
            (Phase::CheckLeft, Answer::Mounts(m)) => if mounted_at(m, point) {
                self.to(Phase::ReleaseLeft)
            } else {
                Step::Finished(Ok(()))
            },
            (Phase::ReleaseLeft, Answer::Done(Ok(_))) => self.to(Phase::AwaitLeft),
            (Phase::ReleaseLeft, Answer::Done(Err(e))) => if self.may_detach() {
                self.to(Phase::Detach)
            } else {
                Step::Finished(Err(refusal_of(point, e)))
            },
            (Phase::Detach, Answer::Done(Ok(_))) => self.to(Phase::AwaitLeft),
            (Phase::AwaitLeft, Answer::Gone(gone)) => if gone {
                self.to(Phase::ResetLeft)
            } else {
                Step::Finished(Err(SupervisorError::Busy { detail: stuck_text(point) }))
            },
            (Phase::ResetStopped, Answer::Done(r)) => Step::Finished(r),
            (Phase::ResetLeft, Answer::Done(r)) => Step::Finished(r),
            // Whatever else fails ends the unmount with that failure.
            (_, Answer::Status(Err(e))) => Step::Finished(Err(e)),
            (_, Answer::ArgvPoint(Err(e))) => Step::Finished(Err(e)),
            (_, Answer::Done(Err(e))) => Step::Finished(Err(e)),
            _ => Step::Go(self),
        }
    }
}

/// Where a run of answers takes an unmount.
pub open spec fn after(u: Unmount<Seq<char>>, answers: Seq<AnswerModel>) -> Step<Seq<char>>
    decreases answers.len(),
{
    if answers.len() == 0 {
        Step::Go(u)
    } else {
        match after(u, answers.drop_last()) {
            Step::Go(v) => v.next(answers.last()),
            Step::Finished(r) => Step::Finished(r),
        }
    }
}

/// Whether the unmount was in a phase at some moment of a run, and got the answer to it.
pub open spec fn passed(
    u: Unmount<Seq<char>>,
    answers: Seq<AnswerModel>,
    phase: Phase,
) -> bool {
    exists|k: int| #[trigger] passed_at(u, answers, phase, k)
}

/// Whether the unmount was in a phase when the answer at this position came.
pub open spec fn passed_at(
    u: Unmount<Seq<char>>,
    answers: Seq<AnswerModel>,
    phase: Phase,
    k: int,
) -> bool {
    &&& 0 <= k < answers.len()
    &&& after(u, answers.take(k)) matches Step::Go(v)
    &&& v.phase == phase
}

/// How far along a phase is.
pub open spec fn rank(phase: Phase) -> int {
    match phase {
        Phase::ReadMounts => 0,
        Phase::ReadStatus => 1,
        Phase::CheckSource => 2,
        Phase::ReadArgv => 3,
        Phase::Probe => 4,
        Phase::CheckProbe => 5,
        Phase::StopUnit => 6,
        Phase::AwaitGone => 7,
        Phase::CheckLeft => 8,
        Phase::ReleaseLeft => 9,
        Phase::Detach => 10,
        Phase::AwaitLeft => 11,
        Phase::AwaitUnitGone => 12,
        Phase::ResetStopped => 13,
        Phase::ResetLeft => 14,
    }
}

/// Every answer that fits takes an unmount further along or ends it, so it ends after at
/// most fifteen of them.
pub proof fn an_unmount_ends(u: Unmount<Seq<char>>, a: AnswerModel)
    requires
        u.fits(a),
    ensures
        u.next(a) matches Step::Go(v) ==> rank(u.phase) < rank(v.phase) < 15,
{
}

/// An unmount acts on its own target, and on nothing else: every question names the unit
/// or the mount point it was begun with. And every wait is given the time that it was begun
/// with, or, for a point asked for a second time, the time set aside for that.
pub proof fn an_unmount_keeps_to_its_target(
    t: Target<Seq<char>>,
    force: bool,
    timeouts: Timeouts,
    answers: Seq<AnswerModel>,
)
    ensures
        after(Unmount::start(t, force, timeouts), answers) matches Step::Go(v) ==> {
            &&& v.target == t
            &&& v.force == force
            &&& v.timeouts == timeouts
            &&& match v.asks() {
                Ask::Mounts => true,
                Ask::Status(unit) | Ask::ArgvPoint(unit) | Ask::Stop(unit) | Ask::ResetFailed(
                    unit,
                ) => unit == t.unit,
                Ask::AwaitUnitGone(unit, ms) => unit == t.unit && ms == timeouts.unit_gone_ms,
                Ask::Release(point, _) => point == t.point,
                Ask::AwaitGone(point, ms) => {
                    &&& point == t.point
                    &&& ms == timeouts.gone_ms || ms == LEFT_MS
                },
            }
        },
    decreases answers.len(),
{
    if answers.len() > 0 {
        an_unmount_keeps_to_its_target(t, force, timeouts, answers.drop_last());
    }
}

proof fn lemma_passed_earlier(
    u: Unmount<Seq<char>>,
    answers: Seq<AnswerModel>,
    phase: Phase,
)
    requires
        answers.len() > 0,
        passed(u, answers.drop_last(), phase),
    ensures
        passed(u, answers, phase),
{
    let k = choose|k: int| passed_at(u, answers.drop_last(), phase, k);
    assert(answers.drop_last().take(k) == answers.take(k));
    assert(passed_at(u, answers, phase, k));
}

proof fn lemma_passed_just_now(u: Unmount<Seq<char>>, answers: Seq<AnswerModel>)
    requires
        answers.len() > 0,
        after(u, answers.drop_last()) is Go,
    ensures
        passed(u, answers, after(u, answers.drop_last())->Go_0.phase),
{
    let k = answers.len() - 1;
    assert(answers.take(k) == answers.drop_last());
    assert(passed_at(u, answers, after(u, answers.drop_last())->Go_0.phase, k));
}

/// The unit is signalled only after the kernel was asked for a mounted point: when an
/// unmount comes to stop the unit, or to anything after that, either nothing was mounted to
/// begin with or the release has been asked for and answered.
pub proof fn the_kernel_is_asked_before_the_unit_is_stopped(
    t: Target<Seq<char>>,
    force: bool,
    timeouts: Timeouts,
    answers: Seq<AnswerModel>,
)
    ensures
        after(Unmount::start(t, force, timeouts), answers) matches Step::Go(v) ==> rank(v.phase)
            >= rank(Phase::CheckProbe) && v.live ==> passed(
            Unmount::start(t, force, timeouts),
            answers,
            Phase::Probe,
        ),
    decreases answers.len(),
{
    let u = Unmount::start(t, force, timeouts);
    if answers.len() > 0 {
        the_kernel_is_asked_before_the_unit_is_stopped(t, force, timeouts, answers.drop_last());
        if let Step::Go(v) = after(u, answers.drop_last()) {
            lemma_passed_just_now(u, answers);
            if passed(u, answers.drop_last(), Phase::Probe) {
                lemma_passed_earlier(u, answers, Phase::Probe);
            }
        }
    }
}

/// Nothing is detached from a process that uses it unless the user forced it, a unit of
/// ours was there to begin with, and that unit has been stopped; and only once a plain
/// release was asked for a second time.
pub proof fn nothing_is_detached_lightly(
    t: Target<Seq<char>>,
    force: bool,
    timeouts: Timeouts,
    answers: Seq<AnswerModel>,
)
    ensures
        after(Unmount::start(t, force, timeouts), answers) matches Step::Go(v) ==> v.phase
            == Phase::Detach ==> {
            &&& force
            &&& v.ours()
            &&& passed(Unmount::start(t, force, timeouts), answers, Phase::StopUnit)
            &&& passed(Unmount::start(t, force, timeouts), answers, Phase::ReleaseLeft)
        },
    decreases answers.len(),
{
    let u = Unmount::start(t, force, timeouts);
    if answers.len() > 0 {
        an_unmount_keeps_to_its_target(t, force, timeouts, answers);
        an_unmount_keeps_to_its_target(t, force, timeouts, answers.drop_last());
        lemma_stopped_first(t, force, timeouts, answers);
        if let Step::Go(v) = after(u, answers.drop_last()) {
            lemma_passed_just_now(u, answers);
            nothing_is_detached_lightly(t, force, timeouts, answers.drop_last());
            if passed(u, answers.drop_last(), Phase::ReleaseLeft) {
                lemma_passed_earlier(u, answers, Phase::ReleaseLeft);
            }
        }
    }
}

proof fn lemma_stopped_first(
    t: Target<Seq<char>>,
    force: bool,
    timeouts: Timeouts,
    answers: Seq<AnswerModel>,
)
    ensures
        after(Unmount::start(t, force, timeouts), answers) matches Step::Go(v) ==> rank(v.phase)
            > rank(Phase::StopUnit) && v.ours() ==> passed(
            Unmount::start(t, force, timeouts),
            answers,
            Phase::StopUnit,
        ),
    decreases answers.len(),
{
    let u = Unmount::start(t, force, timeouts);
    if answers.len() > 0 {
        lemma_stopped_first(t, force, timeouts, answers.drop_last());
        if let Step::Go(v) = after(u, answers.drop_last()) {
            lemma_passed_just_now(u, answers);
            if passed(u, answers.drop_last(), Phase::StopUnit) {
                lemma_passed_earlier(u, answers, Phase::StopUnit);
            }
        }
    }
}

/// Whether something is mounted at a point, as the last answer that tells of it says.
pub open spec fn last_seen(answers: Seq<AnswerModel>, point: Seq<char>) -> Option<bool>
    decreases answers.len(),
{
    if answers.len() == 0 {
        None
    } else {
        match answers.last() {
            Answer::Mounts(m) => Some(mounted_at(m, point)),
            Answer::Gone(gone) => Some(!gone),
            _ => last_seen(answers.drop_last(), point),
        }
    }
}

/// Whether every answer of a run is one to what was asked.
pub open spec fn to_the_point(u: Unmount<Seq<char>>, answers: Seq<AnswerModel>) -> bool
    decreases answers.len(),
{
    answers.len() > 0 ==> {
        &&& to_the_point(u, answers.drop_last())
        &&& after(u, answers.drop_last()) matches Step::Go(v) ==> v.fits(answers.last())
    }
}

/// An unmount succeeds only once the last that it was told of the point is that nothing is
/// mounted there; and where it found a unit of ours, only once that unit has been stopped.
pub proof fn success_means_that_the_mount_is_gone(
    t: Target<Seq<char>>,
    force: bool,
    timeouts: Timeouts,
    answers: Seq<AnswerModel>,
    last: AnswerModel,
)
    requires
        to_the_point(Unmount::start(t, force, timeouts), answers.push(last)),
    ensures
        after(Unmount::start(t, force, timeouts), answers) matches Step::Go(v) ==> (v.next(
            last,
        ) matches Step::Finished(r) ==> r is Ok ==> {
            &&& last_seen(answers.push(last), t.point) == Some(false)
            &&& v.ours() ==> passed(Unmount::start(t, force, timeouts), answers, Phase::StopUnit)
        }),
{
    let all = answers.push(last);
    assert(all.drop_last() == answers);
    assert(all.last() == last);
    an_unmount_keeps_to_its_target(t, force, timeouts, answers);
    lemma_gone_is_known(t, force, timeouts, answers);
    lemma_stopped_first(t, force, timeouts, answers);
}

proof fn lemma_gone_is_known(
    t: Target<Seq<char>>,
    force: bool,
    timeouts: Timeouts,
    answers: Seq<AnswerModel>,
)
    requires
        to_the_point(Unmount::start(t, force, timeouts), answers),
    ensures
        after(Unmount::start(t, force, timeouts), answers) matches Step::Go(v) ==> {
            &&& v.phase != Phase::ReadMounts && !v.live ==> {
                &&& last_seen(answers, t.point) == Some(false)
                &&& v.phase == Phase::ReadStatus || v.phase == Phase::StopUnit || v.phase
                    == Phase::AwaitUnitGone || v.phase == Phase::ResetStopped
            }
            &&& rank(v.phase) >= rank(Phase::AwaitUnitGone) ==> last_seen(answers, t.point)
                == Some(false)
            &&& rank(v.phase) <= rank(Phase::ReadStatus) ==> !v.ours()
        },
    decreases answers.len(),
{
    if answers.len() > 0 {
        lemma_gone_is_known(t, force, timeouts, answers.drop_last());
        an_unmount_keeps_to_its_target(t, force, timeouts, answers.drop_last());
    }
}

/// A mount that is not ours is never released, let alone detached, unless the user forced
/// it.
pub proof fn a_foreign_mount_is_left_alone_without_force(
    t: Target<Seq<char>>,
    timeouts: Timeouts,
    answers: Seq<AnswerModel>,
)
    ensures
        after(Unmount::start(t, false, timeouts), answers) matches Step::Go(v) ==> {
            &&& v.asks() is Release ==> v.ours()
            &&& v.asks() is Stop ==> v.ours()
        },
    decreases answers.len(),
{
    if answers.len() > 0 {
        a_foreign_mount_is_left_alone_without_force(t, timeouts, answers.drop_last());
        an_unmount_keeps_to_its_target(t, false, timeouts, answers.drop_last());
        lemma_ours_past_status(t, timeouts, answers);
    }
}

proof fn lemma_ours_past_status(
    t: Target<Seq<char>>,
    timeouts: Timeouts,
    answers: Seq<AnswerModel>,
)
    ensures
        after(Unmount::start(t, false, timeouts), answers) matches Step::Go(v) ==> rank(v.phase)
            > rank(Phase::ReadStatus) ==> v.ours(),
    decreases answers.len(),
{
    if answers.len() > 0 {
        lemma_ours_past_status(t, timeouts, answers.drop_last());
        an_unmount_keeps_to_its_target(t, false, timeouts, answers.drop_last());
    }
}

/// A mount in use is refused before anything signals rclone: without force, when the kernel
/// does not give the point back and it is still mounted, the unmount ends there, and in no
/// run so far was the unit stopped.
pub proof fn a_mount_in_use_is_refused_with_its_unit_untouched(
    t: Target<Seq<char>>,
    force: bool,
    timeouts: Timeouts,
    answers: Seq<AnswerModel>,
)
    ensures
        after(Unmount::start(t, force, timeouts), answers) matches Step::Go(v) ==> v.phase
            == Phase::CheckProbe ==> {
            &&& v.refusal is Some
            &&& !passed(Unmount::start(t, force, timeouts), answers, Phase::StopUnit)
            &&& !v.may_detach() ==> forall|m: Seq<MountEntry<Seq<char>>>|
                mounted_at(m, t.point) ==> #[trigger] v.next(Answer::Mounts(m))
                    == Step::<Seq<char>>::Finished(Err(refusal_of(t.point, v.refusal->0)))
        },
    decreases answers.len(),
{
    let u = Unmount::start(t, force, timeouts);
    an_unmount_keeps_to_its_target(t, force, timeouts, answers);
    if after(u, answers) is Go {
        let v = after(u, answers)->Go_0;
        if v.phase == Phase::CheckProbe {
            if passed(u, answers, Phase::StopUnit) {
                let k = choose|k: int| passed_at(u, answers, Phase::StopUnit, k);
                lemma_rank_grows(u, answers, k);
            }
        }
    }
    if answers.len() > 0 {
        a_mount_in_use_is_refused_with_its_unit_untouched(t, force, timeouts, answers.drop_last());
    }
}

proof fn lemma_rank_grows(u: Unmount<Seq<char>>, answers: Seq<AnswerModel>, k: int)
    requires
        0 <= k <= answers.len(),
        after(u, answers) is Go,
    ensures
        after(u, answers.take(k)) is Go,
        rank(after(u, answers.take(k))->Go_0.phase) <= rank(after(u, answers)->Go_0.phase),
    decreases answers.len(),
{
    if k == answers.len() {
        assert(answers.take(k) == answers);
    } else {
        lemma_rank_grows(u, answers.drop_last(), k);
        assert(answers.drop_last().take(k) == answers.take(k));
    }
}

impl Unmount {
    /// Begin to unmount a target.
    pub fn begin(target: Target, force: bool, timeouts: Timeouts) -> (r: Unmount)
        ensures
            r@ == Unmount::<Seq<char>>::start(target@, force, timeouts),
    {
        Unmount {
            target,
            force,
            timeouts,
            phase: Phase::ReadMounts,
            live: false,
            status: UnitStatus::Inactive,
            source: String::new(),
            refusal: None,
        }
    }

    /// What to do next.
    pub fn ask(&self) -> (r: Ask)
        ensures
            r@ == self@.asks(),
    {
        match self.phase {
            Phase::ReadMounts | Phase::CheckSource | Phase::CheckProbe | Phase::CheckLeft => {
                Ask::Mounts
            },
            Phase::ReadStatus => Ask::Status(self.target.unit.clone()),
            Phase::ReadArgv => Ask::ArgvPoint(self.target.unit.clone()),
            Phase::Probe | Phase::ReleaseLeft => Ask::Release(
                self.target.point.clone(),
                Release::Refuse,
            ),
            Phase::Detach => Ask::Release(self.target.point.clone(), Release::Detach),
            Phase::StopUnit => Ask::Stop(self.target.unit.clone()),
            Phase::AwaitGone => Ask::AwaitGone(self.target.point.clone(), self.timeouts.gone_ms),
            Phase::AwaitLeft => Ask::AwaitGone(self.target.point.clone(), LEFT_MS),
            Phase::AwaitUnitGone => Ask::AwaitUnitGone(
                self.target.unit.clone(),
                self.timeouts.unit_gone_ms,
            ),
            Phase::ResetStopped | Phase::ResetLeft => Ask::ResetFailed(self.target.unit.clone()),
        }
    }

    fn is_ours(&self) -> (r: bool)
        ensures
            r == self@.ours(),
    {
        match self.status {
            UnitStatus::Inactive => false,
            _ => true,
        }
    }

    fn to_phase(self, phase: Phase) -> (r: Step)
        ensures
            r@ == self@.to(phase),
    {
        let mut u = self;
        u.phase = phase;
        Step::Go(u)
    }

    fn after_release(self) -> (r: Step)
        ensures
            r@ == self@.released(),
    {
        if self.is_ours() {
            self.to_phase(Phase::StopUnit)
        } else {
            self.to_phase(Phase::CheckLeft)
        }
    }

    fn refuse_ownership(self) -> (r: Step)
        ensures
            r@ == self@.not_owned(),
    {
        let mut s = self.target.name;
        s.append(": ");
        s.append(self.target.point.as_str());
        s.append(" is serving ");
        s.append(self.source.as_str());
        s.append(", not ");
        s.append(self.target.fs_spec.as_str());
        s.append(" — refusing to unmount something this mount does not own");
        Step::Finished(Err(SupervisorError::NotManaged(s)))
    }

    fn on_status(self, status: UnitStatus) -> (r: Step)
        requires
            self.phase == Phase::ReadStatus,
        ensures
            r@ == self@.next(Answer::Status(Ok(status))),
    {
        let mut u = self;
        u.status = status;
        if u.live && !u.is_ours() && !u.force {
            return Step::Finished(Err(SupervisorError::NotManaged(u.target.name)));
        }
        if u.live {
            u.to_phase(Phase::CheckSource)
        } else if u.is_ours() {
            // The path for a unit restart-looping without ever serving.
            u.to_phase(Phase::StopUnit)
        } else {
            Step::Finished(Ok(()))
        }
    }

    fn on_source(self, live: &Vec<MountEntry>) -> (r: Step)
        requires
            self.phase == Phase::CheckSource,
        ensures
            r@ == self@.next(Answer::Mounts(views(live@))),
    {
        match find_rclone_at(live, self.target.point.as_str()) {
            Some(e) => {
                // The source is rclone's record of the file system it resolved, not the
                // argument it was handed, so a mismatch is no proof on its own. The unit's
                // argv is, while the unit serves: a dead unit's argv goes on naming the
                // point, whatever somebody else has mounted there since.
                if !self.force && !same_text(e.source.as_str(), self.target.fs_spec.as_str()) {
                    let mut u = self;
                    u.source = e.source.clone();
                    if u.status.is_serving() {
                        u.to_phase(Phase::ReadArgv)
                    } else {
                        u.refuse_ownership()
                    }
                } else {
                    self.to_phase(Phase::Probe)
                }
            },
            None => self.to_phase(Phase::Probe),
        }
    }

    fn on_mounts(self, live: &Vec<MountEntry>) -> (r: Step)
        ensures
            r@ == self@.next(Answer::Mounts(views(live@))),
    {
        let mounted = is_mounted_at(live, self.target.point.as_str());
        match self.phase {
            Phase::ReadMounts => {
                let mut u = self;
                u.live = mounted;
                u.phase = Phase::ReadStatus;
                Step::Go(u)
            },
            Phase::CheckSource => self.on_source(live),
            Phase::CheckProbe => {
                // A point that is no longer mounted is not a failure to unmount it: rclone
                // may have crashed in between.
                let mut u = self;
                if mounted && !(u.force && u.is_ours()) {
                    if let Some(e) = u.refusal.take() {
                        return Step::Finished(Err(refused(u.target.point.as_str(), e)));
                    }
                }
                u.after_release()
            },
            Phase::CheckLeft => if mounted {
                self.to_phase(Phase::ReleaseLeft)
            } else {
                Step::Finished(Ok(()))
            },
            _ => Step::Go(self),
        }
    }

    fn on_done(self, done: Result<(), SupervisorError>) -> (r: Step)
        ensures
            r@ == self@.next(Answer::Done(outcome(done))),
    {
        match done {
            Ok(_) => match self.phase {
                Phase::Probe => self.after_release(),
                Phase::StopUnit => if self.live {
                    self.to_phase(Phase::AwaitGone)
                } else {
                    self.to_phase(Phase::AwaitUnitGone)
                },
                // The name is not free until systemd finishes the job, and a remount
                // immediately after would collide with it.
                Phase::AwaitUnitGone => self.to_phase(Phase::ResetStopped),
                Phase::ReleaseLeft | Phase::Detach => self.to_phase(Phase::AwaitLeft),
                Phase::ResetStopped | Phase::ResetLeft => Step::Finished(Ok(())),
                _ => Step::Go(self),
            },
            Err(e) => match self.phase {
                Phase::Probe => {
                    let mut u = self;
                    u.refusal = Some(e);
                    u.phase = Phase::CheckProbe;
                    Step::Go(u)
                },
                Phase::ReleaseLeft => if self.force && self.is_ours() {
                    self.to_phase(Phase::Detach)
                } else {
                    Step::Finished(Err(refused(self.target.point.as_str(), e)))
                },
                _ => Step::Finished(Err(e)),
            },
        }
    }

    /// Go on with the answer to what was asked. Nothing is stopped before the kernel has
    /// been asked for the point, because refusing after the unit was signalled refuses
    /// nothing.
    pub fn step(self, answer: Answer) -> (r: Step)
        ensures
            r@ == self@.next(answer@),
    {
        match answer {
            Answer::Mounts(live) => self.on_mounts(&live),
            Answer::Status(Ok(status)) => match self.phase {
                Phase::ReadStatus => self.on_status(status),
                _ => Step::Go(self),
            },
            Answer::Status(Err(e)) => Step::Finished(Err(e)),
            Answer::ArgvPoint(Ok(p)) => match self.phase {
                Phase::ReadArgv => {
                    let owned = match &p {
                        Some(p) => same_path(p.as_str(), self.target.point.as_str()),
                        None => false,
                    };
                    if owned {
                        self.to_phase(Phase::Probe)
                    } else {
                        self.refuse_ownership()
                    }
                },
                _ => Step::Go(self),
            },
            Answer::ArgvPoint(Err(e)) => Step::Finished(Err(e)),
            Answer::Done(done) => self.on_done(done),
            Answer::Gone(gone) => match self.phase {
                Phase::AwaitGone => if gone {
                    self.to_phase(Phase::AwaitUnitGone)
                } else {
                    self.to_phase(Phase::CheckLeft)
                },
                Phase::AwaitLeft => if gone {
                    // Reaching here means that the stop timed out, which leaves the unit
                    // failed.
                    self.to_phase(Phase::ResetLeft)
                } else {
                    let mut s = self.target.point;
                    s.append(
                        " is still mounted after everything this can do to release it. Something is holding it that a lazy unmount did not clear either, so there is likely a second filesystem stacked under the same path.",
                    );
                    Step::Finished(Err(SupervisorError::Busy { detail: s }))
                },
                _ => Step::Go(self),
            },
        }
    }
}

} // verus!
