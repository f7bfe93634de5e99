//! Taking a mount down, as whoever drives it sees it: the questions, in their order, with what
//! they are about and how long they wait.

use crate::errors::SupervisorError;
use crate::mountinfo::{mounted_at, MountEntry};
use crate::paths::same_place;
use crate::supervisor::orphans::Target;
use crate::supervisor::unmount::{
    after, an_unmount_keeps_to_its_target, nothing_is_detached_lightly, passed, passed_at,
    rclone_at, the_kernel_is_asked_before_the_unit_is_stopped, Answer, AnswerModel, Ask, Phase,
    Release, Step, Timeouts, Unmount,
};
use crate::systemd::UnitStatus;
use crate::text::occurs_in;
use vstd::prelude::*;

verus! {

/// Whether a step asks a question next.
pub open spec fn asks_next(s: Step<Seq<char>>, q: Ask<Seq<char>>) -> bool {
    s matches Step::Go(v) && v.asks() == q
}

/// Whether a step ends the unmount with success.
pub open spec fn succeeds(s: Step<Seq<char>>) -> bool {
    s matches Step::Finished(r) && r is Ok
}

/// Whether a step ends the unmount with this error.
pub open spec fn fails_with(s: Step<Seq<char>>, e: SupervisorError<Seq<char>>) -> bool {
    s matches Step::Finished(Err(f)) && f == e
}

/// What follows an answer to what a step asked.
pub open spec fn follow(s: Step<Seq<char>>, a: AnswerModel) -> Step<Seq<char>> {
    s->Go_0.next(a)
}

/// An unmount that has found out what is mounted and what the unit does.
pub open spec fn begun(
    t: Target<Seq<char>>,
    force: bool,
    timeouts: Timeouts,
    mounts: Seq<MountEntry<Seq<char>>>,
    status: UnitStatus,
) -> Step<Seq<char>> {
    follow(
        Unmount::start(t, force, timeouts).next(Answer::Mounts(mounts)),
        Answer::Status(Ok(status)),
    )
}

/// First the mount table is read, then the unit's status. Nothing mounted and no unit is
/// nothing to do; a unit without a mount is stopped; a mount without a unit is somebody
/// else's, and refused unless forced; and of any other mount it is asked what serves it.
pub proof fn how_an_unmount_begins(
    t: Target<Seq<char>>,
    force: bool,
    timeouts: Timeouts,
    mounts: Seq<MountEntry<Seq<char>>>,
    status: UnitStatus,
    e: SupervisorError<Seq<char>>,
)
    ensures
        Unmount::start(t, force, timeouts).asks() == Ask::<Seq<char>>::Mounts,
        ({
            let u = Unmount::start(t, force, timeouts).next(Answer::Mounts(mounts));
            let v = begun(t, force, timeouts, mounts, status);
            let live = mounted_at(mounts, t.point);
            let ours = status != UnitStatus::Inactive;
            &&& asks_next(u, Ask::Status(t.unit))
            &&& fails_with(follow(u, Answer::Status(Err(e))), e)
            &&& !live && !ours ==> succeeds(v)
            &&& !live && ours ==> asks_next(v, Ask::Stop(t.unit))
            &&& live && !ours && !force ==> fails_with(v, SupervisorError::NotManaged(t.name))
            &&& live && (ours || force) ==> asks_next(v, Ask::Mounts)
        }),
{
}

/// Whether an entry is an rclone mount at a point.
pub open spec fn serves_point(e: MountEntry<Seq<char>>, point: Seq<char>) -> bool {
    e.by_rclone() && same_place(e.mount_point, point)
}

proof fn lemma_rclone_at(live: Seq<MountEntry<Seq<char>>>, point: Seq<char>)
    ensures
        rclone_at(live, point) matches Some(e) ==> live.contains(e) && serves_point(e, point),
        rclone_at(live, point) is None ==> forall|i: int|
            0 <= i < live.len() ==> !serves_point(#[trigger] live[i], point),
    decreases live.len(),
{
    if live.len() > 0 {
        let rest = live.drop_first();
        lemma_rclone_at(rest, point);
        if serves_point(live[0], point) {
            assert(live.contains(live[0]));
        } else if let Some(e) = rclone_at(rest, point) {
            let i = choose|i: int| 0 <= i < rest.len() && rest[i] == e;
            assert(live[i + 1] == e);
        } else {
            assert forall|i: int| 0 <= i < live.len() implies !serves_point(
                #[trigger] live[i],
                point,
            ) by {
                if i > 0 {
                    assert(rest[i - 1] == live[i]);
                }
            }
        }
    }
}

/// Whether an argv names a point.
pub open spec fn leads_to(argv: Option<Seq<char>>, point: Seq<char>) -> bool {
    argv is Some && same_place(argv->0, point)
}

/// Whether a step ends the unmount because the mount is not ours to act on.
pub open spec fn disowned(s: Step<Seq<char>>) -> bool {
    s is Finished && s->Finished_0 is Err && s->Finished_0->Err_0 is NotManaged
}

/// Of a mount at the point it is then asked whether it is what the unit was to serve. Where
/// it is, where no rclone serves the point, or where the user forced it, the kernel is asked
/// for the point, plainly. Where everything that rclone serves there is something else, a
/// unit that serves is asked where it mounted, and any other unit does not own it. An argv
/// that names the point settles it.
pub proof fn only_what_is_owned_is_released(
    t: Target<Seq<char>>,
    force: bool,
    timeouts: Timeouts,
    mounts: Seq<MountEntry<Seq<char>>>,
    status: UnitStatus,
    now: Seq<MountEntry<Seq<char>>>,
    argv: Option<Seq<char>>,
    e: SupervisorError<Seq<char>>,
)
    requires
        mounted_at(mounts, t.point),
        status != UnitStatus::Inactive || force,
    ensures
        ({
            let v = follow(begun(t, force, timeouts, mounts, status), Answer::Mounts(now));
            let w = follow(v, Answer::ArgvPoint(Ok(argv)));
            let all_ours = forall|i: int|
                0 <= i < now.len() && serves_point(#[trigger] now[i], t.point) ==> now[i].source
                    == t.fs_spec;
            let none_ours = (forall|i: int|
                0 <= i < now.len() && serves_point(#[trigger] now[i], t.point) ==> now[i].source
                    != t.fs_spec) && exists|i: int|
                0 <= i < now.len() && serves_point(#[trigger] now[i], t.point);
            let release = Ask::Release(t.point, Release::Refuse);
            &&& force || all_ours ==> asks_next(v, release)
            &&& !force && none_ours && status.serves() ==> {
                &&& asks_next(v, Ask::ArgvPoint(t.unit))
                &&& fails_with(follow(v, Answer::ArgvPoint(Err(e))), e)
                &&& leads_to(argv, t.point) ==> asks_next(w, release)
                &&& !leads_to(argv, t.point) ==> disowned(w)
            }
            &&& !force && none_ours && !status.serves() ==> disowned(v)
        }),
{
    lemma_rclone_at(now, t.point);
    if let Some(e) = rclone_at(now, t.point) {
        let i = choose|i: int| 0 <= i < now.len() && now[i] == e;
        assert(serves_point(now[i], t.point));
    }
}

/// An unmount that has come to ask the kernel for its point.
pub open spec fn releasing(
    t: Target<Seq<char>>,
    force: bool,
    timeouts: Timeouts,
    mounts: Seq<MountEntry<Seq<char>>>,
    status: UnitStatus,
    now: Seq<MountEntry<Seq<char>>>,
) -> Step<Seq<char>> {
    follow(begun(t, force, timeouts, mounts, status), Answer::Mounts(now))
}

/// Once the kernel gives the point back, the unit is stopped, where there is one. Where the
/// kernel refuses it is looked whether the point is mounted still; if it is, the refusal ends
/// the unmount, unless it was forced and the unit is ours to stop.
pub proof fn a_refusal_ends_an_unmount_unless_forced(
    t: Target<Seq<char>>,
    force: bool,
    timeouts: Timeouts,
    mounts: Seq<MountEntry<Seq<char>>>,
    status: UnitStatus,
    now: Seq<MountEntry<Seq<char>>>,
    left: Seq<MountEntry<Seq<char>>>,
    e: SupervisorError<Seq<char>>,
)
    requires
        mounted_at(mounts, t.point),
        status != UnitStatus::Inactive || force,
        asks_next(
            releasing(t, force, timeouts, mounts, status, now),
            Ask::Release(t.point, Release::Refuse),
        ),
    ensures
        ({
            let v = releasing(t, force, timeouts, mounts, status, now);
            let given = follow(v, Answer::Done(Ok(())));
            let kept = follow(v, Answer::Done(Err(e)));
            let looked = follow(kept, Answer::Mounts(left));
            let ours = status != UnitStatus::Inactive;
            &&& ours ==> asks_next(given, Ask::Stop(t.unit))
            &&& !ours ==> asks_next(given, Ask::Mounts)
            &&& asks_next(kept, Ask::Mounts)
            &&& mounted_at(left, t.point) && !(force && ours) ==> {
                &&& looked matches Step::Finished(Err(f))
                &&& match e {
                    SupervisorError::Busy { detail } => {
                        &&& f matches SupervisorError::Busy { detail: said }
                        &&& detail.is_prefix_of(said)
                        &&& occurs_in("`fuser -m "@ + t.point + "`"@, said)
                    },
                    _ => f == e,
                }
            }
            &&& !mounted_at(left, t.point) || (force && ours) ==> {
                &&& ours ==> asks_next(looked, Ask::Stop(t.unit))
                &&& !ours ==> asks_next(looked, Ask::Mounts)
            }
        }),
{
    let v = releasing(t, force, timeouts, mounts, status, now);
    if let SupervisorError::Busy { detail } = e {
        lemma_advice(detail, t.point);
    }
}

proof fn lemma_advice(detail: Seq<char>, point: Seq<char>)
    ensures
        ({
            let said = crate::supervisor::unmount::refusal_of(
                point,
                SupervisorError::Busy { detail },
            )->detail;
            &&& detail.is_prefix_of(said)
            &&& occurs_in("`fuser -m "@ + point + "`"@, said)
        }),
{
    let said = crate::supervisor::unmount::refusal_of(
        point,
        SupervisorError::Busy { detail },
    )->detail;
    let before =
        ". Usually a process is still using the mount — a file open under it, or a shell whose working directory is inside it. `fuser -m "@;
    let behind =
        "` names them. Unmounting anyway cuts anything mid-write off, and rclone then uploads the partial file as if it were complete."@;
    reveal_strlit(
        ". Usually a process is still using the mount — a file open under it, or a shell whose working directory is inside it. `fuser -m ",
    );
    reveal_strlit(
        "` names them. Unmounting anyway cuts anything mid-write off, and rclone then uploads the partial file as if it were complete.",
    );
    reveal_strlit("`fuser -m ");
    reveal_strlit("`");
    let command = "`fuser -m "@ + point + "`"@;
    let at = detail.len() + before.len() - "`fuser -m "@.len();
    assert(said == detail + before + point + behind);
    assert(said.subrange(at, at + command.len()) == command);
    assert(crate::text::occurs_at(command, said, at));
}

/// An unmount that has come to stop the unit of a mounted point, or of one that is not.
pub open spec fn stopping(
    t: Target<Seq<char>>,
    force: bool,
    timeouts: Timeouts,
    mounts: Seq<MountEntry<Seq<char>>>,
    status: UnitStatus,
    now: Seq<MountEntry<Seq<char>>>,
) -> Step<Seq<char>> {
    if mounted_at(mounts, t.point) {
        follow(releasing(t, force, timeouts, mounts, status, now), Answer::Done(Ok(())))
    } else {
        begun(t, force, timeouts, mounts, status)
    }
}

/// Once the unit was told to stop, a mounted point is given its configured time to go, then
/// the unit is given its own, and then its failure is cleared, which decides how the unmount
/// ends. A point that does not go in time is looked at again. Any failure on the way ends the
/// unmount as it is.
pub proof fn a_stop_is_waited_out(
    t: Target<Seq<char>>,
    force: bool,
    timeouts: Timeouts,
    mounts: Seq<MountEntry<Seq<char>>>,
    status: UnitStatus,
    now: Seq<MountEntry<Seq<char>>>,
    e: SupervisorError<Seq<char>>,
)
    requires
        status != UnitStatus::Inactive,
        mounted_at(mounts, t.point) ==> asks_next(
            releasing(t, force, timeouts, mounts, status, now),
            Ask::Release(t.point, Release::Refuse),
        ),
    ensures
        ({
            let v = stopping(t, force, timeouts, mounts, status, now);
            let stopped = follow(v, Answer::Done(Ok(())));
            let gone = if mounted_at(mounts, t.point) {
                follow(stopped, Answer::Gone(true))
            } else {
                stopped
            };
            let free = follow(gone, Answer::Done(Ok(())));
            &&& asks_next(v, Ask::Stop(t.unit))
            &&& fails_with(follow(v, Answer::Done(Err(e))), e)
            &&& mounted_at(mounts, t.point) ==> {
                &&& asks_next(stopped, Ask::AwaitGone(t.point, timeouts.gone_ms))
                &&& asks_next(follow(stopped, Answer::Gone(false)), Ask::Mounts)
            }
            &&& asks_next(gone, Ask::AwaitUnitGone(t.unit, timeouts.unit_gone_ms))
            &&& fails_with(follow(gone, Answer::Done(Err(e))), e)
            &&& asks_next(free, Ask::ResetFailed(t.unit))
            &&& succeeds(follow(free, Answer::Done(Ok(()))))
            &&& fails_with(follow(free, Answer::Done(Err(e))), e)
        }),
{
}

/// An unmount that looks once more whether its point is mounted: the unit was stopped and the
/// point did not go in time, or there was no unit to stop.
pub open spec fn looking_again(
    t: Target<Seq<char>>,
    force: bool,
    timeouts: Timeouts,
    mounts: Seq<MountEntry<Seq<char>>>,
    status: UnitStatus,
    now: Seq<MountEntry<Seq<char>>>,
) -> Step<Seq<char>> {
    let given = follow(releasing(t, force, timeouts, mounts, status, now), Answer::Done(Ok(())));
    if status != UnitStatus::Inactive {
        follow(follow(given, Answer::Done(Ok(()))), Answer::Gone(false))
    } else {
        given
    }
}

/// A point that is not mounted any more is all that was wanted. One that is mounted still is
/// asked for plainly once more; where that is refused it is detached if the unmount was
/// forced and the unit is ours, and the refusal ends the unmount if not. A point that was
/// given back has ten seconds to go, after which the unit's failure is cleared; one that
/// stays is reported as held.
pub proof fn a_point_left_mounted_is_asked_for_again(
    t: Target<Seq<char>>,
    force: bool,
    timeouts: Timeouts,
    mounts: Seq<MountEntry<Seq<char>>>,
    status: UnitStatus,
    now: Seq<MountEntry<Seq<char>>>,
    left: Seq<MountEntry<Seq<char>>>,
    e: SupervisorError<Seq<char>>,
)
    requires
        mounted_at(mounts, t.point),
        status != UnitStatus::Inactive || force,
        asks_next(
            releasing(t, force, timeouts, mounts, status, now),
            Ask::Release(t.point, Release::Refuse),
        ),
    ensures
        ({
            let v = looking_again(t, force, timeouts, mounts, status, now);
            let asked = follow(v, Answer::Mounts(left));
            let refused = follow(asked, Answer::Done(Err(e)));
            let given = follow(asked, Answer::Done(Ok(())));
            let detached = follow(refused, Answer::Done(Ok(())));
            let reset = follow(given, Answer::Gone(true));
            let stuck = follow(given, Answer::Gone(false));
            let ours = status != UnitStatus::Inactive;
            let waits = Ask::AwaitGone(t.point, 10_000u64);
            &&& asks_next(v, Ask::Mounts)
            &&& !mounted_at(left, t.point) ==> succeeds(asked)
            &&& mounted_at(left, t.point) ==> {
                &&& asks_next(asked, Ask::Release(t.point, Release::Refuse))
                &&& asks_next(given, waits)
                &&& asks_next(reset, Ask::ResetFailed(t.unit))
                &&& succeeds(follow(reset, Answer::Done(Ok(()))))
                &&& fails_with(follow(reset, Answer::Done(Err(e))), e)
                &&& (stuck matches Step::Finished(Err(SupervisorError::Busy { detail }))
                    && t.point.is_prefix_of(detail))
                &&& force && ours ==> {
                    &&& asks_next(refused, Ask::Release(t.point, Release::Detach))
                    &&& asks_next(detached, waits)
                    &&& fails_with(follow(refused, Answer::Done(Err(e))), e)
                }
                &&& !(force && ours) ==> {
                    &&& refused matches Step::Finished(Err(f))
                    &&& match e {
                        SupervisorError::Busy { detail } => {
                            &&& f matches SupervisorError::Busy { detail: said }
                            &&& detail.is_prefix_of(said)
                        },
                        _ => f == e,
                    }
                }
            }
        }),
{
    if let SupervisorError::Busy { detail } = e {
        lemma_advice(detail, t.point);
    }
}

/// Whether a question was asked in a run, and answered.
pub open spec fn asked(
    u: Unmount<Seq<char>>,
    answers: Seq<AnswerModel>,
    q: Ask<Seq<char>>,
) -> bool {
    exists|k: int| #[trigger] asked_at(u, answers, q, k)
}

/// Whether this answer of a run was given to a question.
pub open spec fn asked_at(
    u: Unmount<Seq<char>>,
    answers: Seq<AnswerModel>,
    q: Ask<Seq<char>>,
    k: int,
) -> bool {
    0 <= k < answers.len() && asks_next(after(u, answers.take(k)), q)
}

proof fn lemma_asked(
    t: Target<Seq<char>>,
    force: bool,
    timeouts: Timeouts,
    answers: Seq<AnswerModel>,
    phase: Phase,
    q: Ask<Seq<char>>,
)
    requires
        passed(Unmount::start(t, force, timeouts), answers, phase),
        q == (Unmount { phase, ..Unmount::start(t, force, timeouts) }).asks(),
    ensures
        asked(Unmount::start(t, force, timeouts), answers, q),
{
    let u = Unmount::start(t, force, timeouts);
    let k = choose|k: int| passed_at(u, answers, phase, k);
    an_unmount_keeps_to_its_target(t, force, timeouts, answers.take(k));
    assert(asked_at(u, answers, q, k));
}

/// In no run is a point detached unless the unmount was forced, the unit was told to stop,
/// and the kernel was asked for the point plainly.
pub proof fn only_a_forced_unmount_detaches(
    t: Target<Seq<char>>,
    force: bool,
    timeouts: Timeouts,
    answers: Seq<AnswerModel>,
)
    requires
        after(Unmount::start(t, force, timeouts), answers) is Go,
        after(Unmount::start(t, force, timeouts), answers)->Go_0.asks() == Ask::Release(
            t.point,
            Release::Detach,
        ),
    ensures
        force,
        asked(Unmount::start(t, force, timeouts), answers, Ask::Stop(t.unit)),
        asked(
            Unmount::start(t, force, timeouts),
            answers,
            Ask::Release(t.point, Release::Refuse),
        ),
{
    nothing_is_detached_lightly(t, force, timeouts, answers);
    lemma_asked(t, force, timeouts, answers, Phase::StopUnit, Ask::Stop(t.unit));
    lemma_asked(
        t,
        force,
        timeouts,
        answers,
        Phase::ReleaseLeft,
        Ask::Release(t.point, Release::Refuse),
    );
}

/// In no run is the unit of a mounted point told to stop before the kernel was asked for the
/// point.
pub proof fn nothing_is_stopped_before_the_kernel_is_asked(
    t: Target<Seq<char>>,
    force: bool,
    timeouts: Timeouts,
    first: Seq<MountEntry<Seq<char>>>,
    answers: Seq<AnswerModel>,
)
    requires
        answers.len() > 0,
        answers[0] == AnswerModel::Mounts(first),
        mounted_at(first, t.point),
        after(Unmount::start(t, force, timeouts), answers) is Go,
        after(Unmount::start(t, force, timeouts), answers)->Go_0.asks() is Stop,
    ensures
        asked(
            Unmount::start(t, force, timeouts),
            answers,
            Ask::Release(t.point, Release::Refuse),
        ),
{
    lemma_live_is_kept(t, force, timeouts, first, answers);
    the_kernel_is_asked_before_the_unit_is_stopped(t, force, timeouts, answers);
    lemma_asked(
        t,
        force,
        timeouts,
        answers,
        Phase::Probe,
        Ask::Release(t.point, Release::Refuse),
    );
}

proof fn lemma_live_is_kept(
    t: Target<Seq<char>>,
    force: bool,
    timeouts: Timeouts,
    first: Seq<MountEntry<Seq<char>>>,
    answers: Seq<AnswerModel>,
)
    requires
        answers.len() > 0,
        answers[0] == AnswerModel::Mounts(first),
    ensures
        after(Unmount::start(t, force, timeouts), answers) matches Step::Go(v) ==> v.live
            == mounted_at(first, t.point) && v.phase != Phase::ReadMounts,
    decreases answers.len(),
{
    let u = Unmount::start(t, force, timeouts);
    let before = answers.drop_last();
    if before.len() > 0 {
        assert(before[0] == answers[0]);
        lemma_live_is_kept(t, force, timeouts, first, before);
    } else {
        assert(after(u, before) == Step::Go(u));
        assert(answers.last() == answers[0]);
    }
}

} // verus!
