//! Bringing a mount up, as whoever drives it sees it: the questions, in their order, with what
//! they are about and how long they wait.

use crate::config::unit_named;
use crate::errors::SupervisorError;
use crate::laws::words::lemma_stands_between;
use crate::mountinfo::{mounted_at, MountEntry};
use crate::paths::same_place;
use crate::supervisor::orphans::{a_unit_name_maps_back_to_its_mount, mount_of_unit, Target};
use crate::supervisor::start::{
    start_after, the_plan_is_kept, unconfigured_refusal, PlanModel, StartAnswer, StartAnswerModel,
    StartAsk, StartModel, StartStep, StartStepModel,
};
use crate::supervisor::targets::{lemma_found_among, Wanted};
use crate::supervisor::unmount::{Release, Timeouts};
use crate::systemd::{argv_serving, Serving, UnitStatus};
use crate::text::{finishes_with, occurs_in};
use vstd::prelude::*;

verus! {

/// A question, by its view.
pub type AskModel = StartAsk<Seq<char>, Seq<Seq<char>>>;

/// Whether a step asks a question next.
pub open spec fn asks_next(s: StartStepModel, q: AskModel) -> bool {
    s matches StartStep::Go(t) && t.asks() == q
}

/// Whether a step ends the attempt with success.
pub open spec fn succeeds(s: StartStepModel) -> bool {
    s matches StartStep::Finished(r) && r is Ok
}

/// Whether a step ends the attempt with this error.
pub open spec fn fails_with(s: StartStepModel, e: SupervisorError<Seq<char>>) -> bool {
    s matches StartStep::Finished(Err(f)) && f == e
}

/// Whether a step ends the attempt because something is not ours to act on, and says this.
pub open spec fn refuses_saying(s: StartStepModel, words: Seq<char>) -> bool {
    &&& s is Finished
    &&& s->Finished_0 is Err
    &&& s->Finished_0->Err_0 is NotManaged
    &&& occurs_in(words, s->Finished_0->Err_0->NotManaged_0)
}

/// What follows an answer to what a step asked.
pub open spec fn follow(s: StartStepModel, a: StartAnswerModel) -> StartStepModel {
    s->Go_0.next(a)
}

/// Whether no target runs as this unit.
pub open spec fn unit_is_free(ts: Seq<Target<Seq<char>>>, unit: Seq<char>) -> bool {
    forall|i: int| 0 <= i < ts.len() ==> (#[trigger] ts[i]).unit != unit
}

/// Whether no target holds this point.
pub open spec fn point_is_free(ts: Seq<Target<Seq<char>>>, point: Seq<char>) -> bool {
    forall|i: int| 0 <= i < ts.len() ==> !same_place((#[trigger] ts[i]).point, point)
}

/// An attempt that has found its unit's name free and knows where its point is.
pub open spec fn located(
    plan: PlanModel,
    timeouts: Timeouts,
    orphans: Seq<Target<Seq<char>>>,
    point: Seq<char>,
) -> StartStepModel {
    follow(
        StartModel::fresh(plan, timeouts).next(StartAnswer::Orphans(Ok(orphans))),
        StartAnswer::Path(point),
    )
}

/// First comes a sweep for orphans: one that runs as the mount's own unit ends the attempt,
/// and it says where that one serves. Then the mount point is resolved, and then the mount
/// table is read. A free point is prepared at once; of an occupied one it is asked whether
/// anything serves it.
pub proof fn how_bringing_a_mount_up_begins(
    plan: PlanModel,
    timeouts: Timeouts,
    orphans: Seq<Target<Seq<char>>>,
    point: Seq<char>,
    mounts: Seq<MountEntry<Seq<char>>>,
    e: SupervisorError<Seq<char>>,
    i: int,
)
    ensures
        StartModel::fresh(plan, timeouts).asks() == AskModel::Orphans,
        ({
            let s = StartModel::fresh(plan, timeouts);
            let unit = unit_named(plan.mount.name);
            let swept = s.next(StartAnswer::Orphans(Ok(orphans)));
            let found = located(plan, timeouts, orphans, point);
            let read = follow(found, StartAnswer::Mounts(mounts));
            &&& fails_with(s.next(StartAnswer::Orphans(Err(e))), e)
            &&& 0 <= i < orphans.len() && orphans[i].unit == unit ==> refuses_saying(swept, unit)
            &&& unit_is_free(orphans, unit) ==> {
                &&& asks_next(swept, StartAsk::Resolve(plan.mount.mount_point))
                &&& asks_next(found, StartAsk::Mounts)
                &&& !mounted_at(mounts, point) ==> asks_next(
                    read,
                    StartAsk::PreparePoint(plan.mount.mount_point),
                )
                &&& mounted_at(mounts, point) ==> asks_next(read, StartAsk::Stale(point))
            }
        }),
{
    let unit = unit_named(plan.mount.name);
    let name = plan.mount.name;
    lemma_found_among(orphans, Wanted::OfUnit(unit));
    if let Some(o) = crate::supervisor::targets::find_target(orphans, Wanted::OfUnit(unit)) {
        let said = crate::supervisor::start::moved_refusal(name, o);
        let behind = " is still serving "@ + o.point
            + ", the mount point this entry had before it was changed. Unmount "@ + name
            + " first, then mount it again."@;
        lemma_stands_between(name + ": "@, o.unit, behind);
        assert(said == name + ": "@ + o.unit + behind);
        let k = choose|k: int| 0 <= k < orphans.len() && orphans[k] == o;
        assert(orphans[k].unit == unit);
    }
    if 0 <= i < orphans.len() && orphans[i].unit == unit {
        assert(crate::supervisor::targets::is_wanted(orphans[i], Wanted::OfUnit(unit)));
    }
}

/// A point that is mounted but served by nothing is asked back from the kernel, plainly, once
/// a sweep has found no unit of ours behind it; an orphan behind it ends the attempt, and is
/// named.
pub proof fn an_unserved_point_is_cleared_first(
    plan: PlanModel,
    timeouts: Timeouts,
    orphans: Seq<Target<Seq<char>>>,
    point: Seq<char>,
    mounts: Seq<MountEntry<Seq<char>>>,
    again: Seq<Target<Seq<char>>>,
    e: SupervisorError<Seq<char>>,
)
    requires
        unit_is_free(orphans, unit_named(plan.mount.name)),
        mounted_at(mounts, point),
    ensures
        ({
            let read = follow(
                located(plan, timeouts, orphans, point),
                StartAnswer::Mounts(mounts),
            );
            let stale = follow(read, StartAnswer::Stale(true));
            let swept = follow(stale, StartAnswer::Orphans(Ok(again)));
            &&& asks_next(stale, StartAsk::Orphans)
            &&& fails_with(follow(stale, StartAnswer::Orphans(Err(e))), e)
            &&& point_is_free(again, point) ==> {
                &&& asks_next(swept, StartAsk::Release(point, Release::Refuse))
                &&& fails_with(follow(swept, StartAnswer::Done(Err(e))), e)
                &&& asks_next(
                    follow(swept, StartAnswer::Done(Ok(()))),
                    StartAsk::PreparePoint(plan.mount.mount_point),
                )
            }
            &&& !point_is_free(again, point) ==> exists|k: int|
                0 <= k < again.len() && same_place((#[trigger] again[k]).point, point)
                    && refuses_saying(swept, again[k].unit)
        }),
{
    how_bringing_a_mount_up_begins(plan, timeouts, orphans, point, mounts, e, 0);
    lemma_held(plan.mount.name, point, again);
}

proof fn lemma_held(name: Seq<char>, point: Seq<char>, ts: Seq<Target<Seq<char>>>)
    ensures
        point_is_free(ts, point) ==> crate::supervisor::targets::take_over(name, point, ts) is Ok,
        !point_is_free(ts, point) ==> {
            let r = crate::supervisor::targets::take_over(name, point, ts);
            &&& r is Err
            &&& r->Err_0 is NotManaged
            &&& exists|k: int|
                0 <= k < ts.len() && same_place((#[trigger] ts[k]).point, point) && occurs_in(
                    ts[k].unit,
                    r->Err_0->NotManaged_0,
                )
        },
{
    let w = Wanted::At(point);
    lemma_found_among(ts, w);
    if let Some(o) = crate::supervisor::targets::find_target(ts, w) {
        let k = choose|k: int| 0 <= k < ts.len() && ts[k] == o;
        assert(same_place(ts[k].point, point));
        let behind = ", left over from a mount this config no longer names. Unmount "@
            + crate::text::debug_text(o.name) + " first."@;
        lemma_stands_between(name + ": "@ + point + " is still held by "@, o.unit, behind);
        assert(crate::supervisor::targets::held_over(name, point, o) == name + ": "@ + point
            + " is still held by "@ + o.unit + behind);
    } else {
        assert forall|i: int| 0 <= i < ts.len() implies !same_place(
            (#[trigger] ts[i]).point,
            point,
        ) by {
            assert(!crate::supervisor::targets::is_wanted(ts[i], w));
        }
    }
}

/// Where something serves the point, the mount's own unit decides. One that is up is all that
/// was wanted. One on its way out is given the time configured for it, and then the point is
/// prepared. Any other does not serve the point itself, so a sweep has to find it free of
/// ours; what is then found is a unit coming up, which is all that was wanted, one that
/// failed, after which the point is prepared, or none: then the point is somebody else's.
pub proof fn a_served_point_is_taken_from_nobody(
    plan: PlanModel,
    timeouts: Timeouts,
    orphans: Seq<Target<Seq<char>>>,
    point: Seq<char>,
    mounts: Seq<MountEntry<Seq<char>>>,
    status: UnitStatus,
    again: Seq<Target<Seq<char>>>,
    e: SupervisorError<Seq<char>>,
)
    requires
        unit_is_free(orphans, unit_named(plan.mount.name)),
        mounted_at(mounts, point),
    ensures
        ({
            let unit = unit_named(plan.mount.name);
            let read = follow(
                located(plan, timeouts, orphans, point),
                StartAnswer::Mounts(mounts),
            );
            let served = follow(read, StartAnswer::Stale(false));
            let known = follow(served, StartAnswer::Status(Ok(status)));
            let swept = follow(known, StartAnswer::Orphans(Ok(again)));
            let prepares = StartAsk::PreparePoint(plan.mount.mount_point);
            &&& asks_next(served, StartAsk::Status(unit))
            &&& fails_with(follow(served, StartAnswer::Status(Err(e))), e)
            &&& status == UnitStatus::Active ==> succeeds(known)
            &&& status == UnitStatus::Deactivating ==> {
                &&& asks_next(known, StartAsk::AwaitUnitGone(unit, timeouts.unit_gone_ms))
                &&& fails_with(follow(known, StartAnswer::Done(Err(e))), e)
                &&& asks_next(follow(known, StartAnswer::Done(Ok(()))), prepares)
            }
            &&& status != UnitStatus::Active && status != UnitStatus::Deactivating ==> {
                &&& asks_next(known, StartAsk::Orphans)
                &&& fails_with(follow(known, StartAnswer::Orphans(Err(e))), e)
                &&& !point_is_free(again, point) ==> exists|k: int|
                    0 <= k < again.len() && same_place((#[trigger] again[k]).point, point)
                        && refuses_saying(swept, again[k].unit)
                &&& point_is_free(again, point) ==> match status {
                    UnitStatus::Activating => succeeds(swept),
                    UnitStatus::Failed => asks_next(swept, prepares),
                    _ => refuses_saying(swept, point),
                }
            }
        }),
{
    how_bringing_a_mount_up_begins(plan, timeouts, orphans, point, mounts, e, 0);
    lemma_held(plan.mount.name, point, again);
    let name = plan.mount.name;
    lemma_stands_between(
        name + ": "@,
        point,
        " is already mounted by something we did not start"@,
    );
}

/// An attempt that has come to prepare its point.
pub open spec fn preparing(
    plan: PlanModel,
    timeouts: Timeouts,
    orphans: Seq<Target<Seq<char>>>,
    point: Seq<char>,
    mounts: Seq<MountEntry<Seq<char>>>,
) -> StartStepModel {
    follow(located(plan, timeouts, orphans, point), StartAnswer::Mounts(mounts))
}

/// Once the point is prepared the runtime directory is, and the unit is asked for again. One
/// that is up or coming up is waited for, as long as configured, and how that wait ends is
/// how the attempt ends. One on its way out is given its time first. Then what is left of the
/// socket is removed, which may fail, the unit's failure is cleared, the unit is started, and
/// the mount is waited for, as long as configured. Every other failure ends the attempt as it
/// is.
pub proof fn a_unit_is_started_and_waited_for(
    plan: PlanModel,
    timeouts: Timeouts,
    orphans: Seq<Target<Seq<char>>>,
    point: Seq<char>,
    mounts: Seq<MountEntry<Seq<char>>>,
    status: UnitStatus,
    e: SupervisorError<Seq<char>>,
    cleared: Result<(), SupervisorError<Seq<char>>>,
)
    requires
        unit_is_free(orphans, unit_named(plan.mount.name)),
        !mounted_at(mounts, point),
    ensures
        ({
            let unit = unit_named(plan.mount.name);
            let done = StartAnswerModel::Done(Ok(()));
            let failed = StartAnswerModel::Done(Err(e));
            let first = preparing(plan, timeouts, orphans, point, mounts);
            let second = follow(first, done);
            let third = follow(second, done);
            let known = follow(third, StartAnswer::Status(Ok(status)));
            let gone = if status == UnitStatus::Deactivating {
                follow(known, done)
            } else {
                known
            };
            let socket = follow(gone, StartAnswer::Done(cleared));
            let reset = follow(socket, done);
            let started = follow(reset, done);
            let up = status == UnitStatus::Active || status == UnitStatus::Activating;
            &&& asks_next(first, StartAsk::PreparePoint(plan.mount.mount_point))
            &&& fails_with(follow(first, failed), e)
            &&& asks_next(second, StartAsk::PrepareRuntime)
            &&& fails_with(follow(second, failed), e)
            &&& asks_next(third, StartAsk::Status(unit))
            &&& fails_with(follow(third, StartAnswer::Status(Err(e))), e)
            &&& up ==> {
                &&& asks_next(known, StartAsk::AwaitReady(timeouts.ready_ms))
                &&& succeeds(follow(known, done))
                &&& fails_with(follow(known, failed), e)
            }
            &&& status == UnitStatus::Deactivating ==> {
                &&& asks_next(known, StartAsk::AwaitUnitGone(unit, timeouts.unit_gone_ms))
                &&& fails_with(follow(known, failed), e)
            }
            &&& !up ==> {
                &&& asks_next(gone, StartAsk::ClearSocket(plan.socket))
                &&& asks_next(socket, StartAsk::ResetFailed(unit))
                &&& fails_with(follow(socket, failed), e)
                &&& (reset matches StartStep::Go(t) && t.asks() is Start)
                &&& asks_next(reset, StartAsk::Start(plan.unit_spec()))
                &&& fails_with(follow(reset, failed), e)
                &&& asks_next(started, StartAsk::AwaitReady(timeouts.ready_ms))
                &&& succeeds(follow(started, done))
                &&& fails_with(follow(started, failed), e)
            }
        }),
{
    how_bringing_a_mount_up_begins(plan, timeouts, orphans, point, mounts, e, 0);
}

/// In every run, a wait for the mount to serve is as long as configured, and so is one for a
/// unit to be gone; and every question is about the mount's own unit, paths and socket.
pub proof fn every_wait_is_as_long_as_configured(
    plan: PlanModel,
    timeouts: Timeouts,
    answers: Seq<StartAnswerModel>,
)
    ensures
        start_after(StartModel::fresh(plan, timeouts), answers) matches StartStep::Go(t)
            ==> match t.asks() {
            StartAsk::AwaitReady(ms) => ms == timeouts.ready_ms,
            StartAsk::AwaitUnitGone(unit, ms) => {
                &&& unit == unit_named(plan.mount.name)
                &&& ms == timeouts.unit_gone_ms
            },
            StartAsk::Status(unit) | StartAsk::ResetFailed(unit) => unit == unit_named(
                plan.mount.name,
            ),
            StartAsk::Resolve(path) | StartAsk::PreparePoint(path) => path
                == plan.mount.mount_point,
            StartAsk::ClearSocket(socket) => socket == plan.socket,
            StartAsk::Release(_, how) => how == Release::Refuse,
            _ => true,
        },
{
    the_plan_is_kept(plan, timeouts, answers);
}

/// Whether a word stands right before another among arguments.
pub open spec fn is_given(args: Seq<Seq<char>>, option: Seq<char>, value: Seq<char>) -> bool {
    exists|i: int| #[trigger] is_given_at(args, option, value, i)
}

/// Whether a word stands here among arguments, right before another.
pub open spec fn is_given_at(
    args: Seq<Seq<char>>,
    option: Seq<char>,
    value: Seq<char>,
    i: int,
) -> bool {
    0 <= i && i + 1 < args.len() && args[i] == option && args[i + 1] == value
}

/// The unit that is started is found again: its name leads back to the mount, its argv to
/// what is served and where, and rclone listens on the socket that the plan names. It runs
/// rclone, ends with what the configuration adds, is described by what it serves, and leaves
/// the files of the mount as readable as files usually are. The command that runs before it
/// is this very program, told the configuration and the mount; there is none where the
/// program is not known, or not where it was.
pub proof fn a_started_unit_is_the_mounts_own(plan: PlanModel, rclone: Seq<char>)
    requires
        plan.mount.name != ""@,
        plan.mount.name != "."@,
        plan.mount.name != ".."@,
    ensures
        ({
            let u = plan.unit_spec();
            let served = Serving {
                fs_spec: plan.mount.remote + ":"@ + plan.mount.path,
                mount_point: plan.mount.mount_point,
            };
            &&& mount_of_unit(u.name) == Some(plan.mount.name)
            &&& argv_serving(seq![seq![rclone] + u.args]) == Some(served)
            &&& is_given(u.args, "--rc-addr"@, "unix://"@ + plan.socket)
            &&& u.executable == plan.rclone
            &&& plan.options.len() <= u.args.len()
            &&& u.args.skip(u.args.len() - plan.options.len()) == plan.options
            &&& occurs_in(served.fs_spec, u.description)
            &&& occurs_in(served.mount_point, u.description)
            &&& u.umask == 0o022
            &&& u.pre_start is Some <==> plan.exe is Some && plan.exe_is_file && !finishes_with(
                plan.exe->0,
                " (deleted)"@,
            )
            &&& u.pre_start matches Some((bin, args)) ==> {
                &&& plan.exe == Some(bin)
                &&& args.len() == 5
                &&& is_given_at(args, "--config"@, plan.config_path, 0)
                &&& args[2] == "prepare-mount"@
                &&& is_given_at(args, "--name"@, plan.mount.name, 3)
            }
        }),
{
    let u = plan.unit_spec();
    let m = plan.mount;
    a_unit_name_maps_back_to_its_mount(m.name);
    crate::config::a_unit_says_what_it_serves(m, rclone, plan.socket, plan.options);
    assert(is_given_at(u.args, "--rc-addr"@, "unix://"@ + plan.socket, 4));
    assert(u.args.skip(u.args.len() - plan.options.len()) == plan.options);
    lemma_stands_between("rclone mount "@, m.spec_text(), " at "@ + m.mount_point);
    assert("rclone mount "@ + m.spec_text() + (" at "@ + m.mount_point) == u.description);
    lemma_stands_between("rclone mount "@ + m.spec_text() + " at "@, m.mount_point, ""@);
    reveal_strlit("");
    assert("rclone mount "@ + m.spec_text() + " at "@ + m.mount_point + ""@ == u.description);
}

/// A name that no entry has cannot be mounted. One that an orphan goes by is refused as a
/// leftover, and the refusal names the orphan's unit; any other is unknown.
pub proof fn what_is_not_configured_is_not_mounted(
    name: Seq<char>,
    orphans: Seq<Target<Seq<char>>>,
)
    ensures
        (forall|i: int| 0 <= i < orphans.len() ==> (#[trigger] orphans[i]).name != name)
            ==> unconfigured_refusal(name, orphans) == SupervisorError::UnknownMount(name),
        (exists|i: int| 0 <= i < orphans.len() && (#[trigger] orphans[i]).name == name) ==> {
            let r = unconfigured_refusal(name, orphans);
            &&& r is NotManaged
            &&& exists|i: int|
                0 <= i < orphans.len() && (#[trigger] orphans[i]).name == name && occurs_in(
                    orphans[i].unit,
                    r->NotManaged_0,
                )
        },
{
    let w = Wanted::Named(name);
    lemma_found_among(orphans, w);
    if let Some(o) = crate::supervisor::targets::find_target(orphans, w) {
        let k = choose|k: int| 0 <= k < orphans.len() && orphans[k] == o;
        assert(orphans[k].name == name);
        let before = name + " is a leftover unit, "@;
        let behind =
            ", not a configured mount — nothing describes what to start. Unmount it instead."@;
        lemma_stands_between(before, o.unit, behind);
        assert(unconfigured_refusal(name, orphans)->NotManaged_0 == before + o.unit + behind);
    } else {
        assert forall|i: int| 0 <= i < orphans.len() implies (#[trigger] orphans[i]).name
            != name by {
            assert(!crate::supervisor::targets::is_wanted(orphans[i], w));
        }
    }
}

} // verus!
