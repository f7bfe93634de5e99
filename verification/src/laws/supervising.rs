//! What is said of the mounts of a machine: what each is doing, which there are, which unit a
//! request is about, and what the mount table holds.

use crate::config::{unit_named, Mount};
use crate::errors::SupervisorError;
use crate::laws::words::{lemma_ends_with_both, lemma_stands_between};
use crate::mountinfo::{
    dash_from, entries_of_lines, entry_of_line, escaped_char, is_escape, mounted_at, unescaped,
    MountEntry,
};
use crate::paths::same_place;
use crate::supervisor::orphans::{resolved, Resolved, Target};
use crate::supervisor::state::{
    claimed, discovered, failure_text, foreign_rows, names_unit, orphan_rows, state_of,
    unconfigured_state, verdict, Facts, MountState, Verdict,
};
use crate::supervisor::targets::{
    configured, find_target, is_wanted, lemma_found_among, unmount_choice, Wanted,
};
use crate::supervisor::unmount::rclone_at;
use crate::supervisor::waiting::{late_text, readiness, unit_departure};
use crate::systemd::UnitStatus;
use crate::text::{
    begins_with, digits, finishes_with, occurs_at, occurs_in, split_on, trimmed_end, white_space,
};
use vstd::prelude::*;

verus! {

/// Whether some target runs as this unit.
pub open spec fn runs_as(ts: Seq<Target<Seq<char>>>, unit: Seq<char>) -> bool {
    exists|i: int| 0 <= i < ts.len() && (#[trigger] ts[i]).unit == unit
}

/// Whether some target holds this point.
pub open spec fn holds(ts: Seq<Target<Seq<char>>>, point: Seq<char>) -> bool {
    exists|i: int| 0 <= i < ts.len() && same_place((#[trigger] ts[i]).point, point)
}

/// Whether a state is a failure, and its reason says this.
pub open spec fn failed_saying(s: MountState<Seq<char>>, words: Seq<char>) -> bool {
    s is Failed && occurs_in(words, s->reason)
}

proof fn lemma_wanted(ts: Seq<Target<Seq<char>>>, unit: Seq<char>, point: Seq<char>)
    ensures
        find_target(ts, Wanted::OfUnit(unit)) is Some <==> runs_as(ts, unit),
        find_target(ts, Wanted::At(point)) is Some <==> holds(ts, point),
        find_target(ts, Wanted::OfUnit(unit)) matches Some(o) ==> ts.contains(o) && o.unit == unit,
        find_target(ts, Wanted::At(point)) matches Some(o) ==> ts.contains(o) && same_place(
            o.point,
            point,
        ),
{
    lemma_found_among(ts, Wanted::OfUnit(unit));
    lemma_found_among(ts, Wanted::At(point));
    if let Some(o) = find_target(ts, Wanted::OfUnit(unit)) {
        let i = choose|i: int| 0 <= i < ts.len() && ts[i] == o;
        assert(ts[i].unit == unit);
    }
    if let Some(o) = find_target(ts, Wanted::At(point)) {
        let i = choose|i: int| 0 <= i < ts.len() && ts[i] == o;
        assert(same_place(ts[i].point, point));
    }
    if runs_as(ts, unit) {
        let i = choose|i: int| 0 <= i < ts.len() && (#[trigger] ts[i]).unit == unit;
        assert(is_wanted(ts[i], Wanted::OfUnit(unit)));
    }
    if holds(ts, point) {
        let i = choose|i: int| 0 <= i < ts.len() && same_place((#[trigger] ts[i]).point, point);
        assert(is_wanted(ts[i], Wanted::At(point)));
    }
}

/// What a mount is doing. A unit of its own that serves another point, and a point that
/// nothing answers at, are failures that say where. Otherwise the mount table and the unit
/// decide together; a failed unit's reason is what it said, or where to look where it said
/// nothing; and a point without a unit of its own is somebody else's, unless another of ours
/// holds it, which is then named.
pub proof fn what_a_mount_is_doing(
    m: Mount<Seq<char>>,
    point: Seq<char>,
    live: bool,
    orphans: Seq<Target<Seq<char>>>,
    stale: bool,
    status: UnitStatus,
    said: Seq<char>,
)
    ensures
        ({
            let s = state_of(m, point, live, orphans, stale, status, said);
            let unit = unit_named(m.name);
            let moved = runs_as(orphans, unit);
            let dead = live && stale;
            let up = status == UnitStatus::Active || status == UnitStatus::Activating;
            &&& moved ==> failed_saying(s, unit) && failed_saying(s, point)
            &&& !moved && dead ==> s is Failed && begins_with(s->reason, point)
            &&& !moved && !dead ==> {
                &&& up && live ==> s is Mounted
                &&& up && !live ==> s is Mounting
                &&& status == UnitStatus::Deactivating ==> s is Unmounting
                &&& status == UnitStatus::Failed && said.len() > 0 ==> s == (MountState::Failed {
                    reason: said,
                })
                &&& status == UnitStatus::Failed && said.len() == 0 ==> failed_saying(s, unit)
                &&& status == UnitStatus::Inactive && !live ==> s is Unmounted
                &&& status == UnitStatus::Inactive && live && !holds(orphans, point) ==> s
                    is Foreign
                &&& status == UnitStatus::Inactive && live && holds(orphans, point) ==> exists|
                    i: int,
                |
                    0 <= i < orphans.len() && same_place((#[trigger] orphans[i]).point, point)
                        && failed_saying(s, orphans[i].unit)
            }
        }),
{
    let unit = unit_named(m.name);
    let none = Seq::<char>::empty();
    lemma_wanted(orphans, unit, point);
    let s = state_of(m, point, live, orphans, stale, status, said);
    if let Some(o) = find_target(orphans, Wanted::OfUnit(unit)) {
        let text = crate::supervisor::state::moved_text(m, point, o);
        let mid = " is serving "@ + o.point + ", not the configured "@;
        let end = " — its mount point was changed while it was mounted. Unmounting "@
            + crate::text::debug_text(m.name) + " and mounting it again moves it."@;
        lemma_stands_between(none, o.unit, mid + point + end);
        assert(none + o.unit + (mid + point + end) == text);
        lemma_stands_between(o.unit + mid, point, end);
        assert(o.unit + mid + point + end == text);
    } else if live && stale {
        let text = crate::supervisor::state::stale_text(point);
        assert(text.subrange(0, point.len() as int) == point);
    } else if status == UnitStatus::Failed && said.len() == 0 {
        lemma_stands_between(
            "rclone logged nothing; check `journalctl --user -u "@,
            unit,
            "`"@,
        );
    } else if let Some(o) = find_target(orphans, Wanted::At(point)) {
        let i = choose|i: int| 0 <= i < orphans.len() && orphans[i] == o;
        let text = crate::supervisor::state::renamed_text(point, o);
        let end =
            ", left over from a mount this config no longer names — usually a rename. Unmounting "@
            + crate::text::debug_text(o.name) + " frees it."@;
        lemma_stands_between(point + " is still served by "@, o.unit, end);
        assert(point + " is still served by "@ + o.unit + end == text);
        assert(same_place(orphans[i].point, point));
    }
}

/// Every mount is listed: each configured one under its name, with its own state and in its
/// place; each orphan whose unit no entry names as an orphan; and nothing else but what is
/// foreign.
pub proof fn every_mount_is_listed(
    mounts: Seq<Mount<Seq<char>>>,
    states: Seq<MountState<Seq<char>>>,
    paths: Seq<Resolved<Seq<char>>>,
    orphans: Seq<Target<Seq<char>>>,
    live: Seq<MountEntry<Seq<char>>>,
    i: int,
)
    requires
        states.len() == mounts.len(),
    ensures
        ({
            let all = discovered(mounts, states, paths, orphans, live);
            &&& all.len() >= mounts.len()
            &&& 0 <= i < mounts.len() ==> all[i].name == mounts[i].name && all[i].state
                == states[i]
            &&& 0 <= i < orphans.len() && !names_unit(mounts, orphans[i].unit) ==> exists|k: int|
                mounts.len() <= k < all.len() && (#[trigger] all[k]).name == orphans[i].name
                    && all[k].state is Orphaned
            &&& mounts.len() <= i < all.len() ==> all[i].state is Orphaned || all[i].state
                is Foreign
        }),
{
    let all = discovered(mounts, states, paths, orphans, live);
    let mid = orphan_rows(mounts, orphans);
    lemma_orphans_listed(mounts, orphans);
    lemma_foreign_listed(mounts, paths, orphans, live);
    if 0 <= i < orphans.len() && !names_unit(mounts, orphans[i].unit) {
        let k = choose|k: int|
            0 <= k < mid.len() && (#[trigger] mid[k]).name == orphans[i].name;
        assert(all[mounts.len() + k] == mid[k]);
    }
    if mounts.len() <= i < all.len() {
        if i < mounts.len() + mid.len() {
            assert(all[i] == mid[i - mounts.len()]);
        } else {
            assert(all[i] == foreign_rows(mounts, paths, orphans, live)[i - mounts.len()
                - mid.len()]);
        }
    }
}

proof fn lemma_orphans_listed(mounts: Seq<Mount<Seq<char>>>, orphans: Seq<Target<Seq<char>>>)
    ensures
        forall|k: int|
            0 <= k < orphan_rows(mounts, orphans).len() ==> (#[trigger] orphan_rows(
                mounts,
                orphans,
            )[k]).state is Orphaned,
        forall|i: int|
            0 <= i < orphans.len() && !names_unit(mounts, (#[trigger] orphans[i]).unit)
                ==> exists|k: int|
                0 <= k < orphan_rows(mounts, orphans).len() && (#[trigger] orphan_rows(
                    mounts,
                    orphans,
                )[k]).name == orphans[i].name,
    decreases orphans.len(),
{
    if orphans.len() > 0 {
        let rest = orphans.drop_last();
        lemma_orphans_listed(mounts, rest);
        let before = orphan_rows(mounts, rest);
        let all = orphan_rows(mounts, orphans);
        assert forall|k: int| 0 <= k < all.len() implies (#[trigger] all[k]).state is Orphaned by {
            if k < before.len() {
                assert(all[k] == before[k]);
            }
        }
        assert forall|i: int|
            0 <= i < orphans.len() && !names_unit(
                mounts,
                (#[trigger] orphans[i]).unit,
            ) implies exists|k: int|
            0 <= k < all.len() && (#[trigger] all[k]).name == orphans[i].name by {
            if i < rest.len() {
                assert(rest[i] == orphans[i]);
                let k = choose|k: int|
                    0 <= k < before.len() && (#[trigger] before[k]).name == rest[i].name;
                assert(all[k] == before[k]);
            } else {
                assert(all[before.len() as int].name == orphans.last().name);
            }
        }
    }
}

proof fn lemma_foreign_listed(
    mounts: Seq<Mount<Seq<char>>>,
    paths: Seq<Resolved<Seq<char>>>,
    orphans: Seq<Target<Seq<char>>>,
    live: Seq<MountEntry<Seq<char>>>,
)
    ensures
        forall|k: int|
            0 <= k < foreign_rows(mounts, paths, orphans, live).len() ==> (#[trigger] foreign_rows(
                mounts,
                paths,
                orphans,
                live,
            )[k]).state is Foreign,
    decreases live.len(),
{
    if live.len() > 0 {
        let before = foreign_rows(mounts, paths, orphans, live.drop_last());
        let all = foreign_rows(mounts, paths, orphans, live);
        lemma_foreign_listed(mounts, paths, orphans, live.drop_last());
        assert forall|k: int| 0 <= k < all.len() implies (#[trigger] all[k]).state is Foreign by {
            if k < before.len() {
                assert(all[k] == before[k]);
            }
        }
    }
}

/// A path resolves to what the first entry for it says, and to itself where none does.
pub proof fn a_path_resolves_to_its_entry(
    paths: Seq<Resolved<Seq<char>>>,
    raw: Seq<char>,
    k: int,
)
    ensures
        0 <= k < paths.len() && paths[k].raw == raw && (forall|j: int|
            0 <= j < k ==> (#[trigger] paths[j]).raw != raw) ==> resolved(paths, raw)
            == paths[k].real,
        (forall|j: int| 0 <= j < paths.len() ==> (#[trigger] paths[j]).raw != raw) ==> resolved(
            paths,
            raw,
        ) == raw,
    decreases paths.len(),
{
    if paths.len() > 0 {
        let rest = paths.drop_first();
        a_path_resolves_to_its_entry(rest, raw, k - 1);
        if paths[0].raw != raw {
            if 0 < k < paths.len() && forall|j: int| 0 <= j < k ==> (#[trigger] paths[j]).raw
                != raw {
                assert(rest[k - 1] == paths[k]);
                assert forall|j: int| 0 <= j < k - 1 implies (#[trigger] rest[j]).raw != raw by {
                    assert(rest[j] == paths[j + 1]);
                }
            }
            if forall|j: int| 0 <= j < paths.len() ==> (#[trigger] paths[j]).raw != raw {
                assert forall|j: int| 0 <= j < rest.len() implies (#[trigger] rest[j]).raw
                    != raw by {
                    assert(rest[j] == paths[j + 1]);
                }
            }
        } else if k > 0 && k < paths.len() {
            assert(paths[0].raw == raw);
        }
    }
}

/// The unit that an unmount acts on. A name that neither an entry nor an orphan has is
/// unknown. An orphan's own name leads to an orphan of that name. A configured name leads to
/// the entry's own unit and point, unless an orphan stands for it: one that runs as that very
/// unit, where the unit serves, or one that holds the entry's point, where it does not.
pub proof fn which_unit_an_unmount_acts_on(
    name: Seq<char>,
    mounts: Seq<Mount<Seq<char>>>,
    paths: Seq<Resolved<Seq<char>>>,
    orphans: Seq<Target<Seq<char>>>,
    serving: bool,
)
    ensures
        ({
            let r = unmount_choice(name, mounts, paths, orphans, serving);
            let known = exists|i: int| 0 <= i < mounts.len() && (#[trigger] mounts[i]).name == name;
            let orphaned = exists|i: int|
                0 <= i < orphans.len() && (#[trigger] orphans[i]).name == name;
            &&& r is Err <==> !known && !orphaned
            &&& r is Err ==> r->Err_0 == SupervisorError::UnknownMount(name)
            &&& !known && orphaned ==> orphans.contains(r->Ok_0) && r->Ok_0.name == name
            &&& known ==> exists|i: int|
                0 <= i < mounts.len() && (#[trigger] mounts[i]).name == name && {
                    let unit = unit_named(name);
                    let point = resolved(paths, mounts[i].mount_point);
                    let stands = if serving {
                        runs_as(orphans, unit)
                    } else {
                        holds(orphans, point)
                    };
                    &&& stands ==> orphans.contains(r->Ok_0)
                    &&& stands && serving ==> r->Ok_0.unit == unit
                    &&& stands && !serving ==> same_place(r->Ok_0.point, point)
                    &&& !stands ==> {
                        &&& r->Ok_0.name == name
                        &&& r->Ok_0.unit == unit
                        &&& r->Ok_0.point == point
                        &&& r->Ok_0.fs_spec == mounts[i].remote + ":"@ + mounts[i].path
                    }
                }
        }),
{
    lemma_configured(mounts, name);
    lemma_found_among(orphans, Wanted::Named(name));
    if let Some(o) = find_target(orphans, Wanted::Named(name)) {
        let i = choose|i: int| 0 <= i < orphans.len() && orphans[i] == o;
        assert(orphans[i].name == name);
    } else {
        assert forall|i: int| 0 <= i < orphans.len() implies (#[trigger] orphans[i]).name
            != name by {
            assert(!is_wanted(orphans[i], Wanted::Named(name)));
        }
    }
    if let Some(m) = configured(mounts, name) {
        let i = choose|i: int| 0 <= i < mounts.len() && mounts[i] == m;
        assert(mounts[i].name == name);
        lemma_wanted(orphans, unit_named(name), resolved(paths, m.mount_point));
    }
}

proof fn lemma_configured(mounts: Seq<Mount<Seq<char>>>, name: Seq<char>)
    ensures
        configured(mounts, name) matches Some(m) ==> m.name == name && mounts.contains(m),
        configured(mounts, name) is None ==> forall|i: int|
            0 <= i < mounts.len() ==> (#[trigger] mounts[i]).name != name,
    decreases mounts.len(),
{
    if mounts.len() > 0 {
        let rest = mounts.drop_first();
        lemma_configured(rest, name);
        if mounts[0].name == name {
            assert(mounts.contains(mounts[0]));
        } else if let Some(m) = configured(rest, name) {
            let i = choose|i: int| 0 <= i < rest.len() && rest[i] == m;
            assert(mounts[i + 1] == m);
        } else {
            assert forall|i: int| 0 <= i < mounts.len() implies (#[trigger] mounts[i]).name
                != name by {
                if i > 0 {
                    assert(rest[i - 1] == mounts[i]);
                }
            }
        }
    }
}

/// What a wait for a mount comes to, look by look: over once the point is mounted; failed, with
/// what the unit said, once the unit has or the time is up; and slept on otherwise.
pub proof fn what_a_wait_for_a_mount_comes_to(
    m: Mount<Seq<char>>,
    timeout_ms: u64,
    status: UnitStatus,
    late: bool,
    said: Seq<char>,
    any: Option<UnitStatus>,
    words: Option<Seq<char>>,
)
    ensures
        readiness(m, timeout_ms, true, any, late, words) is Over,
        readiness(m, timeout_ms, false, None, late, words) is AskStatus,
        status == UnitStatus::Failed || late ==> {
            let r = readiness(m, timeout_ms, false, Some(status), late, Some(said));
            &&& readiness(m, timeout_ms, false, Some(status), late, None) is AskOutput
            &&& r is Failed
            &&& r->Failed_0 is RcloneFailed
            &&& r->Failed_0->RcloneFailed_source is None
            &&& status == UnitStatus::Failed && said.len() > 0 ==> r->Failed_0->RcloneFailed_reason
                == said
        },
        status != UnitStatus::Failed && !late ==> readiness(
            m,
            timeout_ms,
            false,
            Some(status),
            late,
            words,
        ) is Sleep,
{
}

/// What a wait for a unit comes to: over once the unit is inactive or failed; failed, saying
/// which unit lingers and how long it was given, once the time is up; and slept on otherwise.
pub proof fn what_a_wait_for_a_unit_comes_to(
    unit: Seq<char>,
    timeout_ms: u64,
    status: UnitStatus,
    late: bool,
)
    ensures
        ({
            let r = unit_departure(unit, timeout_ms, status, late);
            let left = status == UnitStatus::Inactive || status == UnitStatus::Failed;
            &&& r is Over <==> left
            &&& r is Sleep <==> !left && !late
            &&& r is Failed <==> !left && late
            &&& r is Failed ==> {
                &&& r->Failed_0 is Supervision
                &&& begins_with(r->Failed_0->Supervision_context, unit)
                &&& occurs_in(
                    digits((timeout_ms / 1000) as nat) + "s"@,
                    r->Failed_0->Supervision_context,
                )
            }
        }),
{
    lemma_ends_with_both(
        unit,
        " is still shutting down after "@,
        digits((timeout_ms / 1000) as nat),
        "s"@,
    );
}

proof fn lemma_trimming_keeps(s: Seq<char>, n: int)
    requires
        0 < n <= s.len(),
        !white_space(s[n - 1]),
    ensures
        n <= trimmed_end(s).len() <= s.len(),
        trimmed_end(s) == s.take(trimmed_end(s).len() as int),
    decreases s.len(),
{
    if white_space(s.last()) {
        let rest = s.drop_last();
        lemma_trimming_keeps(rest, n);
        let k = trimmed_end(rest).len() as int;
        assert(rest.take(k) == s.take(k));
    } else {
        assert(s.take(s.len() as int) == s);
    }
}

proof fn lemma_told_of(point: Seq<char>, words: Seq<char>, figure: Seq<char>, end: Seq<char>, said: Seq<char>)
    requires
        end.len() > 1,
        !white_space(end[end.len() - 2]),
    ensures
        ({
            let text = trimmed_end(point + words + figure + end + said);
            &&& begins_with(text, point)
            &&& occurs_in(figure + end.drop_last(), text)
            &&& said.len() > 0 && !white_space(said.last()) ==> finishes_with(text, said)
        }),
{
    let whole = point + words + figure + end + said;
    let n = (point + words + figure + end).len() - 1;
    let text = trimmed_end(whole);
    assert(whole[n - 1] == end[end.len() - 2]);
    lemma_trimming_keeps(whole, n);
    assert(text.subrange(0, point.len() as int) == point);
    let i = (point + words).len() as int;
    let row = figure + end.drop_last();
    assert(text.subrange(i, i + row.len()) == row);
    assert(occurs_at(row, text, i));
    if said.len() > 0 && !white_space(said.last()) {
        assert(whole.last() == said.last());
        assert(text == whole);
        assert(whole.subrange(whole.len() - said.len(), whole.len() as int) == said);
    }
}

/// A mount that came up too late is told of by its point, by how long it was given, and by
/// what the unit said.
pub proof fn a_late_mount_is_told_of(m: Mount<Seq<char>>, timeout_ms: u64, said: Seq<char>)
    ensures
        begins_with(late_text(m, timeout_ms, said), m.mount_point),
        occurs_in(digits((timeout_ms / 1000) as nat) + "s."@, late_text(m, timeout_ms, said)),
        said.len() > 0 && !white_space(said.last()) ==> finishes_with(
            late_text(m, timeout_ms, said),
            said,
        ),
{
    reveal_strlit("s. ");
    reveal_strlit("s.");
    assert("s. "@.drop_last() == "s."@);
    lemma_told_of(
        m.mount_point,
        " did not start serving within "@,
        digits((timeout_ms / 1000) as nat),
        "s. "@,
        failure_text(m.unit(), said),
    );
}

/// A character as the kernel writes it into a field of the mount table: white space and
/// backslashes as a backslash and three octal digits.
pub open spec fn kernel_char(c: char) -> Seq<char> {
    if c == ' ' {
        seq!['\\', '0', '4', '0']
    } else if c == '\t' {
        seq!['\\', '0', '1', '1']
    } else if c == '\n' {
        seq!['\\', '0', '1', '2']
    } else if c == '\\' {
        seq!['\\', '1', '3', '4']
    } else {
        seq![c]
    }
}

/// A text as the kernel writes it into a field of the mount table.
pub open spec fn kernel_text(s: Seq<char>) -> Seq<char>
    decreases s.len(),
{
    if s.len() == 0 {
        s
    } else {
        kernel_char(s[0]) + kernel_text(s.drop_first())
    }
}

/// What the kernel wrote is read as what it meant, whatever the path holds.
pub proof fn a_field_is_read_as_it_was_meant(s: Seq<char>)
    ensures
        unescaped(kernel_text(s)) == s,
    decreases s.len(),
{
    if s.len() > 0 {
        let rest = kernel_text(s.drop_first());
        let all = kernel_text(s);
        let c = s[0];
        a_field_is_read_as_it_was_meant(s.drop_first());
        assert('0' as int == 48 && '1' as int == 49 && '2' as int == 50 && '3' as int == 51
            && '4' as int == 52 && '7' as int == 55 && ' ' as int == 32 && '\t' as int == 9
            && '\n' as int == 10 && '\\' as int == 92);
        if kernel_char(c).len() == 4 {
            assert(all.skip(4) == rest);
            assert(all[0] == '\\' && all[1] == kernel_char(c)[1] && all[2] == kernel_char(c)[2]
                && all[3] == kernel_char(c)[3]);
            assert(is_escape(all));
            assert(escaped_char(all) == c);
        } else {
            assert(all[0] == c);
            assert(!is_escape(all));
            assert(all.drop_first() == rest);
        }
        assert(seq![c] + s.drop_first() == s);
    }
}

proof fn lemma_dash(fields: Seq<Seq<char>>, i: int, d: int)
    requires
        0 <= i <= d < fields.len(),
        fields[d] == "-"@,
        forall|k: int| i <= k < d ==> #[trigger] fields[k] != "-"@,
    ensures
        dash_from(fields, i) == Some(d),
    decreases d - i,
{
    if i < d {
        lemma_dash(fields, i + 1, d);
    }
}

/// A line of the mount table is read by its fields: the fifth is where the file system is
/// mounted, and behind the first lone dash from the seventh on stand its type and its source.
pub proof fn a_line_is_read_by_its_fields(
    line: Seq<char>,
    d: int,
    point: Seq<char>,
    source: Seq<char>,
)
    requires
        6 <= d,
        d + 2 < split_on(line, ' ').len(),
        split_on(line, ' ')[d] == "-"@,
        forall|k: int| 6 <= k < d ==> #[trigger] split_on(line, ' ')[k] != "-"@,
        split_on(line, ' ')[4] == kernel_text(point),
        split_on(line, ' ')[d + 2] == kernel_text(source),
    ensures
        entry_of_line(line) == Some(
            (MountEntry { mount_point: point, fs_type: split_on(line, ' ')[d + 1], source }),
        ),
{
    lemma_dash(split_on(line, ' '), 6, d);
    a_field_is_read_as_it_was_meant(point);
    a_field_is_read_as_it_was_meant(source);
}

/// The mount table holds an entry for every line that is one, and none besides.
pub proof fn every_line_is_read(rows: Seq<Seq<char>>, i: int)
    ensures
        0 <= i < rows.len() && entry_of_line(rows[i]) is Some ==> entries_of_lines(rows).contains(
            entry_of_line(rows[i])->0,
        ),
        forall|k: int|
            0 <= k < entries_of_lines(rows).len() ==> exists|j: int|
                0 <= j < rows.len() && entry_of_line(#[trigger] rows[j]) == Some(
                    #[trigger] entries_of_lines(rows)[k],
                ),
    decreases rows.len(),
{
    if rows.len() > 0 {
        let rest = rows.drop_last();
        every_line_is_read(rest, i);
        let before = entries_of_lines(rest);
        let all = entries_of_lines(rows);
        if 0 <= i < rest.len() && entry_of_line(rows[i]) is Some {
            assert(rest[i] == rows[i]);
            let k = choose|k: int| 0 <= k < before.len() && before[k] == entry_of_line(rows[i])->0;
            assert(all[k] == before[k]);
        }
        if i == rest.len() && entry_of_line(rows[i]) is Some {
            assert(all[before.len() as int] == entry_of_line(rows[i])->0);
        }
        assert forall|k: int| 0 <= k < all.len() implies exists|j: int|
            0 <= j < rows.len() && entry_of_line(#[trigger] rows[j]) == Some(
                #[trigger] all[k],
            ) by {
            if k < before.len() {
                assert(all[k] == before[k]);
                let j = choose|j: int|
                    0 <= j < rest.len() && entry_of_line(#[trigger] rest[j]) == Some(before[k]);
                assert(rows[j] == rest[j]);
            } else {
                assert(rows[rows.len() - 1] == rows.last());
            }
        }
    }
}

/// A name of no entry is that of an orphan or of nothing.
pub proof fn a_name_of_no_entry_is_an_orphans(name: Seq<char>, orphans: Seq<Target<Seq<char>>>)
    ensures
        ({
            let known = exists|i: int|
                0 <= i < orphans.len() && (#[trigger] orphans[i]).name == name;
            let s = unconfigured_state(name, orphans);
            &&& known ==> s is Ok && s->Ok_0 is Orphaned
            &&& !known ==> s is Err && s->Err_0 == SupervisorError::UnknownMount(name)
        }),
{
    lemma_found_among(orphans, Wanted::Named(name));
    if let Some(o) = find_target(orphans, Wanted::Named(name)) {
        let i = choose|i: int| 0 <= i < orphans.len() && orphans[i] == o;
        assert(orphans[i].name == name);
    } else {
        assert forall|i: int| 0 <= i < orphans.len() implies (#[trigger] orphans[i]).name
            != name by {
            assert(!is_wanted(orphans[i], Wanted::Named(name)));
        }
    }
}

/// Facts are asked for in turn, and only those that matter: whether a mounted point is still
/// served, what the unit does, and what a failed one said. A unit that serves elsewhere needs
/// none of them. Once they are there, they decide.
pub proof fn only_facts_that_matter_are_asked_for(
    m: Mount<Seq<char>>,
    point: Seq<char>,
    live: bool,
    orphans: Seq<Target<Seq<char>>>,
    stale: bool,
    status: UnitStatus,
    said: Seq<char>,
)
    ensures
        ({
            let none = Facts { stale: None, status: None, said: None };
            let looked = Facts { stale: Some(stale), ..none };
            let asked = Facts { status: Some(status), ..looked };
            let all = Facts { said: Some(said), ..asked };
            let v = |f: Facts<Seq<char>>| verdict(m, point, live, orphans, f);
            let moved = runs_as(orphans, m.unit());
            let dead = live && stale;
            &&& moved ==> v(none) is State
            &&& !moved && live ==> v(none) is AskStale
            &&& !moved && !live ==> v(none) is AskStatus
            &&& !moved && dead ==> v(looked) is State
            &&& !moved && !dead ==> v(looked) is AskStatus
            &&& !moved && !dead && status == UnitStatus::Failed ==> v(asked) is AskOutput
            &&& !moved && !dead && status != UnitStatus::Failed ==> v(asked) is State
            &&& v(all) == Verdict::State(
                state_of(m, point, live, orphans, dead, status, said),
            )
        }),
{
    lemma_wanted(orphans, m.unit(), point);
}

/// Every entry of the mount table counts, wherever it stands: a point of one is mounted, and a
/// point of none is not. Of rclone's own the first one there is found, whatever else is mounted
/// over or under it.
pub proof fn every_entry_of_the_table_counts(
    live: Seq<MountEntry<Seq<char>>>,
    point: Seq<char>,
    k: int,
)
    ensures
        0 <= k < live.len() && same_place(live[k].mount_point, point) ==> mounted_at(live, point),
        (forall|i: int| 0 <= i < live.len() ==> !same_place((#[trigger] live[i]).mount_point, point))
            ==> !mounted_at(live, point) && rclone_at(live, point) is None,
        0 <= k < live.len() && live[k].fs_type == "fuse.rclone"@ && same_place(
            live[k].mount_point,
            point,
        ) && (forall|j: int|
            0 <= j < k ==> !((#[trigger] live[j]).fs_type == "fuse.rclone"@ && same_place(
                live[j].mount_point,
                point,
            ))) ==> rclone_at(live, point) == Some(live[k]),
    decreases live.len(),
{
    if live.len() > 0 {
        let rest = live.drop_first();
        every_entry_of_the_table_counts(rest, point, k - 1);
        if 0 < k < live.len() {
            assert(rest[k - 1] == live[k]);
        }
        if forall|i: int|
            0 <= i < live.len() ==> !same_place((#[trigger] live[i]).mount_point, point) {
            assert forall|i: int| 0 <= i < rest.len() implies !same_place(
                (#[trigger] rest[i]).mount_point,
                point,
            ) by {
                assert(rest[i] == live[i + 1]);
            }
            assert(!same_place(live[0].mount_point, point));
        }
        if 0 < k < live.len() && forall|j: int|
            0 <= j < k ==> !((#[trigger] live[j]).fs_type == "fuse.rclone"@ && same_place(
                live[j].mount_point,
                point,
            )) {
            assert(!(live[0].fs_type == "fuse.rclone"@ && same_place(live[0].mount_point, point)));
            assert forall|j: int| 0 <= j < k - 1 implies !((#[trigger] rest[j]).fs_type
                == "fuse.rclone"@ && same_place(rest[j].mount_point, point)) by {
                assert(rest[j] == live[j + 1]);
            }
        }
    }
}

/// Every configured mount names its unit and claims its point, and so does every orphan its
/// own; nothing else is named or claimed.
pub proof fn every_entry_claims_its_own(
    mounts: Seq<Mount<Seq<char>>>,
    paths: Seq<Resolved<Seq<char>>>,
    orphans: Seq<Target<Seq<char>>>,
    unit: Seq<char>,
    point: Seq<char>,
    k: int,
)
    ensures
        0 <= k < mounts.len() ==> names_unit(mounts, unit_named(mounts[k].name)),
        0 <= k < mounts.len() && same_place(resolved(paths, mounts[k].mount_point), point)
            ==> claimed(mounts, paths, orphans, point),
        0 <= k < orphans.len() && same_place(orphans[k].point, point) ==> claimed(
            mounts,
            paths,
            orphans,
            point,
        ),
        names_unit(mounts, unit) ==> exists|i: int|
            0 <= i < mounts.len() && unit_named((#[trigger] mounts[i]).name) == unit,
        claimed(mounts, paths, orphans, point) ==> holds(orphans, point) || exists|i: int|
            0 <= i < mounts.len() && same_place(
                resolved(paths, (#[trigger] mounts[i]).mount_point),
                point,
            ),
{
    if 0 <= k < mounts.len() {
        assert(mounts[k].unit() == unit_named(mounts[k].name));
    }
    if names_unit(mounts, unit) {
        let i = choose|i: int| 0 <= i < mounts.len() && #[trigger] mounts[i].unit() == unit;
        assert(unit_named(mounts[i].name) == unit);
    }
}

/// A line without a lone dash from the seventh field on is no entry, and neither is one with
/// nothing behind it.
pub proof fn a_line_without_its_fields_is_no_entry(line: Seq<char>)
    ensures
        (forall|k: int| 6 <= k < split_on(line, ' ').len() ==> #[trigger] split_on(line, ' ')[k]
            != "-"@) ==> entry_of_line(line) is None,
        split_on(line, ' ').len() < 9 ==> entry_of_line(line) is None,
{
    let fields = split_on(line, ' ');
    lemma_dash_found(fields, 6);
}

proof fn lemma_dash_found(fields: Seq<Seq<char>>, i: int)
    requires
        0 <= i,
    ensures
        dash_from(fields, i) matches Some(d) ==> i <= d < fields.len() && fields[d] == "-"@,
    decreases fields.len() - i,
{
    if i < fields.len() {
        lemma_dash_found(fields, i + 1);
    }
}

} // verus!
