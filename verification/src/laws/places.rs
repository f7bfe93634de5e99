//! Where things are put, what programs are told, and what is made of how they end.

use crate::args::{log_filter_of, runtime_dir_of};
use crate::config::{unit_named, Mount, UNIT_PREFIX};
use crate::errors::SupervisorError;
use crate::laws::naming::lemma_whole;
use crate::mountinfo::mounted_at;
use crate::paths::{
    a_joined_path_goes_on_from_its_base, components, names_something, rooted, same_place,
};
use crate::rc::{escaped_char, escaped_name, socket_file};
use crate::supervisor::orphans::{
    is_candidate, mount_of_unit, own_point, points_of_candidates, resolved, serving_argv,
    SweepModel,
};
use crate::supervisor::prepare::{helper_args, leftovers_of, point_check, release_result, Exit, PathKind};
use crate::supervisor::targets::configured;
use crate::supervisor::unmount::Release;
use crate::systemd::{LoadedUnit, UnitStatus};
use crate::text::{begins_with, debug_text, finishes_with, occurs_in, split_on};
use vstd::prelude::*;

verus! {

/// A level that was asked for is used or refused, whatever the environment says; without one
/// the environment decides, and without either it is `info`. A refusal quotes what was asked.
pub proof fn the_level_asked_for_comes_first(l: Seq<char>, env: Option<Seq<char>>, e: Seq<char>)
    ensures
        log_filter_of(Some(l), env) == log_filter_of(Some(l), None),
        log_filter_of(Some(l), env) matches Ok(f) ==> f == l,
        log_filter_of(Some(l), env) is Ok <==> seq![
            "off"@,
            "error"@,
            "warn"@,
            "info"@,
            "debug"@,
            "trace"@,
        ].contains(l),
        log_filter_of(Some(l), env) matches Err(why) ==> occurs_in(debug_text(l), why),
        log_filter_of(None, Some(e)) == Ok::<Seq<char>, Seq<char>>(e),
        log_filter_of(None, None) == Ok::<Seq<char>, Seq<char>>("info"@),
{
    let all = seq!["off"@, "error"@, "warn"@, "info"@, "debug"@, "trace"@];
    assert(all[0] == "off"@ && all[1] == "error"@ && all[2] == "warn"@ && all[3] == "info"@
        && all[4] == "debug"@ && all[5] == "trace"@);
    crate::laws::words::lemma_stands_between(
        "--log-level must be one of: off, error, warn, info, debug, trace (got "@,
        debug_text(l),
        "). Use RUST_LOG for per-target directives."@,
    );
}

/// The runtime directory is one of our own directly in the session's, and there is none where
/// the session provides none.
pub proof fn the_runtime_directory_is_our_own(b: Seq<char>)
    ensures
        runtime_dir_of(None) is Err,
        runtime_dir_of(Some(b)) is Err <==> b.len() == 0,
        runtime_dir_of(Some(b)) matches Ok(d) ==> {
            &&& begins_with(d, b)
            &&& rooted(d) == rooted(b)
            &&& components(d) == components(b).push("rclone-vfsmount-tray"@)
        },
{
    let own = "rclone-vfsmount-tray"@;
    reveal_strlit("rclone-vfsmount-tray");
    assert(own[0] == 'r');
    if b.len() > 0 {
        a_joined_path_goes_on_from_its_base(b, own);
        lemma_whole(own, own.len() as int);
        assert(own.take(own.len() as int) == own);
        let pieces = split_on(own, '/');
        reveal_strlit(".");
        assert("."@.len() == 1);
        assert(names_something(own));
        let f = |c: Seq<char>| names_something(c);
        assert(pieces.filter(f) == seq![own]) by {
            reveal_with_fuel(Seq::filter, 2);
            assert(pieces == seq![own]);
            assert(pieces.drop_last() == Seq::<Seq<char>>::empty());
        }
        assert(components(b) + seq![own] == components(b).push(own));
    }
}

/// What rclone is told: to mount, then what and where, to listen at its socket without asking
/// who calls, and last what the configuration adds, as it stands there.
pub proof fn what_rclone_is_told(
    m: Mount<Seq<char>>,
    socket: Seq<char>,
    more: Seq<Seq<char>>,
    k: int,
)
    ensures
        ({
            let args = m.arguments(socket, more);
            &&& args.len() == 7 + more.len()
            &&& args[0] == "mount"@
            &&& args[1] == m.remote + ":"@ + m.path
            &&& args[2] == m.mount_point
            &&& exists|i: int|
                0 <= i < 6 && #[trigger] args[i] == "--rc-addr"@ && args[i + 1] == "unix://"@
                    + socket
            &&& args.take(7).contains("--rc"@)
            &&& args.take(7).contains("--rc-no-auth"@)
            &&& 0 <= k < more.len() ==> args[7 + k] == more[k]
        }),
{
    let args = m.arguments(socket, more);
    assert(args[4] == "--rc-addr"@);
    assert(args.take(7)[3] == "--rc"@);
    assert(args.take(7)[6] == "--rc-no-auth"@);
}

/// What is served names its remote up to the first colon, and its path behind that.
pub proof fn what_is_served_names_its_remote(m: Mount<Seq<char>>)
    ensures
        begins_with(m.spec_text(), m.remote),
        m.spec_text()[m.remote.len() as int] == ':',
        m.spec_text().skip(m.remote.len() as int + 1) == m.path,
        begins_with(unit_named(m.name), "rvt-mount-"@),
        finishes_with(unit_named(m.name), ".service"@),
        m.unit() == unit_named(m.name),
{
    reveal_strlit(":");
    let s = m.spec_text();
    assert(s.subrange(0, m.remote.len() as int) == m.remote);
    assert(s.skip(m.remote.len() as int + 1) == m.path);
    let u = unit_named(m.name);
    let p = UNIT_PREFIX@;
    let e = ".service"@;
    assert(u.subrange(0, p.len() as int) == p);
    assert(u.subrange(u.len() - e.len(), u.len() as int) == e);
}

/// The helper is told to unmount the point that it is about, which comes last, and to detach it
/// exactly where that is asked for.
pub proof fn the_helper_is_told_the_point(point: Seq<char>, how: Release)
    ensures
        helper_args(point, how).len() > 0,
        helper_args(point, how)[0] == "-u"@,
        helper_args(point, how).last() == point,
        helper_args(point, how).drop_last().contains("-z"@) <==> how is Detach,
{
    reveal_strlit("-u");
    reveal_strlit("-z");
    assert("-u"@[1] == 'u' && "-z"@[1] == 'z');
    let head = helper_args(point, how).drop_last();
    if how is Detach {
        assert(head[1] == "-z"@);
    } else {
        assert(head.len() == 1 && head[0] == "-u"@);
    }
}

/// A release is done exactly where the helper succeeded. One that it refused is a mount in use,
/// told by its point; one that could not be tried is a failure of the machinery, and says why.
pub proof fn a_release_is_what_the_helper_made_of_it(point: Seq<char>, exit: Exit<Seq<char>, Seq<u8>>)
    ensures
        release_result(point, exit) is Ok <==> exit is Success,
        exit is Failure ==> {
            &&& release_result(point, exit)->Err_0 is Busy
            &&& begins_with(release_result(point, exit)->Err_0->detail, point)
        },
        exit matches Exit::NotRun(why) ==> {
            &&& release_result(point, exit)->Err_0 is Supervision
            &&& finishes_with(release_result(point, exit)->Err_0->context, point)
            &&& release_result(point, exit)->Err_0->Supervision_source == Some(why)
        },
{
    if exit is Failure {
        let d = release_result(point, exit)->Err_0->detail;
        assert(d.subrange(0, point.len() as int) == point);
    } else if exit is NotRun {
        let c = "running fusermount for "@ + point;
        assert(c.subrange(c.len() - point.len(), c.len() as int) == point);
    }
}

/// Only a directory, or nothing, can be mounted onto, and a point is created exactly where
/// there is nothing. A refusal names the path.
pub proof fn only_a_directory_is_mounted_onto(path: Seq<char>, kind: PathKind<Seq<char>>)
    ensures
        point_check(path, kind) is Ok <==> kind is Directory || kind is Missing,
        point_check(path, kind) matches Ok(create) ==> (create <==> kind is Missing),
        point_check(path, kind) matches Err(e) ==> e is BadMountPoint && e->path == path && (
        e->BadMountPoint_source is Some <==> kind is Unreadable),
        kind matches PathKind::Unreadable(why) ==> point_check(
            path,
            kind,
        )->Err_0->BadMountPoint_source == Some(why),
{
}

/// What a start clears is the mount's own: the socket of its name in the runtime directory, and
/// the point of the first entry of that name. A name of no entry is unknown.
pub proof fn what_is_cleared_is_the_mounts_own(
    mounts: Seq<Mount<Seq<char>>>,
    dir: Seq<char>,
    name: Seq<char>,
    k: int,
)
    requires
        dir.len() > 0,
        dir.last() != '/',
    ensures
        (forall|i: int| 0 <= i < mounts.len() ==> (#[trigger] mounts[i]).name != name)
            ==> leftovers_of(mounts, dir, name) is Err && leftovers_of(mounts, dir, name)->Err_0
            == SupervisorError::UnknownMount(name),
        0 <= k < mounts.len() && mounts[k].name == name && (forall|j: int|
            0 <= j < k ==> (#[trigger] mounts[j]).name != name) ==> {
            &&& leftovers_of(mounts, dir, name) is Ok
            &&& leftovers_of(mounts, dir, name)->Ok_0.mount_point == mounts[k].mount_point
            &&& leftovers_of(mounts, dir, name)->Ok_0.socket == dir + "/"@ + socket_file(name)
        },
    decreases mounts.len(),
{
    crate::rc::a_socket_stays_in_the_runtime_directory(dir, name);
    if mounts.len() > 0 {
        let rest = mounts.drop_first();
        what_is_cleared_is_the_mounts_own(rest, dir, name, k - 1);
        if mounts[0].name != name {
            assert(configured(mounts, name) == configured(rest, name));
            if forall|i: int| 0 <= i < mounts.len() ==> (#[trigger] mounts[i]).name != name {
                assert forall|i: int| 0 <= i < rest.len() implies (#[trigger] rest[i]).name
                    != name by {
                    assert(rest[i] == mounts[i + 1]);
                }
            }
            if 0 < k < mounts.len() && mounts[k].name == name && forall|j: int|
                0 <= j < k ==> (#[trigger] mounts[j]).name != name {
                assert(rest[k - 1] == mounts[k]);
                assert forall|j: int| 0 <= j < k - 1 implies (#[trigger] rest[j]).name != name by {
                    assert(rest[j] == mounts[j + 1]);
                }
            }
        } else {
            assert(configured(mounts, name) == Some(mounts[0]));
        }
    }
}

/// A unit that is not serving, whose argv cannot be read, whose name is not ours, or at whose
/// point nothing is mounted, is no orphan.
pub proof fn only_what_serves_is_an_orphan(s: SweepModel, u: LoadedUnit<Seq<char>>)
    ensures
        s.is_orphan(u) ==> {
            &&& u.status == UnitStatus::Active || u.status == UnitStatus::Deactivating
            &&& u.serving is Some
            &&& mount_of_unit(u.name) is Some
            &&& mounted_at(s.live, resolved(s.paths, u.serving->0.mount_point))
        },
{
}

/// A mount that was renamed leaves an orphan: a unit of ours that serves, of no entry, at a
/// mounted point that no entry has, is one. What acting on it takes is its own: the name and
/// the unit it runs as, the point it holds, and what it was told to serve.
pub proof fn a_renamed_mount_leaves_an_orphan(s: SweepModel, u: LoadedUnit<Seq<char>>)
    requires
        u.status == UnitStatus::Active,
        u.serving is Some,
        mount_of_unit(u.name) is Some,
        mounted_at(s.live, resolved(s.paths, u.serving->0.mount_point)),
        forall|i: int| 0 <= i < s.mounts.len() ==> (#[trigger] s.mounts[i]).unit() != u.name,
        forall|i: int|
            0 <= i < s.mounts.len() ==> !same_place(
                resolved(s.paths, (#[trigger] s.mounts[i]).mount_point),
                resolved(s.paths, u.serving->0.mount_point),
            ),
    ensures
        s.is_orphan(u),
        s.orphan_target(u).unit == u.name,
        unit_named(s.orphan_target(u).name) == u.name,
        s.orphan_target(u).fs_spec == u.serving->0.fs_spec,
        s.orphan_target(u).point == resolved(s.paths, u.serving->0.mount_point),
{
    lemma_no_own_point(s.mounts, u.name);
    crate::supervisor::orphans::a_mount_maps_back_to_its_unit(u.name);
}

proof fn lemma_no_own_point(mounts: Seq<Mount<Seq<char>>>, unit: Seq<char>)
    requires
        forall|i: int| 0 <= i < mounts.len() ==> (#[trigger] mounts[i]).unit() != unit,
    ensures
        own_point(mounts, unit) is None,
    decreases mounts.len(),
{
    if mounts.len() > 0 {
        let rest = mounts.drop_last();
        assert forall|i: int| 0 <= i < rest.len() implies (#[trigger] rest[i]).unit() != unit by {
            assert(rest[i] == mounts[i]);
        }
        assert(mounts[mounts.len() - 1].unit() != unit);
        lemma_no_own_point(rest, unit);
    }
}

/// A point whose own unit serves there is held by it, and so is one whose unit serves without
/// its argv being read; one whose unit does not serve at all is not. Of units of one name the
/// last one serving counts.
pub proof fn a_point_is_held_by_its_own_unit(s: SweepModel, i: int, k: int, point: Seq<char>)
    requires
        0 <= i < s.mounts.len(),
        same_place(resolved(s.paths, s.mounts[i].mount_point), point),
    ensures
        0 <= k < s.loaded.len() && s.loaded[k].name == s.mounts[i].unit()
            && s.loaded[k].status.serves() && (forall|j: int|
            k < j < s.loaded.len() ==> (#[trigger] s.loaded[j]).name != s.mounts[i].unit()) && (
        s.loaded[k].serving is None || same_place(
            resolved(s.paths, s.loaded[k].serving->0.mount_point),
            point,
        )) ==> s.held(point),
        (forall|j: int|
            0 <= j < s.loaded.len() && (#[trigger] s.loaded[j]).name == s.mounts[i].unit()
                ==> !s.loaded[j].status.serves()) ==> !s.held_by(i, point),
{
    let unit = s.mounts[i].unit();
    lemma_argv(s.loaded, unit, k);
    if 0 <= k < s.loaded.len() && s.loaded[k].name == unit && s.loaded[k].status.serves() && (
    forall|j: int| k < j < s.loaded.len() ==> (#[trigger] s.loaded[j]).name != unit) && (
    s.loaded[k].serving is None || same_place(
        resolved(s.paths, s.loaded[k].serving->0.mount_point),
        point,
    )) {
        assert(s.held_by(i, point));
    }
}

proof fn lemma_argv(loaded: Seq<LoadedUnit<Seq<char>>>, unit: Seq<char>, k: int)
    ensures
        (forall|j: int|
            0 <= j < loaded.len() && (#[trigger] loaded[j]).name == unit
                ==> !loaded[j].status.serves()) ==> serving_argv(loaded, unit) is None,
        0 <= k < loaded.len() && loaded[k].name == unit && loaded[k].status.serves() && (forall|
            j: int,
        |
            k < j < loaded.len() ==> (#[trigger] loaded[j]).name != unit) ==> serving_argv(
            loaded,
            unit,
        ) == Some(
            match loaded[k].serving {
                Some(s) => Some(s.mount_point),
                None => None,
            },
        ),
    decreases loaded.len(),
{
    if loaded.len() > 0 {
        let rest = loaded.drop_last();
        lemma_argv(rest, unit, k);
        assert(loaded[loaded.len() - 1] == loaded.last());
        assert forall|j: int| 0 <= j < rest.len() implies #[trigger] rest[j] == loaded[j] by {}
        if forall|j: int|
            0 <= j < loaded.len() && (#[trigger] loaded[j]).name == unit
                ==> !loaded[j].status.serves() {
            assert forall|j: int|
                0 <= j < rest.len() && (#[trigger] rest[j]).name == unit implies !rest[
            j].status.serves() by {
                assert(rest[j] == loaded[j]);
            }
        }
        if 0 <= k < rest.len() && loaded[k].name == unit && loaded[k].status.serves() && forall|
            j: int,
        |
            k < j < loaded.len() ==> (#[trigger] loaded[j]).name != unit {
            assert(rest[k] == loaded[k]);
            assert forall|j: int| k < j < rest.len() implies (#[trigger] rest[j]).name != unit by {
                assert(rest[j] == loaded[j]);
            }
        }
    }
}

/// What a hexadecimal digit counts.
pub open spec fn hex_counts(c: char) -> int {
    if '0' <= c <= '9' {
        c as int - '0' as int
    } else if 'A' <= c <= 'F' {
        10 + (c as int - 'A' as int)
    } else {
        0
    }
}

/// A text with every percent sign and the two hexadecimal digits behind it read as the
/// character of that number.
pub open spec fn percent_decoded(s: Seq<char>) -> Seq<char>
    decreases s.len(),
{
    if s.len() == 0 {
        s
    } else if s[0] == '%' && s.len() >= 3 {
        seq![((16 * hex_counts(s[1]) + hex_counts(s[2])) as u32) as char] + percent_decoded(
            s.skip(3),
        )
    } else {
        seq![s[0]] + percent_decoded(s.drop_first())
    }
}

/// The name of a mount can be read back from that of its socket file, by decoding it as in an
/// address.
pub proof fn a_socket_is_named_for_its_mount(name: Seq<char>)
    ensures
        finishes_with(socket_file(name), ".sock"@),
        percent_decoded(socket_file(name).take(socket_file(name).len() - ".sock"@.len())) == name,
{
    let e = escaped_name(name);
    let s = socket_file(name);
    let end = ".sock"@;
    assert(s.subrange(s.len() - end.len(), s.len() as int) == end);
    assert(s.take(s.len() - end.len()) == e);
    lemma_decoded(name);
}

proof fn lemma_decoded(name: Seq<char>)
    ensures
        percent_decoded(escaped_name(name)) == name,
    decreases name.len(),
{
    lemma_escaped_front(name);
    if name.len() > 0 {
        let rest = name.drop_first();
        let c = name[0];
        let e = escaped_name(name);
        lemma_decoded(rest);
        assert(seq![c] + rest == name);
        assert('0' as int == 48 && '2' as int == 50 && '5' as int == 53 && '9' as int == 57 && 'A'
            as int == 65 && 'F' as int == 70 && '/' as int == 47 && '%' as int == 37);
        if c == '/' || c == '%' {
            assert(e[0] == '%' && e[1] == '2');
            assert(e[2] == if c == '/' {
                'F'
            } else {
                '5'
            });
            assert(e.skip(3) == escaped_name(rest));
            assert(((16 * hex_counts(e[1]) + hex_counts(e[2])) as u32) as char == c);
        } else {
            assert(e[0] == c);
            assert(e.drop_first() == escaped_name(rest));
        }
    } else {
        assert(escaped_name(name) == name);
    }
}

proof fn lemma_escaped_front(name: Seq<char>)
    requires
        true,
    ensures
        name.len() > 0 ==> escaped_name(name) == escaped_char(name[0]) + escaped_name(
            name.drop_first(),
        ),
        name.len() == 0 ==> escaped_name(name).len() == 0,
    decreases name.len(),
{
    if name.len() > 1 {
        let init = name.drop_last();
        lemma_escaped_front(init);
        assert(init.drop_first() == name.drop_first().drop_last());
        assert(name.drop_first().last() == name.last());
        assert(escaped_char(name[0]) + escaped_name(init.drop_first()) + escaped_char(name.last())
            == escaped_char(name[0]) + (escaped_name(init.drop_first()) + escaped_char(
            name.last(),
        )));
    } else if name.len() == 1 {
        assert(name.drop_last().len() == 0);
        assert(name.drop_first().len() == 0);
        assert(escaped_name(name.drop_last()) == Seq::<char>::empty());
        assert(escaped_name(name.drop_first()) == Seq::<char>::empty());
        assert(Seq::<char>::empty() + escaped_char(name[0]) == escaped_char(name[0])
            + Seq::<char>::empty());
    }
}

/// Every path that telling orphans apart needs resolved is among those that are: that of each
/// unit that might be one, and of no other.
pub proof fn every_point_in_question_is_resolved(s: SweepModel, k: int)
    ensures
        0 <= k < s.loaded.len() && s.is_orphan(s.loaded[k]) ==> points_of_candidates(
            s.loaded,
            s.mounts,
        ).contains(s.loaded[k].serving->0.mount_point),
        forall|j: int|
            0 <= j < points_of_candidates(s.loaded, s.mounts).len() ==> is_point_of_one(
                s.loaded,
                s.mounts,
                #[trigger] points_of_candidates(s.loaded, s.mounts)[j],
            ),
{
    lemma_points(s.loaded, s.mounts);
}

/// Whether a point is where one of the units, by its own argv, serves elsewhere than its entry
/// says.
pub open spec fn is_point_of_one(
    units: Seq<LoadedUnit<Seq<char>>>,
    mounts: Seq<Mount<Seq<char>>>,
    p: Seq<char>,
) -> bool {
    exists|i: int|
        0 <= i < units.len() && (#[trigger] units[i]).status.serves() && units[i].serving is Some
            && units[i].serving->0.mount_point == p && (own_point(mounts, units[i].name) is None
            || !same_place(own_point(mounts, units[i].name)->0, p))
}

proof fn lemma_points(units: Seq<LoadedUnit<Seq<char>>>, mounts: Seq<Mount<Seq<char>>>)
    ensures
        forall|k: int|
            0 <= k < units.len() && is_candidate(#[trigger] units[k], mounts)
                ==> points_of_candidates(units, mounts).contains(units[k].serving->0.mount_point),
        forall|j: int|
            0 <= j < points_of_candidates(units, mounts).len() ==> is_point_of_one(
                units,
                mounts,
                #[trigger] points_of_candidates(units, mounts)[j],
            ),
    decreases units.len(),
{
    if units.len() > 0 {
        let rest = units.drop_last();
        lemma_points(rest, mounts);
        let before = points_of_candidates(rest, mounts);
        let all = points_of_candidates(units, mounts);
        assert forall|k: int|
            0 <= k < units.len() && is_candidate(#[trigger] units[k], mounts) implies all.contains(
            units[k].serving->0.mount_point,
        ) by {
            let p = units[k].serving->0.mount_point;
            if k < rest.len() {
                assert(rest[k] == units[k]);
                let j = choose|j: int| 0 <= j < before.len() && before[j] == p;
                assert(all[j] == p);
            } else {
                assert(all[before.len() as int] == p);
            }
        }
        assert forall|j: int| 0 <= j < all.len() implies is_point_of_one(
            units,
            mounts,
            #[trigger] all[j],
        ) by {
            if j < before.len() {
                assert(all[j] == before[j]);
                assert(is_point_of_one(rest, mounts, before[j]));
                let i = choose|i: int|
                    0 <= i < rest.len() && (#[trigger] rest[i]).status.serves() && rest[i].serving
                        is Some && rest[i].serving->0.mount_point == before[j] && (own_point(
                        mounts,
                        rest[i].name,
                    ) is None || !same_place(own_point(mounts, rest[i].name)->0, before[j]));
                assert(units[i] == rest[i]);
            } else {
                assert(units[units.len() - 1].serving->0.mount_point == all[j]);
            }
        }
    }
}

} // verus!
