//! Which unit a request acts on, and what stands in the way of it.

use crate::config::{unit_named, Mount};
use crate::errors::{outcome, SupervisorError};
use crate::paths::{same_path, same_place};
use crate::supervisor::orphans::{
    a_mount_maps_back_to_its_unit, an_orphan_serves_what_nothing_configured_holds, resolve_path,
    resolved, unit_names_are_distinct, Resolved, SweepModel, Target,
};
use crate::text::{debug_text, quoted, same_text, views};
use vstd::prelude::*;
use vstd::string::*;

verus! {

/// The first configured mount of a name.
pub open spec fn configured(mounts: Seq<Mount<Seq<char>>>, name: Seq<char>) -> Option<
    Mount<Seq<char>>,
>
    decreases mounts.len(),
{
    if mounts.len() == 0 {
        None
    } else if mounts[0].name == name {
        Some(mounts[0])
    } else {
        configured(mounts.drop_first(), name)
    }
}

/// What to look for among targets.
pub enum Wanted<S> {
    Named(S),
    OfUnit(S),
    /// Holding a mount point.
    At(S),
}

/// Whether a target is what is looked for.
pub open spec fn is_wanted(t: Target<Seq<char>>, w: Wanted<Seq<char>>) -> bool {
    match w {
        Wanted::Named(name) => t.name == name,
        Wanted::OfUnit(unit) => t.unit == unit,
        Wanted::At(point) => same_place(t.point, point),
    }
}

/// The first target that is what is looked for.
pub open spec fn find_target(ts: Seq<Target<Seq<char>>>, w: Wanted<Seq<char>>) -> Option<
    Target<Seq<char>>,
>
    decreases ts.len(),
{
    if ts.len() == 0 {
        None
    } else if is_wanted(ts[0], w) {
        Some(ts[0])
    } else {
        find_target(ts.drop_first(), w)
    }
}

impl<'a> View for Wanted<&'a str> {
    type V = Wanted<Seq<char>>;

    open spec fn view(&self) -> Wanted<Seq<char>> {
        match *self {
            Wanted::Named(s) => Wanted::Named(s@),
            Wanted::OfUnit(s) => Wanted::OfUnit(s@),
            Wanted::At(s) => Wanted::At(s@),
        }
    }
}

/// The first target that is what is looked for.
pub fn first_target<'a>(ts: &'a Vec<Target>, w: Wanted<&str>) -> (r: Option<&'a Target>)
    ensures
        match r {
            Some(t) => find_target(views(ts@), w@) == Some(t@),
            None => find_target(views(ts@), w@) is None,
        },
{
    let ghost all = views(ts@);
    let mut i: usize = 0;
    assert(all.skip(0) == all);
    while i < ts.len()
        invariant
            i <= ts@.len(),
            all == views(ts@),
            find_target(all, w@) == find_target(all.skip(i as int), w@),
        decreases ts@.len() - i,
    {
        assert(all.skip(i as int)[0] == ts@[i as int]@);
        assert(all.skip(i as int).drop_first() == all.skip(i + 1));
        let hit = match w {
            Wanted::Named(name) => same_text(ts[i].name.as_str(), name),
            Wanted::OfUnit(unit) => same_text(ts[i].unit.as_str(), unit),
            Wanted::At(point) => same_path(ts[i].point.as_str(), point),
        };
        if hit {
            return Some(&ts[i]);
        }
        i = i + 1;
    }
    None
}

/// The configured mount of a name.
pub fn mount_config<'a>(mounts: &'a Vec<Mount>, name: &str) -> (r: Result<
    &'a Mount,
    SupervisorError,
>)
    ensures
        match r {
            Ok(m) => configured(views(mounts@), name@) == Some(m@),
            Err(e) => configured(views(mounts@), name@) is None && e@
                == SupervisorError::UnknownMount(name@),
        },
{
    let ghost all = views(mounts@);
    let mut i: usize = 0;
    assert(all.skip(0) == all);
    while i < mounts.len()
        invariant
            i <= mounts@.len(),
            all == views(mounts@),
            configured(all, name@) == configured(all.skip(i as int), name@),
        decreases mounts@.len() - i,
    {
        assert(all.skip(i as int)[0] == mounts@[i as int]@);
        assert(all.skip(i as int).drop_first() == all.skip(i + 1));
        if same_text(mounts[i].name.as_str(), name) {
            return Ok(&mounts[i]);
        }
        i = i + 1;
    }
    Err(SupervisorError::UnknownMount(name.to_owned()))
}

/// The target that a configured mount reduces to.
pub open spec fn target_for(m: Mount<Seq<char>>, paths: Seq<Resolved<Seq<char>>>) -> Target<
    Seq<char>,
> {
    Target {
        name: m.name,
        unit: m.unit(),
        point: resolved(paths, m.mount_point),
        fs_spec: m.spec_text(),
    }
}

/// The target that a configured mount reduces to.
pub fn target_of(m: &Mount, paths: &Vec<Resolved>) -> (r: Target)
    ensures
        r@ == target_for(m@, views(paths@)),
{
    Target {
        name: m.name.clone(),
        unit: m.unit_name(),
        point: resolve_path(paths, m.mount_point.as_str()),
        fs_spec: m.fs_spec(),
    }
}

/// Which unit an unmount request has to act on. `serving` is whether the unit of the
/// configured mount of that name is serving.
pub open spec fn unmount_choice(
    name: Seq<char>,
    mounts: Seq<Mount<Seq<char>>>,
    paths: Seq<Resolved<Seq<char>>>,
    orphans: Seq<Target<Seq<char>>>,
    serving: bool,
) -> Result<Target<Seq<char>>, SupervisorError<Seq<char>>> {
    match configured(mounts, name) {
        None => match find_target(orphans, Wanted::Named(name)) {
            Some(o) => Ok(o),
            None => Err(SupervisorError::UnknownMount(name)),
        },
        Some(m) => {
            let own = target_for(m, paths);
            let standing = if serving {
                find_target(orphans, Wanted::OfUnit(own.unit))
            } else {
                find_target(orphans, Wanted::At(own.point))
            };
            match standing {
                Some(o) => Ok(o),
                None => Ok(own),
            }
        },
    }
}

/// Which unit an unmount request has to act on.
///
/// Usually the one the configured mount names. It can also be an orphan: addressed directly,
/// under the name its unit was started with; reached through a configured mount whose point
/// that orphan still holds, which is what a rename leaves behind; or the configured mount's
/// own unit, still serving the path its entry had before it was edited. All of them have to
/// stop the unit: taken for foreign instead, the mount could not be unmounted without force.
///
/// A unit of the configured name that is not serving holds nothing, so whatever is at the
/// point belongs to somebody else.
pub fn unmount_target(
    name: &str,
    mounts: &Vec<Mount>,
    paths: &Vec<Resolved>,
    orphans: &Vec<Target>,
    serving: bool,
) -> (r: Result<Target, SupervisorError>)
    ensures
        match r {
            Ok(t) => unmount_choice(name@, views(mounts@), views(paths@), views(orphans@), serving)
                == Ok::<_, SupervisorError<Seq<char>>>(t@),
            Err(e) => unmount_choice(
                name@,
                views(mounts@),
                views(paths@),
                views(orphans@),
                serving,
            ) == Err::<Target<Seq<char>>, _>(e@),
        },
{
    match mount_config(mounts, name) {
        Err(unknown) => match first_target(orphans, Wanted::Named(name)) {
            Some(o) => Ok(o.copy()),
            None => Err(unknown),
        },
        Ok(m) => {
            let own = target_of(m, paths);
            let standing = if serving {
                first_target(orphans, Wanted::OfUnit(own.unit.as_str()))
            } else {
                first_target(orphans, Wanted::At(own.point.as_str()))
            };
            match standing {
                Some(o) => Ok(o.copy()),
                None => Ok(own),
            }
        },
    }
}

proof fn lemma_configured_is_named(mounts: Seq<Mount<Seq<char>>>, name: Seq<char>)
    ensures
        configured(mounts, name) matches Some(m) ==> m.name == name,
    decreases mounts.len(),
{
    if mounts.len() > 0 {
        lemma_configured_is_named(mounts.drop_first(), name);
    }
}

pub proof fn lemma_found_among(ts: Seq<Target<Seq<char>>>, w: Wanted<Seq<char>>)
    ensures
        find_target(ts, w) matches Some(t) ==> is_wanted(t, w) && ts.contains(t),
        find_target(ts, w) is None ==> forall|i: int|
            0 <= i < ts.len() ==> !is_wanted(#[trigger] ts[i], w),
    decreases ts.len(),
{
    if ts.len() > 0 {
        let rest = ts.drop_first();
        lemma_found_among(rest, w);
        if is_wanted(ts[0], w) {
            assert(ts.contains(ts[0]));
        } else if let Some(t) = find_target(rest, w) {
            let i = choose|i: int| 0 <= i < rest.len() && rest[i] == t;
            assert(ts[i + 1] == t);
        } else {
            assert forall|i: int| 0 <= i < ts.len() implies !is_wanted(#[trigger] ts[i], w) by {
                if i > 0 {
                    assert(rest[i - 1] == ts[i]);
                }
            }
        }
    }
}

/// What is known of an orphan of a sweep: its unit is serving, and is the one that a mount
/// of its name runs as.
proof fn lemma_orphan_is_serving(s: SweepModel, o: Target<Seq<char>>)
    requires
        s.orphans().contains(o),
    ensures
        unit_named(o.name) == o.unit,
        unit_serves(s, o.unit),
{
    let i = choose|i: int| 0 <= i < s.orphans().len() && s.orphans()[i] == o;
    an_orphan_serves_what_nothing_configured_holds(s, i);
    a_mount_maps_back_to_its_unit(o.unit);
    let k = choose|k: int|
        0 <= k < s.loaded.len() && s.is_orphan(#[trigger] s.loaded[k]) && s.orphans()[i]
            == s.orphan_target(s.loaded[k]);
    assert(s.loaded[k].name == o.unit && s.loaded[k].status.serves());
}

/// Whether a sweep found a unit serving.
pub open spec fn unit_serves(s: SweepModel, unit: Seq<char>) -> bool {
    exists|k: int|
        0 <= k < s.loaded.len() && (#[trigger] s.loaded[k]).name == unit
            && s.loaded[k].status.serves()
}

/// An unmount that is led to a unit of another name is led no further: unmounting under that
/// other name acts on a unit of that very name. So whoever holds the lock of the first name
/// while waiting for that of the second never waits in a circle.
pub proof fn a_redirect_leads_no_further(s: SweepModel, name: Seq<char>)
    requires
        unmount_choice(
            name,
            s.mounts,
            s.paths,
            s.orphans(),
            unit_serves(s, unit_named(name)),
        ) is Ok,
    ensures
        ({
            let t = unmount_choice(
                name,
                s.mounts,
                s.paths,
                s.orphans(),
                unit_serves(s, unit_named(name)),
            )->Ok_0;
            let next = unmount_choice(
                t.name,
                s.mounts,
                s.paths,
                s.orphans(),
                unit_serves(s, unit_named(t.name)),
            );
            &&& next is Ok
            &&& next->Ok_0.name == t.name
            &&& t.name != name ==> configured(s.mounts, name) is Some && !unit_serves(
                s,
                unit_named(name),
            )
        }),
{
    let orphans = s.orphans();
    let t = unmount_choice(
        name,
        s.mounts,
        s.paths,
        orphans,
        unit_serves(s, unit_named(name)),
    )->Ok_0;
    lemma_configured_is_named(s.mounts, name);
    lemma_configured_is_named(s.mounts, t.name);
    lemma_found_among(orphans, Wanted::Named(name));
    lemma_found_among(orphans, Wanted::Named(t.name));
    lemma_found_among(orphans, Wanted::OfUnit(unit_named(name)));
    lemma_found_among(orphans, Wanted::OfUnit(unit_named(t.name)));
    if let Some(m) = configured(s.mounts, name) {
        lemma_found_among(orphans, Wanted::At(resolved(s.paths, m.mount_point)));
    }
    if let Some(o) = find_target(orphans, Wanted::OfUnit(unit_named(name))) {
        lemma_orphan_is_serving(s, o);
        unit_names_are_distinct(o.name, name);
    }
    if let Some(o) = find_target(orphans, Wanted::OfUnit(unit_named(t.name))) {
        lemma_orphan_is_serving(s, o);
        unit_names_are_distinct(o.name, t.name);
    }
    if orphans.contains(t) {
        lemma_orphan_is_serving(s, t);
        let i = choose|i: int| 0 <= i < orphans.len() && orphans[i] == t;
        assert(is_wanted(orphans[i], Wanted::Named(t.name)));
    }
}

/// What is said when a point is still held by a unit left over from a mount that the
/// configuration no longer names.
pub open spec fn held_over(name: Seq<char>, point: Seq<char>, o: Target<Seq<char>>) -> Seq<char> {
    name + ": "@ + point + " is still held by "@ + o.unit
        + ", left over from a mount this config no longer names. Unmount "@ + debug_text(o.name)
        + " first."@
}

/// Whether a mount point may be taken over: not while one of our own units holds it.
pub open spec fn take_over(
    name: Seq<char>,
    point: Seq<char>,
    orphans: Seq<Target<Seq<char>>>,
) -> Result<(), SupervisorError<Seq<char>>> {
    match find_target(orphans, Wanted::At(point)) {
        None => Ok(()),
        Some(o) => Err(SupervisorError::NotManaged(held_over(name, point, o))),
    }
}

/// Refuse to mount over, or release, a point one of our own units still holds.
///
/// Taking it either way would leave that unit running against a path it no longer owns, and
/// the user cannot act on a refusal that does not say what is in the way.
pub fn refuse_to_take_over(name: &str, point: &str, orphans: &Vec<Target>) -> (r: Result<
    (),
    SupervisorError,
>)
    ensures
        outcome(r) == take_over(name@, point@, views(orphans@)),
{
    match first_target(orphans, Wanted::At(point)) {
        None => Ok(()),
        Some(o) => {
            let mut s = name.to_owned();
            s.append(": ");
            s.append(point);
            s.append(" is still held by ");
            s.append(o.unit.as_str());
            s.append(", left over from a mount this config no longer names. Unmount ");
            s.append(quoted(o.name.as_str()).as_str());
            s.append(" first.");
            Err(SupervisorError::NotManaged(s))
        },
    }
}

} // verus!
