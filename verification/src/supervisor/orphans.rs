//! Units of ours that serve something the configuration no longer names.

use crate::config::{unit_named, Mount, UNIT_PREFIX};
use crate::mountinfo::{is_mounted_at, mounted_at, MountEntry};
use crate::paths::{same_path, same_place};
use crate::systemd::LoadedUnit;
use crate::text::{
    begins_with, finishes_with, opt_text, same_text, strip_prefix, strip_suffix, views,
};
use vstd::prelude::*;
use vstd::string::*;

verus! {

/// The unit an operation acts on, and what is needed to act on it.
///
/// A configured mount reduces to one of these, and so does an orphan: a unit of ours the
/// configuration no longer names, rebuilt from the argv systemd still holds for it.
#[derive(Debug, Clone, PartialEq, Eq)]
pub struct Target<S = String> {
    /// The mount name.
    pub name: S,
    pub unit: S,
    /// Resolved, as the kernel reports it.
    pub point: S,
    /// `remote:path`, to check against what is actually mounted there.
    pub fs_spec: S,
}

impl View for Target {
    type V = Target<Seq<char>>;

    open spec fn view(&self) -> Target<Seq<char>> {
        Target {
            name: self.name@,
            unit: self.unit@,
            point: self.point@,
            fs_spec: self.fs_spec@,
        }
    }
}

impl Target {
    /// The same target again.
    pub fn copy(&self) -> (r: Target)
        ensures
            r@ == self@,
    {
        Target {
            name: self.name.clone(),
            unit: self.unit.clone(),
            point: self.point.clone(),
            fs_spec: self.fs_spec.clone(),
        }
    }
}

/// A path and what it resolves to.
#[derive(Debug, Clone, PartialEq, Eq)]
pub struct Resolved<S = String> {
    pub raw: S,
    pub real: S,
}

impl View for Resolved {
    type V = Resolved<Seq<char>>;

    open spec fn view(&self) -> Resolved<Seq<char>> {
        Resolved { raw: self.raw@, real: self.real@ }
    }
}

/// What a path resolves to, which is itself where the resolution is not known: the normal
/// case before the directory exists.
pub open spec fn resolved(paths: Seq<Resolved<Seq<char>>>, raw: Seq<char>) -> Seq<char>
    decreases paths.len(),
{
    if paths.len() == 0 {
        raw
    } else if paths[0].raw == raw {
        paths[0].real
    } else {
        resolved(paths.drop_first(), raw)
    }
}

/// What a path resolves to.
pub fn resolve_path(paths: &Vec<Resolved>, raw: &str) -> (r: String)
    ensures
        r@ == resolved(views(paths@), raw@),
{
    let ghost all = views(paths@);
    let mut i: usize = 0;
    assert(all.skip(0) == all);
    while i < paths.len()
        invariant
            i <= paths@.len(),
            all == views(paths@),
            resolved(all, raw@) == resolved(all.skip(i as int), raw@),
        decreases paths@.len() - i,
    {
        assert(all.skip(i as int)[0] == paths@[i as int]@);
        assert(all.skip(i as int).drop_first() == all.skip(i + 1));
        if same_text(paths[i].raw.as_str(), raw) {
            return paths[i].real.clone();
        }
        i = i + 1;
    }
    raw.to_owned()
}

/// The mount name in a unit name of ours, if it is one.
pub open spec fn mount_of_unit(unit: Seq<char>) -> Option<Seq<char>> {
    if !begins_with(unit, UNIT_PREFIX@) {
        None
    } else {
        let rest = unit.skip(UNIT_PREFIX@.len() as int);
        if !finishes_with(rest, ".service"@) {
            None
        } else {
            let name = rest.take(rest.len() - ".service"@.len());
            if name == ""@ || name == "."@ || name == ".."@ {
                None
            } else {
                Some(name)
            }
        }
    }
}

/// The mount name a unit of ours was started for. `None` for a name that does not fit the
/// pattern, which is then not one of ours to act on.
pub fn orphan_name(unit: &str) -> (r: Option<String>)
    ensures
        opt_text(r) == mount_of_unit(unit@),
{
    let rest = match strip_prefix(unit, UNIT_PREFIX) {
        Some(rest) => rest,
        None => {
            return None;
        },
    };
    let name = match strip_suffix(rest.as_str(), ".service") {
        Some(name) => name,
        None => {
            return None;
        },
    };
    // A name is used to build paths, so nothing this service starts can carry one of these.
    if same_text(name.as_str(), "") || same_text(name.as_str(), ".") || same_text(
        name.as_str(),
        "..",
    ) {
        return None;
    }
    Some(name)
}

/// A unit name maps back to the mount it was started for, for every name that a mount can
/// have.
pub proof fn a_unit_name_maps_back_to_its_mount(name: Seq<char>)
    requires
        name != ""@,
        name != "."@,
        name != ".."@,
    ensures
        mount_of_unit(unit_named(name)) == Some(name),
{
    let unit = unit_named(name);
    let rest = unit.skip(UNIT_PREFIX@.len() as int);
    assert(unit.subrange(0, UNIT_PREFIX@.len() as int) == UNIT_PREFIX@);
    assert(rest == name + ".service"@);
    assert(rest.subrange(rest.len() - ".service"@.len(), rest.len() as int) == ".service"@);
    assert(rest.take(rest.len() - ".service"@.len()) == name);
}

/// A unit that maps to a mount is the unit that this mount runs as.
pub proof fn a_mount_maps_back_to_its_unit(unit: Seq<char>)
    requires
        mount_of_unit(unit) is Some,
    ensures
        unit_named(mount_of_unit(unit)->0) == unit,
{
    let p = UNIT_PREFIX@.len() as int;
    let rest = unit.skip(p);
    let n = rest.len() - ".service"@.len();
    assert(unit == UNIT_PREFIX@ + rest);
    assert(rest == rest.take(n) + ".service"@);
    assert(UNIT_PREFIX@ + (rest.take(n) + ".service"@) == UNIT_PREFIX@ + rest.take(n) + ".service"@);
}

/// Only one name maps to a unit: two mounts never run as the same unit.
pub proof fn unit_names_are_distinct(a: Seq<char>, b: Seq<char>)
    requires
        unit_named(a) == unit_named(b),
    ensures
        a == b,
{
    let p = UNIT_PREFIX@.len() as int;
    let u = unit_named(a);
    let v = unit_named(b);
    assert(u.len() == p + a.len() + ".service"@.len());
    assert(v.len() == p + b.len() + ".service"@.len());
    assert(a == u.subrange(p, p + a.len()));
    assert(b == v.subrange(p, p + b.len()));
}

/// Everything one sweep for orphans looks at.
pub struct Sweep {
    /// The units that systemd has loaded under our prefix.
    pub loaded: Vec<LoadedUnit>,
    pub mounts: Vec<Mount>,
    /// The kernel's mount table.
    pub live: Vec<MountEntry>,
    /// What the paths in question resolve to.
    pub paths: Vec<Resolved>,
}

/// A sweep by its view.
pub struct SweepModel {
    pub loaded: Seq<LoadedUnit<Seq<char>>>,
    pub mounts: Seq<Mount<Seq<char>>>,
    pub live: Seq<MountEntry<Seq<char>>>,
    pub paths: Seq<Resolved<Seq<char>>>,
}

impl View for Sweep {
    type V = SweepModel;

    open spec fn view(&self) -> SweepModel {
        SweepModel {
            loaded: views(self.loaded@),
            mounts: views(self.mounts@),
            live: views(self.live@),
            paths: views(self.paths@),
        }
    }
}

/// The mount point of the configuration entry that a unit runs for, the last one counting.
pub open spec fn own_point(mounts: Seq<Mount<Seq<char>>>, unit: Seq<char>) -> Option<Seq<char>>
    decreases mounts.len(),
{
    if mounts.len() == 0 {
        None
    } else if mounts.last().unit() == unit {
        Some(mounts.last().mount_point)
    } else {
        own_point(mounts.drop_last(), unit)
    }
}

/// Where the argv of a serving unit says it mounted, unresolved. `Some(None)` is a unit
/// that is serving, but whose argv could not be read; `None` is no such unit.
pub open spec fn serving_argv(
    loaded: Seq<LoadedUnit<Seq<char>>>,
    unit: Seq<char>,
) -> Option<Option<Seq<char>>>
    decreases loaded.len(),
{
    if loaded.len() == 0 {
        None
    } else if loaded.last().status.serves() && loaded.last().name == unit {
        match loaded.last().serving {
            Some(s) => Some(Some(s.mount_point)),
            None => Some(None),
        }
    } else {
        serving_argv(loaded.drop_last(), unit)
    }
}

/// Whether a unit, by its own argv, serves something elsewhere than the configuration
/// entry it is named for says. Compared as written.
pub open spec fn is_candidate(u: LoadedUnit<Seq<char>>, mounts: Seq<Mount<Seq<char>>>) -> bool {
    &&& u.status.serves()
    &&& u.serving is Some
    &&& mount_of_unit(u.name) is Some
    &&& match own_point(mounts, u.name) {
        Some(p) => !same_place(p, u.serving->0.mount_point),
        None => true,
    }
}

impl SweepModel {
    /// Whether a configured mount at this point has its own unit holding it.
    ///
    /// Holding it is the question, not merely running: a unit that is up but serving
    /// somewhere else vouches for nothing. A unit whose argv could not be read is taken on
    /// trust, because refusing to vouch for it would have a live mount cut.
    pub open spec fn held(self, point: Seq<char>) -> bool {
        exists|i: int| 0 <= i < self.mounts.len() && #[trigger] self.held_by(i, point)
    }

    /// Whether the unit of one configured mount holds this point.
    pub open spec fn held_by(self, i: int, point: Seq<char>) -> bool {
        &&& same_place(resolved(self.paths, self.mounts[i].mount_point), point)
        &&& match serving_argv(self.loaded, self.mounts[i].unit()) {
            None => false,
            Some(None) => true,
            Some(Some(argv)) => same_place(resolved(self.paths, argv), point),
        }
    }

    /// Where a unit of the sweep serves.
    pub open spec fn point_of(self, u: LoadedUnit<Seq<char>>) -> Seq<char> {
        resolved(self.paths, u.serving->0.mount_point)
    }

    /// Whether a unit is an orphan: it serves something the configuration does not name,
    /// that is mounted, and that no configured mount's own unit holds.
    pub open spec fn is_orphan(self, u: LoadedUnit<Seq<char>>) -> bool {
        &&& is_candidate(u, self.mounts)
        &&& mounted_at(self.live, self.point_of(u))
        &&& !self.held(self.point_of(u))
    }

    /// What acting on an orphan takes.
    pub open spec fn orphan_target(self, u: LoadedUnit<Seq<char>>) -> Target<Seq<char>> {
        Target {
            name: mount_of_unit(u.name)->0,
            unit: u.name,
            point: self.point_of(u),
            fs_spec: u.serving->0.fs_spec,
        }
    }

    /// The orphans among the first units of the sweep, in their order.
    pub open spec fn orphans_among(self, units: Seq<LoadedUnit<Seq<char>>>) -> Seq<
        Target<Seq<char>>,
    >
        decreases units.len(),
    {
        if units.len() == 0 {
            Seq::<Target<Seq<char>>>::empty()
        } else if self.is_orphan(units.last()) {
            self.orphans_among(units.drop_last()).push(self.orphan_target(units.last()))
        } else {
            self.orphans_among(units.drop_last())
        }
    }

    /// The orphans of the sweep.
    pub open spec fn orphans(self) -> Seq<Target<Seq<char>>> {
        self.orphans_among(self.loaded)
    }
}

/// Every orphan reported is a loaded unit of ours that is serving, at a point where
/// something is mounted and that no configured mount's unit holds.
pub proof fn an_orphan_serves_what_nothing_configured_holds(s: SweepModel, i: int)
    requires
        0 <= i < s.orphans().len(),
    ensures
        exists|k: int|
            0 <= k < s.loaded.len() && s.is_orphan(#[trigger] s.loaded[k]) && s.orphans()[i]
                == s.orphan_target(s.loaded[k]),
        mount_of_unit(s.orphans()[i].unit) == Some(s.orphans()[i].name),
        mounted_at(s.live, s.orphans()[i].point),
        !s.held(s.orphans()[i].point),
{
    lemma_orphans_among(s, s.loaded, i);
}

proof fn lemma_orphans_among(s: SweepModel, units: Seq<LoadedUnit<Seq<char>>>, i: int)
    requires
        0 <= i < s.orphans_among(units).len(),
    ensures
        exists|k: int|
            0 <= k < units.len() && s.is_orphan(#[trigger] units[k]) && s.orphans_among(units)[i]
                == s.orphan_target(units[k]),
    decreases units.len(),
{
    let before = units.drop_last();
    if s.is_orphan(units.last()) && i == s.orphans_among(before).len() {
        assert(units[units.len() - 1] == units.last());
    } else {
        lemma_orphans_among(s, before, i);
        let k = choose|k: int|
            0 <= k < before.len() && s.is_orphan(#[trigger] before[k]) && s.orphans_among(
                before,
            )[i] == s.orphan_target(before[k]);
        assert(units[k] == before[k]);
    }
}

/// No unit is reported as an orphan twice, as long as none is loaded twice.
pub proof fn no_orphan_is_reported_twice(s: SweepModel, i: int, j: int)
    requires
        forall|a: int, b: int|
            0 <= a < b < s.loaded.len() ==> #[trigger] s.loaded[a].name != #[trigger] s.loaded[b].name,
        0 <= i < j < s.orphans().len(),
    ensures
        s.orphans()[i].unit != s.orphans()[j].unit,
{
    lemma_distinct_among(s, s.loaded, i, j);
}

proof fn lemma_distinct_among(
    s: SweepModel,
    units: Seq<LoadedUnit<Seq<char>>>,
    i: int,
    j: int,
)
    requires
        forall|a: int, b: int|
            0 <= a < b < units.len() ==> #[trigger] units[a].name != #[trigger] units[b].name,
        0 <= i < j < s.orphans_among(units).len(),
    ensures
        s.orphans_among(units)[i].unit != s.orphans_among(units)[j].unit,
    decreases units.len(),
{
    let before = units.drop_last();
    let n = s.orphans_among(before).len();
    if j < n {
        lemma_distinct_among(s, before, i, j);
    } else {
        lemma_orphans_among(s, before, i);
        let k = choose|k: int|
            0 <= k < before.len() && s.is_orphan(#[trigger] before[k]) && s.orphans_among(before)[i]
                == s.orphan_target(before[k]);
        assert(before[k] == units[k]);
        assert(units.last() == units[units.len() - 1]);
    }
}

/// No orphan goes unreported.
pub proof fn every_orphan_is_reported(s: SweepModel, k: int)
    requires
        0 <= k < s.loaded.len(),
        s.is_orphan(s.loaded[k]),
    ensures
        s.orphans().contains(s.orphan_target(s.loaded[k])),
{
    lemma_reported_among(s, s.loaded, k);
}

proof fn lemma_reported_among(s: SweepModel, units: Seq<LoadedUnit<Seq<char>>>, k: int)
    requires
        0 <= k < units.len(),
        s.is_orphan(units[k]),
    ensures
        s.orphans_among(units).contains(s.orphan_target(units[k])),
    decreases units.len(),
{
    let before = units.drop_last();
    let all = s.orphans_among(units);
    if k == units.len() - 1 {
        assert(all[all.len() - 1] == s.orphan_target(units[k]));
    } else {
        lemma_reported_among(s, before, k);
        assert(before[k] == units[k]);
        let i = choose|i: int|
            0 <= i < s.orphans_among(before).len() && s.orphans_among(before)[i]
                == s.orphan_target(units[k]);
        assert(all[i] == s.orphan_target(units[k]));
    }
}

/// A mount whose unit serves exactly where its entry says is never an orphan, whatever
/// else is running.
pub proof fn a_mount_left_alone_is_no_orphan(s: SweepModel, u: LoadedUnit<Seq<char>>)
    requires
        u.serving is Some,
        own_point(s.mounts, u.name) is Some,
        same_place(own_point(s.mounts, u.name)->0, u.serving->0.mount_point),
    ensures
        !s.is_orphan(u),
{
}

/// Two entries whose mount points were swapped under their running units do not cover for
/// each other: both units are orphans.
pub proof fn swapped_mounts_do_not_vouch_for_each_other(
    s: SweepModel,
    a: Mount<Seq<char>>,
    b: Mount<Seq<char>>,
    ua: LoadedUnit<Seq<char>>,
    ub: LoadedUnit<Seq<char>>,
)
    requires
        s.mounts == seq![a, b],
        s.loaded == seq![ua, ub],
        a.name != b.name,
        mount_of_unit(a.unit()) is Some,
        mount_of_unit(b.unit()) is Some,
        ua.name == a.unit(),
        ub.name == b.unit(),
        ua.status.serves(),
        ub.status.serves(),
        ua.serving is Some,
        ub.serving is Some,
        ua.serving->0.mount_point == b.mount_point,
        ub.serving->0.mount_point == a.mount_point,
        !same_place(a.mount_point, b.mount_point),
        !same_place(resolved(s.paths, a.mount_point), resolved(s.paths, b.mount_point)),
        mounted_at(s.live, resolved(s.paths, a.mount_point)),
        mounted_at(s.live, resolved(s.paths, b.mount_point)),
    ensures
        s.is_orphan(ua),
        s.is_orphan(ub),
{
    if a.unit() == b.unit() {
        unit_names_are_distinct(a.name, b.name);
    }
    assert(s.mounts.drop_last() == seq![a]);
    assert(seq![a].drop_last() == Seq::<Mount<Seq<char>>>::empty());
    assert(s.loaded.drop_last() == seq![ua]);
    assert(own_point(seq![a], a.unit()) == Some(a.mount_point));
    assert(own_point(s.mounts, a.unit()) == Some(a.mount_point));
    assert(own_point(s.mounts, b.unit()) == Some(b.mount_point));
    assert(serving_argv(seq![ua], a.unit()) == Some(Some(b.mount_point)));
    assert(serving_argv(s.loaded, a.unit()) == Some(Some(b.mount_point)));
    assert(serving_argv(s.loaded, b.unit()) == Some(Some(a.mount_point)));
    let ra = resolved(s.paths, a.mount_point);
    let rb = resolved(s.paths, b.mount_point);
    assert forall|i: int| 0 <= i < 2 implies !s.held_by(i, ra) && !s.held_by(i, rb) by {
        assert(s.mounts[i] == a || s.mounts[i] == b);
    }
}

/// Whether a unit has survived the tests that need no path resolved.
fn candidate(u: &LoadedUnit, mounts: &Vec<Mount>) -> (r: bool)
    ensures
        r == is_candidate(u@, views(mounts@)),
{
    if !u.status.is_serving() {
        return false;
    }
    // Nothing to act on without knowing what it serves: stopping a unit whose mount point
    // is unknown could take down anything.
    let serving = match &u.serving {
        Some(s) => s,
        None => {
            return false;
        },
    };
    if orphan_name(u.name.as_str()).is_none() {
        return false;
    }
    let ghost all = views(mounts@);
    let mut i: usize = mounts.len();
    assert(all.take(i as int) == all);
    while i > 0
        invariant
            i <= mounts@.len(),
            all == views(mounts@),
            own_point(all, u.name@) == own_point(all.take(i as int), u.name@),
        ensures
            i == 0 ==> own_point(all, u.name@) is None,
            i > 0 ==> i <= mounts@.len() && own_point(all, u.name@) == Some(
                mounts@[i - 1].mount_point@,
            ),
        decreases i,
    {
        assert(all.take(i as int).drop_last() == all.take(i - 1));
        assert(all.take(i as int).last() == mounts@[i - 1]@);
        if same_text(mounts[i - 1].unit_name().as_str(), u.name.as_str()) {
            break;
        }
        i = i - 1;
    }
    if i == 0 {
        return true;
    }
    !same_path(mounts[i - 1].mount_point.as_str(), serving.mount_point.as_str())
}

/// The mount points of the candidates among the first units.
pub open spec fn points_of_candidates(
    units: Seq<LoadedUnit<Seq<char>>>,
    mounts: Seq<Mount<Seq<char>>>,
) -> Seq<Seq<char>>
    decreases units.len(),
{
    if units.len() == 0 {
        Seq::<Seq<char>>::empty()
    } else if is_candidate(units.last(), mounts) {
        points_of_candidates(units.drop_last(), mounts).push(units.last().serving->0.mount_point)
    } else {
        points_of_candidates(units.drop_last(), mounts)
    }
}

/// The paths that a sweep has to resolve first. Usually none: a healthy unit serves exactly
/// where its configuration entry says, as written there, and resolving a path through a
/// wedged mount is expensive.
pub fn candidate_points(loaded: &Vec<LoadedUnit>, mounts: &Vec<Mount>) -> (r: Vec<String>)
    ensures
        crate::text::texts(r@) == points_of_candidates(views(loaded@), views(mounts@)),
{
    let ghost all = views(loaded@);
    let mut r: Vec<String> = Vec::new();
    let mut i: usize = 0;
    while i < loaded.len()
        invariant
            i <= loaded@.len(),
            all == views(loaded@),
            crate::text::texts(r@) == points_of_candidates(all.take(i as int), views(mounts@)),
        decreases loaded@.len() - i,
    {
        assert(all.take(i + 1).drop_last() == all.take(i as int));
        assert(all.take(i + 1).last() == loaded@[i as int]@);
        if candidate(&loaded[i], mounts) {
            if let Some(s) = &loaded[i].serving {
                let ghost before = r@;
                r.push(s.mount_point.clone());
                assert(crate::text::texts(r@) == crate::text::texts(before).push(s.mount_point@));
            }
        }
        i = i + 1;
    }
    assert(all.take(loaded@.len() as int) == all);
    r
}

impl Sweep {
    /// Where the argv of a serving unit says it mounted.
    fn argv_of(&self, unit: &str) -> (r: Option<Option<String>>)
        ensures
            match r {
                None => serving_argv(self@.loaded, unit@) is None,
                Some(None) => serving_argv(self@.loaded, unit@) == Some(None::<Seq<char>>),
                Some(Some(p)) => serving_argv(self@.loaded, unit@) == Some(Some(p@)),
            },
    {
        let ghost all = views(self.loaded@);
        let mut i: usize = self.loaded.len();
        assert(all.take(i as int) == all);
        while i > 0
            invariant
                i <= self.loaded@.len(),
                all == views(self.loaded@),
                serving_argv(all, unit@) == serving_argv(all.take(i as int), unit@),
            decreases i,
        {
            assert(all.take(i as int).drop_last() == all.take(i - 1));
            assert(all.take(i as int).last() == self.loaded@[i - 1]@);
            let u = &self.loaded[i - 1];
            if u.status.is_serving() && same_text(u.name.as_str(), unit) {
                return match &u.serving {
                    Some(s) => Some(Some(s.mount_point.clone())),
                    None => Some(None),
                };
            }
            i = i - 1;
        }
        None
    }

    /// Whether a configured mount at this point has its own unit holding it.
    pub fn configured_unit_holds(&self, point: &str) -> (r: bool)
        ensures
            r == self@.held(point@),
    {
        let mut i: usize = 0;
        while i < self.mounts.len()
            invariant
                i <= self.mounts@.len(),
                forall|k: int| 0 <= k < i ==> !#[trigger] self@.held_by(k, point@),
            decreases self.mounts@.len() - i,
        {
            let m = &self.mounts[i];
            assert(self@.mounts[i as int] == m@);
            let here = resolve_path(&self.paths, m.mount_point.as_str());
            if same_path(here.as_str(), point) {
                let holds = match self.argv_of(m.unit_name().as_str()) {
                    // Not serving, so it holds nothing.
                    None => false,
                    Some(None) => true,
                    Some(Some(argv)) => {
                        let there = resolve_path(&self.paths, argv.as_str());
                        same_path(there.as_str(), point)
                    },
                };
                assert(holds == self@.held_by(i as int, point@));
                if holds {
                    return true;
                }
            }
            assert(!self@.held_by(i as int, point@));
            i = i + 1;
        }
        false
    }

    /// Every unit of ours that is serving something the configuration no longer names.
    ///
    /// Without it a renamed mount leaves its old unit running and unaccounted for, and the
    /// mount point it holds reads as somebody else's. A unit still named by the
    /// configuration can be one too, when the entry's mount point was edited under it.
    ///
    /// Being named by no entry is not enough to make a unit the owner of a mount point: its
    /// argv records only where it meant to mount. It must also be serving, something must
    /// be mounted there, and no configured mount's own unit may hold the point. What is
    /// mounted there need not match the `remote:path` the unit was given, since rclone
    /// reports the file system it resolved rather than its argument.
    pub fn orphans(&self) -> (r: Vec<Target>)
        ensures
            views(r@) == self@.orphans(),
    {
        let ghost all = self@.loaded;
        let mut out: Vec<Target> = Vec::new();
        let mut i: usize = 0;
        while i < self.loaded.len()
            invariant
                i <= self.loaded@.len(),
                all == self@.loaded,
                views(out@) == self@.orphans_among(all.take(i as int)),
            decreases self.loaded@.len() - i,
        {
            let u = &self.loaded[i];
            assert(all.take(i + 1).drop_last() == all.take(i as int));
            assert(all.take(i + 1).last() == u@);
            if candidate(u, &self.mounts) {
                if let Some(serving) = &u.serving {
                    if let Some(name) = orphan_name(u.name.as_str()) {
                        let point = resolve_path(&self.paths, serving.mount_point.as_str());
                        assert(point@ == self@.point_of(u@));
                        // After a rename the old unit and the new one name the same path
                        // with the same remote: the one to believe is the one whose entry
                        // still exists and whose unit is up.
                        if is_mounted_at(&self.live, point.as_str())
                            && !self.configured_unit_holds(point.as_str()) {
                            let t = Target {
                                name,
                                unit: u.name.clone(),
                                point,
                                fs_spec: serving.fs_spec.clone(),
                            };
                            let ghost before = out@;
                            out.push(t);
                            assert(views(out@) == views(before).push(t@));
                        }
                    }
                }
            }
            i = i + 1;
        }
        assert(all.take(self.loaded@.len() as int) == all);
        out
    }
}

} // verus!
