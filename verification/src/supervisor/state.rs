//! What state a mount is in.

use crate::config::{unit_named, Mount};
use crate::errors::SupervisorError;
use crate::mountinfo::MountEntry;
use crate::paths::{same_path, same_place};
use crate::supervisor::orphans::{
    a_mount_maps_back_to_its_unit, an_orphan_serves_what_nothing_configured_holds,
    no_orphan_is_reported_twice, resolve_path, resolved, Resolved, SweepModel, Target,
};
use crate::supervisor::targets::{find_target, first_target, Wanted};
use crate::systemd::UnitStatus;
use crate::text::{debug_text, opt_text, quoted, same_text, views};
use vstd::prelude::*;
use vstd::string::*;

verus! {

/// What a mount is doing.
#[derive(Debug, Clone, PartialEq, Eq)]
pub enum MountState<S = String> {
    Mounted,
    Unmounted,
    Mounting,
    Unmounting,
    Failed { reason: S },
    /// Mounted by something that is not this service.
    Foreign,
    /// Served by a unit of this service that no configuration entry names any more.
    Orphaned,
}

impl View for MountState {
    type V = MountState<Seq<char>>;

    open spec fn view(&self) -> MountState<Seq<char>> {
        match *self {
            MountState::Mounted => MountState::Mounted,
            MountState::Unmounted => MountState::Unmounted,
            MountState::Mounting => MountState::Mounting,
            MountState::Unmounting => MountState::Unmounting,
            MountState::Failed { reason } => MountState::Failed { reason: reason@ },
            MountState::Foreign => MountState::Foreign,
            MountState::Orphaned => MountState::Orphaned,
        }
    }
}

impl MountState {
    /// The same state again.
    pub fn copy(&self) -> (r: MountState)
        ensures
            r@ == self@,
    {
        match self {
            MountState::Mounted => MountState::Mounted,
            MountState::Unmounted => MountState::Unmounted,
            MountState::Mounting => MountState::Mounting,
            MountState::Unmounting => MountState::Unmounting,
            MountState::Failed { reason } => MountState::Failed { reason: reason.clone() },
            MountState::Foreign => MountState::Foreign,
            MountState::Orphaned => MountState::Orphaned,
        }
    }
}

/// A mount that is there, and what it is doing.
#[derive(Debug, Clone, PartialEq, Eq)]
pub struct DiscoveredMount<S = String> {
    pub name: S,
    pub state: MountState<S>,
    /// Where it is, if that is known.
    pub mount_point: Option<S>,
}

impl View for DiscoveredMount {
    type V = DiscoveredMount<Seq<char>>;

    open spec fn view(&self) -> DiscoveredMount<Seq<char>> {
        DiscoveredMount {
            name: self.name@,
            state: self.state@,
            mount_point: opt_text(self.mount_point),
        }
    }
}

impl DiscoveredMount {
    /// A mount of which no place is known.
    pub fn new(name: String, state: MountState) -> (r: DiscoveredMount)
        ensures
            r@ == found(name@, state@),
    {
        DiscoveredMount { name, state, mount_point: None }
    }

    /// The same mount, at a place.
    pub fn at(self, mount_point: String) -> (r: DiscoveredMount)
        ensures
            r@ == (DiscoveredMount { mount_point: Some(mount_point@), ..self@ }),
    {
        let mut d = self;
        d.mount_point = Some(mount_point);
        d
    }
}

/// A mount of which no place is known.
pub open spec fn found(name: Seq<char>, state: MountState<Seq<char>>) -> DiscoveredMount<Seq<char>> {
    DiscoveredMount { name, state, mount_point: None }
}

/// What is known of one mount so far, beyond the mount table and the orphans.
pub struct Facts<S = String> {
    /// Whether its point is mounted but no longer served.
    pub stale: Option<bool>,
    /// What its unit is doing.
    pub status: Option<UnitStatus>,
    /// What its unit said last.
    pub said: Option<S>,
}

impl View for Facts {
    type V = Facts<Seq<char>>;

    open spec fn view(&self) -> Facts<Seq<char>> {
        Facts { stale: self.stale, status: self.status, said: opt_text(self.said) }
    }
}

/// A mount's state, or the next thing to find out about it.
pub enum Verdict<S = String> {
    AskStale,
    AskStatus,
    AskOutput,
    State(MountState<S>),
}

impl View for Verdict {
    type V = Verdict<Seq<char>>;

    open spec fn view(&self) -> Verdict<Seq<char>> {
        match *self {
            Verdict::AskStale => Verdict::AskStale,
            Verdict::AskStatus => Verdict::AskStatus,
            Verdict::AskOutput => Verdict::AskOutput,
            Verdict::State(s) => Verdict::State(s@),
        }
    }
}

/// Why a unit failed: what it said, or where to look when it said nothing.
pub open spec fn failure_text(unit: Seq<char>, said: Seq<char>) -> Seq<char> {
    if said.len() == 0 {
        "rclone logged nothing; check `journalctl --user -u "@ + unit + "`"@
    } else {
        said
    }
}

/// Why a unit failed.
pub fn failure_reason(unit: &str, said: String) -> (r: String)
    ensures
        r@ == failure_text(unit@, said@),
{
    if said.as_str().is_empty() {
        let mut s = "rclone logged nothing; check `journalctl --user -u ".to_owned();
        s.append(unit);
        s.append("`");
        s
    } else {
        said
    }
}

/// What is said of a mount whose own unit serves a path its entry no longer names.
pub open spec fn moved_text(m: Mount<Seq<char>>, point: Seq<char>, o: Target<Seq<char>>) -> Seq<
    char,
> {
    o.unit + " is serving "@ + o.point + ", not the configured "@ + point
        + " — its mount point was changed while it was mounted. Unmounting "@ + debug_text(m.name)
        + " and mounting it again moves it."@
}

/// What is said of a point that is mounted but not served.
pub open spec fn stale_text(point: Seq<char>) -> Seq<char> {
    point
        + " is mounted but not responding — the rclone serving it exited without unmounting. Mounting again will clear it."@
}

/// What is said of a mount whose point a unit under an old name still serves.
pub open spec fn renamed_text(point: Seq<char>, o: Target<Seq<char>>) -> Seq<char> {
    point + " is still served by "@ + o.unit
        + ", left over from a mount this config no longer names — usually a rename. Unmounting "@
        + debug_text(o.name) + " frees it."@
}

/// A mount's state, once it is known whether its point is mounted but unserved, what its
/// unit is doing, and what that unit said.
pub open spec fn state_of(
    m: Mount<Seq<char>>,
    point: Seq<char>,
    live: bool,
    orphans: Seq<Target<Seq<char>>>,
    stale: bool,
    status: UnitStatus,
    said: Seq<char>,
) -> MountState<Seq<char>> {
    match find_target(orphans, Wanted::OfUnit(m.unit())) {
        Some(o) => MountState::Failed { reason: moved_text(m, point, o) },
        None => if live && stale {
            MountState::Failed { reason: stale_text(point) }
        } else {
            match status {
                UnitStatus::Active | UnitStatus::Activating => if live {
                    MountState::Mounted
                } else {
                    MountState::Mounting
                },
                UnitStatus::Deactivating => MountState::Unmounting,
                UnitStatus::Failed => MountState::Failed { reason: failure_text(m.unit(), said) },
                UnitStatus::Inactive => if live {
                    match find_target(orphans, Wanted::At(point)) {
                        Some(o) => MountState::Failed { reason: renamed_text(point, o) },
                        None => MountState::Foreign,
                    }
                } else {
                    MountState::Unmounted
                },
            }
        },
    }
}

/// What the facts so far say of a mount. Nothing is asked that does not matter: a mount
/// that has moved needs no further fact, a point where nothing is mounted is not probed,
/// and only a failed unit's log is read.
pub open spec fn verdict(
    m: Mount<Seq<char>>,
    point: Seq<char>,
    live: bool,
    orphans: Seq<Target<Seq<char>>>,
    facts: Facts<Seq<char>>,
) -> Verdict<Seq<char>> {
    let moved = find_target(orphans, Wanted::OfUnit(m.unit())) is Some;
    let stale = live && facts.stale == Some(true);
    if !moved && live && facts.stale is None {
        Verdict::AskStale
    } else if !moved && !stale && facts.status is None {
        Verdict::AskStatus
    } else if !moved && !stale && facts.status == Some(UnitStatus::Failed) && facts.said is None {
        Verdict::AskOutput
    } else {
        Verdict::State(
            state_of(
                m,
                point,
                live,
                orphans,
                stale,
                match facts.status {
                    Some(s) => s,
                    None => UnitStatus::Inactive,
                },
                match facts.said {
                    Some(t) => t,
                    None => Seq::<char>::empty(),
                },
            ),
        )
    }
}

/// Resolve one mount's state, as far as the facts go. The kernel says whether anything is
/// mounted there; the unit says whether it is ours.
pub fn resolve(m: &Mount, point: &str, live: bool, orphans: &Vec<Target>, facts: Facts) -> (r:
    Verdict)
    ensures
        r@ == verdict(m@, point@, live, views(orphans@), facts@),
{
    let unit = m.unit_name();
    // This entry's own unit, serving a path the entry no longer names. Answered before
    // anything else, because everything below asks about the configured path, and nothing
    // can arrive there while that unit holds the name.
    if let Some(o) = first_target(orphans, Wanted::OfUnit(unit.as_str())) {
        let mut s = o.unit.clone();
        s.append(" is serving ");
        s.append(o.point.as_str());
        s.append(", not the configured ");
        s.append(point);
        s.append(" — its mount point was changed while it was mounted. Unmounting ");
        s.append(quoted(m.name.as_str()).as_str());
        s.append(" and mounting it again moves it.");
        return Verdict::State(MountState::Failed { reason: s });
    }
    if live {
        match facts.stale {
            None => {
                return Verdict::AskStale;
            },
            // Still "mounted" to the kernel. Reporting it as foreign would leave it neither
            // startable nor stoppable.
            Some(true) => {
                let mut s = point.to_owned();
                s.append(
                    " is mounted but not responding — the rclone serving it exited without unmounting. Mounting again will clear it.",
                );
                return Verdict::State(MountState::Failed { reason: s });
            },
            Some(false) => {},
        }
    }
    let status = match facts.status {
        None => {
            return Verdict::AskStatus;
        },
        Some(s) => s,
    };
    match status {
        // A unit is active as soon as rclone is exec'd, seconds before the mount point
        // answers, so an active unit with nothing mounted yet is coming up.
        UnitStatus::Active | UnitStatus::Activating => if live {
            Verdict::State(MountState::Mounted)
        } else {
            Verdict::State(MountState::Mounting)
        },
        // A teardown the user asked for.
        UnitStatus::Deactivating => Verdict::State(MountState::Unmounting),
        // Ours, even if it died with the kernel entry still there.
        UnitStatus::Failed => match facts.said {
            None => Verdict::AskOutput,
            Some(said) => Verdict::State(
                MountState::Failed { reason: failure_reason(unit.as_str(), said) },
            ),
        },
        UnitStatus::Inactive => if live {
            // Mounted with no unit of ours under this name: either somebody else started
            // it, or one of our own units still holds the point under an old name.
            match first_target(orphans, Wanted::At(point)) {
                Some(o) => {
                    let mut s = point.to_owned();
                    s.append(" is still served by ");
                    s.append(o.unit.as_str());
                    s.append(
                        ", left over from a mount this config no longer names — usually a rename. Unmounting ",
                    );
                    s.append(quoted(o.name.as_str()).as_str());
                    s.append(" frees it.");
                    Verdict::State(MountState::Failed { reason: s })
                },
                None => Verdict::State(MountState::Foreign),
            }
        } else {
            Verdict::State(MountState::Unmounted)
        },
    }
}

/// A mount's state comes out the same whichever facts were known, as long as they are true,
/// and only facts that are not known are asked for.
pub proof fn the_state_does_not_depend_on_what_was_asked(
    m: Mount<Seq<char>>,
    point: Seq<char>,
    live: bool,
    orphans: Seq<Target<Seq<char>>>,
    facts: Facts<Seq<char>>,
    stale: bool,
    status: UnitStatus,
    said: Seq<char>,
)
    requires
        facts.stale matches Some(x) ==> x == stale,
        facts.status matches Some(x) ==> x == status,
        facts.said matches Some(x) ==> x == said,
    ensures
        match verdict(m, point, live, orphans, facts) {
            Verdict::AskStale => live && facts.stale is None,
            Verdict::AskStatus => facts.status is None,
            Verdict::AskOutput => status == UnitStatus::Failed && facts.said is None,
            Verdict::State(s) => s == state_of(m, point, live, orphans, stale, status, said),
        },
{
}

/// A mount reads as somebody else's only where something is mounted and answering, its own
/// unit is not there at all, and no other unit of ours holds the point.
pub proof fn only_what_no_unit_of_ours_serves_is_foreign(
    m: Mount<Seq<char>>,
    point: Seq<char>,
    live: bool,
    orphans: Seq<Target<Seq<char>>>,
    stale: bool,
    status: UnitStatus,
    said: Seq<char>,
)
    ensures
        state_of(m, point, live, orphans, stale, status, said) is Foreign <==> (live && !stale
            && status == UnitStatus::Inactive && find_target(
            orphans,
            Wanted::OfUnit(m.unit()),
        ) is None && find_target(orphans, Wanted::At(point)) is None),
{
}

/// The state of a name that no configuration entry has.
pub open spec fn unconfigured_state(name: Seq<char>, orphans: Seq<Target<Seq<char>>>) -> Result<
    MountState<Seq<char>>,
    SupervisorError<Seq<char>>,
> {
    if find_target(orphans, Wanted::Named(name)) is Some {
        Ok(MountState::Orphaned)
    } else {
        Err(SupervisorError::UnknownMount(name))
    }
}

/// The state of a name that no configuration entry has. Orphans are listed, so whatever is
/// listing them has to be able to ask for them too.
pub fn state(name: &str, orphans: &Vec<Target>) -> (r: Result<MountState, SupervisorError>)
    ensures
        match r {
            Ok(s) => unconfigured_state(name@, views(orphans@)) == Ok::<
                _,
                SupervisorError<Seq<char>>,
            >(s@),
            Err(e) => unconfigured_state(name@, views(orphans@)) == Err::<
                MountState<Seq<char>>,
                _,
            >(e@),
        },
{
    match first_target(orphans, Wanted::Named(name)) {
        Some(_) => Ok(MountState::Orphaned),
        None => Err(SupervisorError::UnknownMount(name.to_owned())),
    }
}

/// The configured mounts with their states.
pub open spec fn configured_rows(
    mounts: Seq<Mount<Seq<char>>>,
    states: Seq<MountState<Seq<char>>>,
) -> Seq<DiscoveredMount<Seq<char>>> {
    Seq::new(
        mounts.len(),
        |i: int| found(mounts[i].name, states[i]),
    )
}

/// Whether some configuration entry names a unit.
pub open spec fn names_unit(mounts: Seq<Mount<Seq<char>>>, unit: Seq<char>) -> bool {
    exists|i: int| 0 <= i < mounts.len() && #[trigger] mounts[i].unit() == unit
}

/// The orphans whose units the configuration does not name. One that it does name is there
/// already, under that name.
pub open spec fn orphan_rows(
    mounts: Seq<Mount<Seq<char>>>,
    orphans: Seq<Target<Seq<char>>>,
) -> Seq<DiscoveredMount<Seq<char>>>
    decreases orphans.len(),
{
    if orphans.len() == 0 {
        Seq::<DiscoveredMount<Seq<char>>>::empty()
    } else if names_unit(mounts, orphans.last().unit) {
        orphan_rows(mounts, orphans.drop_last())
    } else {
        orphan_rows(mounts, orphans.drop_last()).push(
            found(orphans.last().name, MountState::Orphaned),
        )
    }
}

/// Whether a mount point belongs to a configured mount or to an orphan.
pub open spec fn claimed(
    mounts: Seq<Mount<Seq<char>>>,
    paths: Seq<Resolved<Seq<char>>>,
    orphans: Seq<Target<Seq<char>>>,
    point: Seq<char>,
) -> bool {
    ||| exists|i: int|
        0 <= i < mounts.len() && same_place(
            resolved(paths, (#[trigger] mounts[i]).mount_point),
            point,
        )
    ||| exists|i: int| 0 <= i < orphans.len() && same_place((#[trigger] orphans[i]).point, point)
}

/// The rclone mounts that nothing claims. Each is named by its whole mount point, because
/// last components collide and a configured name holds no separator.
pub open spec fn foreign_rows(
    mounts: Seq<Mount<Seq<char>>>,
    paths: Seq<Resolved<Seq<char>>>,
    orphans: Seq<Target<Seq<char>>>,
    live: Seq<MountEntry<Seq<char>>>,
) -> Seq<DiscoveredMount<Seq<char>>>
    decreases live.len(),
{
    if live.len() == 0 {
        Seq::<DiscoveredMount<Seq<char>>>::empty()
    } else {
        let before = foreign_rows(mounts, paths, orphans, live.drop_last());
        if live.last().by_rclone() && !claimed(mounts, paths, orphans, live.last().mount_point) {
            before.push(found(live.last().mount_point, MountState::Foreign))
        } else {
            before
        }
    }
}

/// Every mount there is: the configured ones, then orphans, then those of others.
pub open spec fn discovered(
    mounts: Seq<Mount<Seq<char>>>,
    states: Seq<MountState<Seq<char>>>,
    paths: Seq<Resolved<Seq<char>>>,
    orphans: Seq<Target<Seq<char>>>,
    live: Seq<MountEntry<Seq<char>>>,
) -> Seq<DiscoveredMount<Seq<char>>> {
    configured_rows(mounts, states) + orphan_rows(mounts, orphans) + foreign_rows(
        mounts,
        paths,
        orphans,
        live,
    )
}

/// A name for a mount we did not configure.
pub fn foreign_name(e: &MountEntry) -> (r: String)
    ensures
        r@ == e@.mount_point,
{
    e.mount_point.clone()
}

fn is_named(mounts: &Vec<Mount>, unit: &str) -> (r: bool)
    ensures
        r == names_unit(views(mounts@), unit@),
{
    let mut i: usize = 0;
    while i < mounts.len()
        invariant
            i <= mounts@.len(),
            forall|k: int| 0 <= k < i ==> #[trigger] views(mounts@)[k].unit() != unit@,
        decreases mounts@.len() - i,
    {
        if same_text(mounts[i].unit_name().as_str(), unit) {
            assert(views(mounts@)[i as int].unit() == unit@);
            return true;
        }
        i = i + 1;
    }
    false
}

fn is_claimed(mounts: &Vec<Mount>, paths: &Vec<Resolved>, orphans: &Vec<Target>, point: &str) -> (r:
    bool)
    ensures
        r == claimed(views(mounts@), views(paths@), views(orphans@), point@),
{
    let mut i: usize = 0;
    while i < mounts.len()
        invariant
            i <= mounts@.len(),
            forall|k: int|
                0 <= k < i ==> !same_place(
                    resolved(views(paths@), (#[trigger] views(mounts@)[k]).mount_point),
                    point@,
                ),
        decreases mounts@.len() - i,
    {
        let here = resolve_path(paths, mounts[i].mount_point.as_str());
        if same_path(here.as_str(), point) {
            assert(views(mounts@)[i as int].mount_point == mounts@[i as int].mount_point@);
            return true;
        }
        i = i + 1;
    }
    let mut k: usize = 0;
    while k < orphans.len()
        invariant
            k <= orphans@.len(),
            forall|j: int|
                0 <= j < k ==> !same_place((#[trigger] views(orphans@)[j]).point, point@),
        decreases orphans@.len() - k,
    {
        if same_path(orphans[k].point.as_str(), point) {
            assert(views(orphans@)[k as int].point == orphans@[k as int].point@);
            return true;
        }
        k = k + 1;
    }
    false
}

/// Every mount there is. `states` holds the state of each configured mount, in their order.
///
/// An orphan counts as claiming its mount point, or the same mount would be listed twice:
/// once as somebody else's, once as ours.
pub fn reconcile(
    mounts: &Vec<Mount>,
    states: &Vec<MountState>,
    paths: &Vec<Resolved>,
    orphans: &Vec<Target>,
    live: &Vec<MountEntry>,
) -> (r: Vec<DiscoveredMount>)
    requires
        states@.len() == mounts@.len(),
    ensures
        views(r@) == discovered(
            views(mounts@),
            views(states@),
            views(paths@),
            views(orphans@),
            views(live@),
        ),
{
    let ghost ms = views(mounts@);
    let ghost ss = views(states@);
    let ghost ps = views(paths@);
    let ghost os = views(orphans@);
    let ghost ls = views(live@);
    let mut out: Vec<DiscoveredMount> = Vec::new();
    let mut i: usize = 0;
    while i < mounts.len()
        invariant
            i <= mounts@.len(),
            states@.len() == mounts@.len(),
            ms == views(mounts@),
            ss == views(states@),
            views(out@) == configured_rows(ms, ss).take(i as int),
        decreases mounts@.len() - i,
    {
        let row = DiscoveredMount::new(mounts[i].name.clone(), states[i].copy());
        let ghost before = out@;
        out.push(row);
        assert(views(out@) == views(before).push(row@));
        assert(row@ == configured_rows(ms, ss)[i as int]);
        assert(configured_rows(ms, ss).take(i + 1) == configured_rows(ms, ss).take(i as int).push(
            row@,
        ));
        i = i + 1;
    }
    let ghost part1 = configured_rows(ms, ss);
    assert(part1.take(mounts@.len() as int) == part1);
    let mut k: usize = 0;
    assert(part1 + orphan_rows(ms, os.take(0)) == part1);
    while k < orphans.len()
        invariant
            k <= orphans@.len(),
            ms == views(mounts@),
            os == views(orphans@),
            views(out@) == part1 + orphan_rows(ms, os.take(k as int)),
        decreases orphans@.len() - k,
    {
        assert(os.take(k + 1).drop_last() == os.take(k as int));
        assert(os.take(k + 1).last() == orphans@[k as int]@);
        if !is_named(mounts, orphans[k].unit.as_str()) {
            let row = DiscoveredMount::new(orphans[k].name.clone(), MountState::Orphaned);
            let ghost before = out@;
            out.push(row);
            assert(views(out@) == views(before).push(row@));
        }
        k = k + 1;
    }
    assert(os.take(orphans@.len() as int) == os);
    let ghost part2 = part1 + orphan_rows(ms, os);
    let mut j: usize = 0;
    assert(part2 + foreign_rows(ms, ps, os, ls.take(0)) == part2);
    while j < live.len()
        invariant
            j <= live@.len(),
            ms == views(mounts@),
            ps == views(paths@),
            os == views(orphans@),
            ls == views(live@),
            views(out@) == part2 + foreign_rows(ms, ps, os, ls.take(j as int)),
        decreases live@.len() - j,
    {
        assert(ls.take(j + 1).drop_last() == ls.take(j as int));
        assert(ls.take(j + 1).last() == live@[j as int]@);
        if live[j].is_rclone() && !is_claimed(
            mounts,
            paths,
            orphans,
            live[j].mount_point.as_str(),
        ) {
            let row = DiscoveredMount::new(foreign_name(&live[j]), MountState::Foreign);
            let ghost before = out@;
            out.push(row);
            assert(views(out@) == views(before).push(row@));
        }
        j = j + 1;
    }
    assert(ls.take(live@.len() as int) == ls);
    out
}

/// No name is listed twice among the mounts that are ours: not when a unit's entry moved,
/// and not when a rename left one behind. A client keys its rows by name.
pub proof fn one_name_has_one_row(
    s: SweepModel,
    states: Seq<MountState<Seq<char>>>,
    i: int,
    j: int,
)
    requires
        states.len() == s.mounts.len(),
        forall|a: int, b: int|
            0 <= a < b < s.mounts.len() ==> #[trigger] s.mounts[a].name != #[trigger] s.mounts[b].name,
        forall|a: int, b: int|
            0 <= a < b < s.loaded.len() ==> #[trigger] s.loaded[a].name != #[trigger] s.loaded[b].name,
        0 <= i < j < (configured_rows(s.mounts, states) + orphan_rows(s.mounts, s.orphans())).len(),
    ensures
        ({
            let rows = configured_rows(s.mounts, states) + orphan_rows(s.mounts, s.orphans());
            rows[i].name != rows[j].name
        }),
{
    let n = s.mounts.len() as int;
    assert(s.orphans().take(s.orphans().len() as int) == s.orphans());
    if j >= n {
        lemma_row_of_orphan(s, s.orphans().len() as int, j - n);
        if i < n {
            assert(s.mounts[i].unit() == unit_named(s.mounts[i].name));
        } else {
            lemma_orphan_rows_distinct(s, s.orphans().len() as int, i - n, j - n);
        }
    }
}

/// A row among the orphans comes from one whose unit the configuration does not name.
proof fn lemma_row_of_orphan(s: SweepModel, n: int, i: int)
    requires
        0 <= n <= s.orphans().len(),
        0 <= i < orphan_rows(s.mounts, s.orphans().take(n)).len(),
    ensures
        ({
            let row = orphan_rows(s.mounts, s.orphans().take(n))[i];
            &&& !names_unit(s.mounts, unit_named(row.name))
            &&& exists|k: int| 0 <= k < n && (#[trigger] s.orphans()[k]).unit == unit_named(row.name)
        }),
    decreases n,
{
    let some = s.orphans().take(n);
    assert(some.drop_last() == s.orphans().take(n - 1));
    assert(some.last() == s.orphans()[n - 1]);
    if i < orphan_rows(s.mounts, some.drop_last()).len() {
        lemma_row_of_orphan(s, n - 1, i);
    } else {
        an_orphan_serves_what_nothing_configured_holds(s, n - 1);
        a_mount_maps_back_to_its_unit(s.orphans()[n - 1].unit);
    }
}

proof fn lemma_orphan_rows_distinct(s: SweepModel, n: int, i: int, j: int)
    requires
        forall|a: int, b: int|
            0 <= a < b < s.loaded.len() ==> #[trigger] s.loaded[a].name != #[trigger] s.loaded[b].name,
        0 <= n <= s.orphans().len(),
        0 <= i < j < orphan_rows(s.mounts, s.orphans().take(n)).len(),
    ensures
        orphan_rows(s.mounts, s.orphans().take(n))[i].name != orphan_rows(
            s.mounts,
            s.orphans().take(n),
        )[j].name,
    decreases n,
{
    let some = s.orphans().take(n);
    assert(some.drop_last() == s.orphans().take(n - 1));
    assert(some.last() == s.orphans()[n - 1]);
    let before = orphan_rows(s.mounts, some.drop_last());
    if j < before.len() {
        lemma_orphan_rows_distinct(s, n - 1, i, j);
    } else {
        lemma_row_of_orphan(s, n - 1, i);
        let k = choose|k: int|
            0 <= k < n - 1 && (#[trigger] s.orphans()[k]).unit == unit_named(before[i].name);
        no_orphan_is_reported_twice(s, k, n - 1);
        an_orphan_serves_what_nothing_configured_holds(s, n - 1);
        a_mount_maps_back_to_its_unit(s.orphans()[n - 1].unit);
    }
}

/// No live rclone mount goes unaccounted for: it is at a point that a configured mount or
/// an orphan claims, or it is listed as foreign under its mount point, and not both.
pub proof fn every_rclone_mount_is_accounted_for_once(
    mounts: Seq<Mount<Seq<char>>>,
    paths: Seq<Resolved<Seq<char>>>,
    orphans: Seq<Target<Seq<char>>>,
    live: Seq<MountEntry<Seq<char>>>,
    i: int,
)
    requires
        0 <= i < live.len(),
        live[i].by_rclone(),
    ensures
        foreign_rows(mounts, paths, orphans, live).contains(
            found(live[i].mount_point, MountState::Foreign),
        ) <==> !claimed(mounts, paths, orphans, live[i].mount_point),
    decreases live.len(),
{
    lemma_foreign_rows_unclaimed(mounts, paths, orphans, live);
    let row = found(live[i].mount_point, MountState::Foreign);
    let all = foreign_rows(mounts, paths, orphans, live);
    let before = foreign_rows(mounts, paths, orphans, live.drop_last());
    if !claimed(mounts, paths, orphans, live[i].mount_point) {
        if i == live.len() - 1 {
            assert(all[all.len() - 1] == row);
        } else {
            every_rclone_mount_is_accounted_for_once(mounts, paths, orphans, live.drop_last(), i);
            assert(live.drop_last()[i] == live[i]);
            let k = choose|k: int| 0 <= k < before.len() && before[k] == row;
            assert(all[k] == row);
        }
    }
}

proof fn lemma_foreign_rows_unclaimed(
    mounts: Seq<Mount<Seq<char>>>,
    paths: Seq<Resolved<Seq<char>>>,
    orphans: Seq<Target<Seq<char>>>,
    live: Seq<MountEntry<Seq<char>>>,
)
    ensures
        forall|k: int|
            0 <= k < foreign_rows(mounts, paths, orphans, live).len() ==> !claimed(
                mounts,
                paths,
                orphans,
                (#[trigger] foreign_rows(mounts, paths, orphans, live)[k]).name,
            ),
    decreases live.len(),
{
    if live.len() > 0 {
        lemma_foreign_rows_unclaimed(mounts, paths, orphans, live.drop_last());
        let all = foreign_rows(mounts, paths, orphans, live);
        let before = foreign_rows(mounts, paths, orphans, live.drop_last());
        assert forall|k: int| 0 <= k < all.len() implies !claimed(
            mounts,
            paths,
            orphans,
            (#[trigger] all[k]).name,
        ) by {
            if k < before.len() {
                assert(all[k] == before[k]);
            }
        }
    }
}

} // verus!
