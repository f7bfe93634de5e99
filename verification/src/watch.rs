//! When the service looks at its mounts, and what it makes of what it sees.
//!
//! Times are in milliseconds of some clock that only goes forward.

use crate::config::Mount;
use crate::errors::SupervisorError;
use crate::ipc::{mount_view, transfer_view, view_of_mount, view_of_transfer, MountView};
use crate::poller::{MountPoller, PollerModel};
use crate::registry::{
    best_tier, swept, Change, ChangeModel, Registry, RegistryModel,
};
use crate::supervisor::state::DiscoveredMount;
use crate::supervisor::targets::{configured, mount_config};
use crate::table::{in_order, row_at, row_view, row_views, with_row, Table};
use crate::text::{any_text, texts, views};
use crate::transfer::{TransferModel, TransferState};
use vstd::prelude::*;
use vstd::string::*;

verus! {

/// How often the mounts are swept when nothing has asked sooner. Changes that the service
/// causes are published at once, so this bounds how long somebody else's goes unnoticed.
pub const SWEEP_INTERVAL_MS: u64 = 15_000;

/// Deadlines of mounts, by name.
pub type Deadlines = Seq<(Seq<char>, u64)>;

/// When to look next.
pub struct Watcher {
    sweep_due: u64,
    /// When each mount is next worth asking.
    due: Table<u64>,
}

/// A watcher by its view.
pub struct WatcherModel {
    pub sweep_due: u64,
    pub due: Deadlines,
}

impl View for Watcher {
    type V = WatcherModel;

    closed spec fn view(&self) -> WatcherModel {
        WatcherModel { sweep_due: self.sweep_due, due: self.due@ }
    }
}

/// A moment so much later, or the last there is.
pub open spec fn later(at: u64, by: int) -> u64 {
    if at + by > u64::MAX {
        u64::MAX
    } else {
        (at + by) as u64
    }
}

/// The deadlines of some names alone. A mount that stopped serving keeps none: a remount is
/// a different rclone.
pub open spec fn only(due: Deadlines, names: Seq<Seq<char>>) -> Deadlines
    decreases due.len(),
{
    if due.len() == 0 {
        due
    } else if names.contains(due.last().0) {
        with_row(only(due.drop_last(), names), due.last().0, due.last().1)
    } else {
        only(due.drop_last(), names)
    }
}

/// The names whose time has come: those without a deadline, and those past theirs.
pub open spec fn ripe(names: Seq<Seq<char>>, due: Deadlines, now: u64) -> Seq<Seq<char>>
    decreases names.len(),
{
    if names.len() == 0 {
        names
    } else {
        let before = ripe(names.drop_last(), due, now);
        match row_at(due, names.last()) {
            Some(at) => if at > now {
                before
            } else {
                before.push(names.last())
            },
            None => before.push(names.last()),
        }
    }
}

/// The earliest of a moment and some deadlines.
pub open spec fn earliest(first: u64, due: Deadlines) -> u64
    decreases due.len(),
{
    if due.len() == 0 {
        first
    } else {
        let before = earliest(first, due.drop_last());
        if due.last().1 < before {
            due.last().1
        } else {
            before
        }
    }
}

impl Watcher {
    /// A watcher that sweeps at once.
    pub fn new(now: u64) -> (r: Watcher)
        ensures
            r@.sweep_due == now,
            r@.due.len() == 0,
    {
        Watcher { sweep_due: now, due: Table::new() }
    }

    /// Whether it is time to sweep.
    pub fn sweeps(&self, now: u64) -> (r: bool)
        ensures
            r == (self@.sweep_due <= now),
    {
        self.sweep_due <= now
    }

    /// A sweep has ended. The next is measured from here, not from its start: a sweep that
    /// takes longer than the interval must not be followed by another without pause.
    pub fn swept(&mut self, ended: u64)
        ensures
            final(self)@.sweep_due == later(ended, SWEEP_INTERVAL_MS as int),
            final(self)@.due == old(self)@.due,
    {
        self.sweep_due = ended.saturating_add(SWEEP_INTERVAL_MS);
    }

    /// An action of ours has landed: sweep now, to publish its result.
    pub fn nudge(&mut self, now: u64)
        ensures
            final(self)@.sweep_due == now,
            final(self)@.due == old(self)@.due,
    {
        self.sweep_due = now;
    }

    /// The mounts to poll now, of those worth polling. The deadlines of all others are
    /// forgotten.
    pub fn poll_due(&mut self, pollable: &Vec<String>, now: u64) -> (r: Vec<String>)
        ensures
            final(self)@.sweep_due == old(self)@.sweep_due,
            final(self)@.due == only(old(self)@.due, texts(pollable@)),
            texts(r@) == ripe(texts(pollable@), final(self)@.due, now),
    {
        let ghost names = texts(pollable@);
        let ghost all = self@.due;
        let mut kept: Table<u64> = Table::new();
        {
            let rows = self.due.rows();
            let mut i: usize = 0;
            while i < rows.len()
                invariant
                    i <= rows@.len(),
                    row_views(rows@) == all,
                    names == texts(pollable@),
                    kept@ == only(all.take(i as int), names),
                decreases rows@.len() - i,
            {
                assert(all.take(i + 1).drop_last() == all.take(i as int));
                assert(all.take(i + 1).last() == row_view(rows@[i as int]));
                if any_text(pollable, rows[i].0.as_str()) {
                    kept.insert(rows[i].0.clone(), rows[i].1);
                }
                i = i + 1;
            }
            assert(all.take(rows@.len() as int) == all);
        }
        self.due = kept;
        let mut out: Vec<String> = Vec::new();
        let mut k: usize = 0;
        while k < pollable.len()
            invariant
                k <= pollable@.len(),
                names == texts(pollable@),
                texts(out@) == ripe(names.take(k as int), self@.due, now),
            decreases pollable@.len() - k,
        {
            assert(names.take(k + 1).drop_last() == names.take(k as int));
            assert(names.take(k + 1).last() == pollable@[k as int]@);
            let waits = match self.due.get(pollable[k].as_str()) {
                Some(at) => *at > now,
                None => false,
            };
            if !waits {
                let ghost before = out@;
                out.push(pollable[k].clone());
                assert(texts(out@) == texts(before).push(pollable@[k as int]@));
            }
            k = k + 1;
        }
        assert(names.take(pollable@.len() as int) == names);
        out
    }

    /// A mount was polled, and is worth asking again after so many seconds.
    pub fn polled(&mut self, name: &str, ended: u64, secs: u64)
        ensures
            final(self)@.sweep_due == old(self)@.sweep_due,
            final(self)@.due == with_row(old(self)@.due, name@, later(ended, secs * 1000)),
    {
        let ms: u64 = if secs <= u64::MAX / 1000 {
            secs * 1000
        } else {
            u64::MAX
        };
        self.due.insert(name.to_owned(), ended.saturating_add(ms));
    }

    /// How long until there is anything to do, in milliseconds.
    pub fn wait(&self, now: u64) -> (r: u64)
        ensures
            r == (if earliest(self@.sweep_due, self@.due) > now {
                (earliest(self@.sweep_due, self@.due) - now) as u64
            } else {
                0
            }),
    {
        let rows = self.due.rows();
        let ghost all = self@.due;
        let mut next: u64 = self.sweep_due;
        let mut i: usize = 0;
        while i < rows.len()
            invariant
                i <= rows@.len(),
                row_views(rows@) == all,
                next == earliest(self@.sweep_due, all.take(i as int)),
            decreases rows@.len() - i,
        {
            assert(all.take(i + 1).drop_last() == all.take(i as int));
            assert(all.take(i + 1).last() == row_view(rows@[i as int]));
            if rows[i].1 < next {
                next = rows[i].1;
            }
            i = i + 1;
        }
        assert(all.take(rows@.len() as int) == all);
        next.saturating_sub(now)
    }
}

/// Discovered mounts as they travel: with the remote of the configuration entry of their
/// name, if there is one.
pub open spec fn found_views(
    found: Seq<DiscoveredMount<Seq<char>>>,
    mounts: Seq<Mount<Seq<char>>>,
) -> Seq<MountView<Seq<char>>> {
    found.map_values(
        |d: DiscoveredMount<Seq<char>>|
            view_of_mount(
                d,
                match configured(mounts, d.name) {
                    Some(m) => Some(m.spec_text()),
                    None => None,
                },
            ),
    )
}

fn to_views(found: &Vec<DiscoveredMount>, mounts: &Vec<Mount>) -> (r: Vec<MountView>)
    ensures
        views(r@) == found_views(views(found@), views(mounts@)),
{
    let ghost want = found_views(views(found@), views(mounts@));
    let mut out: Vec<MountView> = Vec::new();
    let mut i: usize = 0;
    while i < found.len()
        invariant
            i <= found@.len(),
            want == found_views(views(found@), views(mounts@)),
            views(out@) == want.take(i as int),
        decreases found@.len() - i,
    {
        let remote = match mount_config(mounts, found[i].name.as_str()) {
            Ok(m) => Some(m.fs_spec()),
            Err(_) => None,
        };
        let v = mount_view(&found[i], remote);
        let ghost before = out@;
        assert(v@ == want[i as int]);
        out.push(v);
        assert(views(out@) == views(before).push(v@));
        assert(want.take(i + 1) == want.take(i as int).push(v@));
        i = i + 1;
    }
    assert(want.take(found@.len() as int) == want);
    out
}

/// Fold what a sweep found into the registry, and say what changed. A sweep that failed
/// changes nothing: one failed call is no evidence that every mount went away.
pub fn sweep(
    registry: &mut Registry,
    found: Result<Vec<DiscoveredMount>, SupervisorError>,
    mounts: &Vec<Mount>,
) -> (r: Vec<Change>)
    ensures
        match found {
            Ok(v) => {
                let s = swept(old(registry)@, found_views(views(v@), views(mounts@)));
                &&& views(r@) == s.changes
                &&& final(registry)@ == (RegistryModel {
                    mounts: s.seen,
                    transfers: s.transfers,
                    tier: old(registry)@.tier,
                })
                &&& in_order(final(registry)@.transfers)
            },
            Err(_) => r@.len() == 0 && final(registry)@ == old(registry)@,
        },
{
    match found {
        Ok(v) => registry.observe_mounts(to_views(&v, mounts)),
        Err(_) => Vec::new(),
    }
}

/// What taking in one poll's reading comes to.
pub open spec fn recorded(r: RegistryModel, p: PollerModel, state: TransferModel) -> (
    RegistryModel,
    Seq<ChangeModel>,
) {
    let tier = if p.caps.commands.len() > 0 {
        Some(best_tier(r.tier, p.caps.best()))
    } else {
        r.tier
    };
    let first = if tier != r.tier {
        seq![ChangeModel::CapabilityTier]
    } else {
        Seq::<ChangeModel>::empty()
    };
    let v = view_of_transfer(state);
    if row_at(r.transfers, v.mount) == Some(v) {
        (RegistryModel { tier, ..r }, first)
    } else {
        (
            RegistryModel { tier, transfers: with_row(r.transfers, v.mount, v), ..r },
            first.push(Change::Transfer(v)),
        )
    }
}

/// Take in one poll's reading, and say what changed. The tier counts only where rclone
/// answered what it offers: an unreachable one reads as the poorest tier too, and publishing
/// that would be a claim taken from a refusal.
pub fn record(registry: &mut Registry, poller: &MountPoller, state: &TransferState) -> (r: Vec<
    Change,
>)
    ensures
        (final(registry)@, views(r@)) == recorded(old(registry)@, poller@, state@),
        in_order(final(registry)@.transfers),
{
    let mut changes: Vec<Change> = Vec::new();
    assert(views(changes@) == Seq::<ChangeModel>::empty());
    if poller.rc_answered() {
        if let Some(c) = registry.note_tier(poller.tier()) {
            changes.push(c);
            assert(views(changes@) == seq![ChangeModel::CapabilityTier]);
        }
    }
    if let Some(c) = registry.observe_transfer(transfer_view(state)) {
        let ghost before = changes@;
        changes.push(c);
        assert(views(changes@) == views(before).push(c@));
    }
    changes
}

/// A mount is polled no earlier than its deadline, and as soon as it has none: a name is
/// chosen exactly where it is worth polling and not waiting.
pub proof fn a_mount_is_polled_when_its_time_has_come(
    names: Seq<Seq<char>>,
    due: Deadlines,
    now: u64,
    name: Seq<char>,
)
    ensures
        ripe(names, due, now).contains(name) <==> names.contains(name) && match row_at(due, name) {
            Some(at) => at <= now,
            None => true,
        },
    decreases names.len(),
{
    if names.len() > 0 {
        let before = names.drop_last();
        a_mount_is_polled_when_its_time_has_come(before, due, now, name);
        let all = ripe(names, due, now);
        let some = ripe(before, due, now);
        if names.contains(name) {
            let k = choose|k: int| 0 <= k < names.len() && names[k] == name;
            if k < before.len() {
                assert(before[k] == name);
            }
        }
        if before.contains(name) {
            let k = choose|k: int| 0 <= k < before.len() && before[k] == name;
            assert(names[k] == name);
        }
        if names.last() == name {
            assert(names[names.len() - 1] == name);
            if all.len() > some.len() {
                assert(all[all.len() - 1] == name);
            }
        }
        if some.contains(name) {
            let k = choose|k: int| 0 <= k < some.len() && some[k] == name;
            assert(all[k] == name);
        }
        if all.contains(name) {
            let k = choose|k: int| 0 <= k < all.len() && all[k] == name;
            if k < some.len() {
                assert(some[k] == name);
            }
        }
    }
}

/// Nothing that is due is slept past: the moment slept until is no later than the next sweep
/// and than every deadline.
pub proof fn nothing_is_slept_past(first: u64, due: Deadlines, k: int)
    ensures
        earliest(first, due) <= first,
        0 <= k < due.len() ==> earliest(first, due) <= due[k].1,
    decreases due.len(),
{
    if due.len() > 0 {
        nothing_is_slept_past(first, due.drop_last(), k);
        if 0 <= k < due.len() - 1 {
            assert(due.drop_last()[k] == due[k]);
        }
    }
}

} // verus!
