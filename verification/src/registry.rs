//! What the service believes about its mounts, and what a client has not been told yet.
//!
//! Everything a client asks for is answered from here rather than from a fresh sweep, so its
//! menu never waits on the kernel and on systemd.

use crate::ipc::{
    state_from_name, state_named, transfer_view, unknown_mount, view_of_transfer, IpcError,
    MountView, TransferView, TransferViewModel, no_mount_named,
};
use crate::supervisor::state::MountState;
use crate::table::{
    a_row_stands_somewhere, a_table_keeps_its_order_and_its_rows, in_order, row_at, row_view, row_views,
    the_rows_make_the_table, with_row, without_row, Table,
};
use crate::text::{same_text, texts, views};
use crate::transfer::{
    tier_name, unmonitored_state, Tier, TransferFile, TransferState,
};
use vstd::prelude::*;
use vstd::string::*;

verus! {

/// Something that has happened since a client was last told.
#[derive(Debug, Clone, PartialEq, Eq)]
pub enum Change<S = String, F = Vec<TransferFile>> {
    /// A mount appeared, or its state changed.
    Mount(MountView<S>),
    /// A row went away: a foreign mount was unmounted, or an orphan was stopped.
    Removed(S),
    /// A mount's outstanding work changed.
    Transfer(TransferView<S, F>),
    /// The best tier any mount has resolved changed. It has to be published, because a
    /// client that reads it once goes on with what it read.
    CapabilityTier,
}

/// A change by its view.
pub type ChangeModel = Change<Seq<char>, Seq<TransferFile<Seq<char>>>>;

impl View for Change {
    type V = ChangeModel;

    open spec fn view(&self) -> ChangeModel {
        match *self {
            Change::Mount(v) => Change::Mount(v@),
            Change::Removed(n) => Change::Removed(n@),
            Change::Transfer(v) => Change::Transfer(v@),
            Change::CapabilityTier => Change::CapabilityTier,
        }
    }
}

/// Rows of mounts by name.
pub type MountRows = Seq<(Seq<char>, MountView<Seq<char>>)>;

/// Rows of readings by mount name.
pub type TransferRows = Seq<(Seq<char>, TransferViewModel)>;

/// The mounts, and the last reading taken for each.
pub struct Registry {
    mounts: Table<MountView>,
    transfers: Table<TransferView>,
    /// The richest tier any mount has resolved, which is a property of the rclone binary
    /// all of them share.
    tier: Option<Tier>,
}

/// A registry by its view.
pub struct RegistryModel {
    pub mounts: MountRows,
    pub transfers: TransferRows,
    pub tier: Option<Tier>,
}

impl View for Registry {
    type V = RegistryModel;

    closed spec fn view(&self) -> RegistryModel {
        RegistryModel { mounts: self.mounts@, transfers: self.transfers@, tier: self.tier }
    }
}

/// Whether a mount has an rc socket of ours to ask. Being mounted is what it takes, not
/// being live and managed: an orphan is both, but nothing describes it any more.
pub open spec fn is_pollable(v: MountView<Seq<char>>) -> bool {
    v.state == "mounted"@
}

/// Why a mount has no reading.
pub open spec fn unpolled_reason(v: MountView<Seq<char>>) -> Seq<char> {
    match state_named(v.state, v.reason) {
        Some(MountState::Foreign) => "started outside this service, so its rc socket is unknown"@,
        Some(MountState::Orphaned) => "no configuration describes this mount any more"@,
        Some(MountState::Mounted) => "not polled yet"@,
        _ => "the mount is not serving"@,
    }
}

/// The reading of a mount there is nothing to read from.
pub open spec fn empty_reading(v: MountView<Seq<char>>) -> TransferViewModel {
    view_of_transfer(unmonitored_state(v.name, unpolled_reason(v)))
}

/// Why a mount has no reading, in words a client can show. Each is an ordinary state rather
/// than a failure.
pub fn why_not_polled(mount: &MountView) -> (r: String)
    ensures
        r@ == unpolled_reason(mount@),
{
    match state_from_name(mount.state.as_str(), &mount.reason) {
        Some(MountState::Foreign) => {
            "started outside this service, so its rc socket is unknown".to_owned()
        },
        Some(MountState::Orphaned) => "no configuration describes this mount any more".to_owned(),
        Some(MountState::Mounted) => "not polled yet".to_owned(),
        _ => "the mount is not serving".to_owned(),
    }
}

/// An empty reading, for a mount there is nothing to read from. Not a zero: a client cannot
/// take it for nothing left to upload.
pub fn nothing_to_say(mount: &MountView) -> (r: TransferView)
    ensures
        r@ == empty_reading(mount@),
{
    transfer_view(&TransferState::unmonitored(mount.name.as_str(), why_not_polled(mount)))
}

/// An empty reading for a configured mount no sweep has reached yet, which is not the same
/// as a mount that is down.
pub fn not_swept_yet(name: &str) -> (r: TransferView)
    ensures
        r@ == view_of_transfer(
            unmonitored_state(name@, "no sweep has reported on this mount yet"@),
        ),
{
    transfer_view(
        &TransferState::unmonitored(name, "no sweep has reported on this mount yet".to_owned()),
    )
}

/// Whether a mount has an rc socket of ours to ask.
pub fn pollable(view: &MountView) -> (r: bool)
    ensures
        r == is_pollable(view@),
{
    same_text(view.state.as_str(), "mounted")
}

/// What taking in found mounts one by one comes to: the readings kept, what changed, and
/// the mounts seen.
pub struct Intake {
    pub transfers: TransferRows,
    pub changes: Seq<ChangeModel>,
    pub seen: MountRows,
}

/// What taking in found mounts comes to, given the mounts known before.
pub open spec fn intake(
    found: Seq<MountView<Seq<char>>>,
    known: MountRows,
    transfers: TransferRows,
) -> Intake
    decreases found.len(),
{
    if found.len() == 0 {
        Intake { transfers, changes: Seq::empty(), seen: Seq::empty() }
    } else {
        let before = intake(found.drop_last(), known, transfers);
        let v = found.last();
        let emptied = if !is_pollable(v) && row_at(before.transfers, v.name) is Some {
            before.changes.push(Change::Transfer(empty_reading(v)))
        } else {
            before.changes
        };
        Intake {
            transfers: if is_pollable(v) {
                before.transfers
            } else {
                without_row(before.transfers, v.name)
            },
            changes: if row_at(known, v.name) != Some(v) {
                emptied.push(Change::Mount(v))
            } else {
                emptied
            },
            seen: with_row(before.seen, v.name, v),
        }
    }
}

/// What is left once the known mounts that were not seen are gone.
pub open spec fn departures(known: MountRows, i: Intake) -> Intake
    decreases known.len(),
{
    if known.len() == 0 {
        i
    } else {
        let before = departures(known.drop_last(), i);
        let name = known.last().0;
        if row_at(i.seen, name) is Some {
            before
        } else {
            Intake {
                transfers: without_row(before.transfers, name),
                changes: before.changes.push(Change::Removed(name)),
                seen: before.seen,
            }
        }
    }
}

/// What a sweep comes to.
pub open spec fn swept(r: RegistryModel, found: Seq<MountView<Seq<char>>>) -> Intake {
    departures(r.mounts, intake(found, r.mounts, r.transfers))
}

/// The pollable mounts among rows.
pub open spec fn pollable_names(rows: MountRows) -> Seq<Seq<char>>
    decreases rows.len(),
{
    if rows.len() == 0 {
        Seq::<Seq<char>>::empty()
    } else if is_pollable(rows.last().1) {
        pollable_names(rows.drop_last()).push(rows.last().1.name)
    } else {
        pollable_names(rows.drop_last())
    }
}

/// The richer of what was seen and a tier.
pub open spec fn best_tier(seen: Option<Tier>, tier: Tier) -> Tier {
    match seen {
        Some(t) => if tier.place() < t.place() {
            tier
        } else {
            t
        },
        None => tier,
    }
}

/// What a client is told of a mount's outstanding work.
pub open spec fn reading_of(r: RegistryModel, name: Seq<char>) -> Result<
    TransferViewModel,
    IpcError<Seq<char>>,
> {
    match row_at(r.transfers, name) {
        Some(t) => Ok(t),
        None => match row_at(r.mounts, name) {
            Some(m) => Ok(view_of_transfer(unmonitored_state(name, unpolled_reason(m)))),
            None => Err(IpcError::UnknownMount(no_mount_named(name))),
        },
    }
}

/// What a client that keeps the mounts makes of a run of changes.
pub open spec fn followed(mounts: MountRows, changes: Seq<ChangeModel>) -> MountRows
    decreases changes.len(),
{
    if changes.len() == 0 {
        mounts
    } else {
        let before = followed(mounts, changes.drop_last());
        match changes.last() {
            Change::Mount(v) => with_row(before, v.name, v),
            Change::Removed(n) => without_row(before, n),
            _ => before,
        }
    }
}

/// Whether no two mounts of a sweep share a name.
pub open spec fn distinct_names(found: Seq<MountView<Seq<char>>>) -> bool {
    forall|i: int, j: int|
        0 <= i < j < found.len() ==> #[trigger] found[i].name != #[trigger] found[j].name
}

proof fn lemma_distinct_prefix(found: Seq<MountView<Seq<char>>>)
    requires
        distinct_names(found),
        found.len() > 0,
    ensures
        distinct_names(found.drop_last()),
        forall|i: int|
            0 <= i < found.drop_last().len() ==> #[trigger] found.drop_last()[i].name
                != found.last().name,
{
    let f = found.drop_last();
    assert forall|i: int, j: int| 0 <= i < j < f.len() implies #[trigger] f[i].name
        != #[trigger] f[j].name by {
        assert(f[i] == found[i] && f[j] == found[j]);
    }
    assert forall|i: int| 0 <= i < f.len() implies #[trigger] f[i].name != found.last().name by {
        assert(f[i] == found[i]);
        assert(found[found.len() - 1] == found.last());
    }
}

/// The rows seen are those found, in order.
pub proof fn lemma_seen(
    found: Seq<MountView<Seq<char>>>,
    known: MountRows,
    transfers: TransferRows,
    name: Seq<char>,
)
    requires
        distinct_names(found),
    ensures
        in_order(intake(found, known, transfers).seen),
        forall|i: int|
            0 <= i < found.len() && #[trigger] found[i].name == name ==> row_at(
                intake(found, known, transfers).seen,
                name,
            ) == Some(found[i]),
        (forall|i: int| 0 <= i < found.len() ==> #[trigger] found[i].name != name) ==> row_at(
            intake(found, known, transfers).seen,
            name,
        ) is None,
    decreases found.len(),
{
    if found.len() > 0 {
        lemma_distinct_prefix(found);
        let f = found.drop_last();
        let v = found.last();
        lemma_seen(f, known, transfers, name);
        a_table_keeps_its_order_and_its_rows(
            intake(f, known, transfers).seen,
            v.name,
            v,
            name,
        );
        let seen = intake(found, known, transfers).seen;
        assert forall|i: int| 0 <= i < found.len() && #[trigger] found[i].name
            == name implies row_at(seen, name) == Some(found[i]) by {
            if i < f.len() {
                assert(f[i] == found[i]);
                assert(found[found.len() - 1] == v);
            }
        }
        if forall|i: int| 0 <= i < found.len() ==> #[trigger] found[i].name != name {
            assert forall|i: int| 0 <= i < f.len() implies #[trigger] f[i].name != name by {
                assert(f[i] == found[i]);
            }
            assert(found[found.len() - 1].name != name);
        }
    }
}

proof fn lemma_intake_followed(
    found: Seq<MountView<Seq<char>>>,
    known: MountRows,
    transfers: TransferRows,
    name: Seq<char>,
)
    requires
        distinct_names(found),
        in_order(known),
    ensures
        in_order(followed(known, intake(found, known, transfers).changes)),
        row_at(followed(known, intake(found, known, transfers).changes), name) == match row_at(
            intake(found, known, transfers).seen,
            name,
        ) {
            Some(v) => Some(v),
            None => row_at(known, name),
        },
    decreases found.len(),
{
    if found.len() > 0 {
        lemma_distinct_prefix(found);
        let f = found.drop_last();
        let v = found.last();
        lemma_intake_followed(f, known, transfers, name);
        lemma_intake_followed(f, known, transfers, v.name);
        lemma_seen(f, known, transfers, name);
        lemma_seen(f, known, transfers, v.name);
        let before = intake(f, known, transfers);
        let now = intake(found, known, transfers);
        a_table_keeps_its_order_and_its_rows(before.seen, v.name, v, name);
        let emptied = if !is_pollable(v) && row_at(before.transfers, v.name) is Some {
            before.changes.push(Change::Transfer(empty_reading(v)))
        } else {
            before.changes
        };
        if !is_pollable(v) && row_at(before.transfers, v.name) is Some {
            assert(emptied.drop_last() == before.changes);
        }
        assert(followed(known, emptied) == followed(known, before.changes));
        if row_at(known, v.name) != Some(v) {
            assert(now.changes.drop_last() == emptied);
            a_table_keeps_its_order_and_its_rows(followed(known, emptied), v.name, v, name);
        }
    }
}

proof fn lemma_departures_followed(
    start: MountRows,
    known: MountRows,
    i: Intake,
    name: Seq<char>,
)
    requires
        in_order(followed(start, i.changes)),
    ensures
        in_order(followed(start, departures(known, i).changes)),
        departures(known, i).seen == i.seen,
        row_at(followed(start, departures(known, i).changes), name) == if row_at(i.seen, name)
            is None && exists|k: int| 0 <= k < known.len() && #[trigger] known[k].0 == name {
            None
        } else {
            row_at(followed(start, i.changes), name)
        },
    decreases known.len(),
{
    if known.len() > 0 {
        let k = known.drop_last();
        let last = known.last().0;
        lemma_departures_followed(start, k, i, name);
        let before = departures(k, i);
        let now = departures(known, i);
        assert forall|j: int| 0 <= j < k.len() && #[trigger] k[j].0 == name implies exists|m: int|
            0 <= m < known.len() && #[trigger] known[m].0 == name by {
            assert(known[j].0 == name);
        }
        if exists|m: int| 0 <= m < known.len() && #[trigger] known[m].0 == name {
            let m = choose|m: int| 0 <= m < known.len() && #[trigger] known[m].0 == name;
            if m < k.len() {
                assert(k[m].0 == name);
            }
        }
        if last == name {
            assert(known[known.len() - 1].0 == name);
        }
        if row_at(i.seen, last) is None {
            assert(now.changes.drop_last() == before.changes);
            a_table_keeps_its_order_and_its_rows_without(
                followed(start, before.changes),
                last,
                name,
            );
        }
    }
}

proof fn a_table_keeps_its_order_and_its_rows_without(
    s: MountRows,
    name: Seq<char>,
    other: Seq<char>,
)
    requires
        in_order(s),
    ensures
        in_order(without_row(s, name)),
        row_at(without_row(s, name), other) == if other == name {
            None
        } else {
            row_at(s, other)
        },
{
    let v: MountView<Seq<char>> = arbitrary();
    a_table_keeps_its_order_and_its_rows(s, name, v, other);
}

/// A client that follows the changes sees the mounts: whatever was known and whatever a
/// sweep finds, the changes it reports take the mounts known before to the mounts known
/// after.
pub proof fn a_client_that_follows_the_changes_sees_the_mounts(
    r: RegistryModel,
    found: Seq<MountView<Seq<char>>>,
)
    requires
        in_order(r.mounts),
        distinct_names(found),
    ensures
        followed(r.mounts, swept(r, found).changes) == swept(r, found).seen,
{
    let i = intake(found, r.mounts, r.transfers);
    let after = followed(r.mounts, swept(r, found).changes);
    lemma_intake_followed(found, r.mounts, r.transfers, Seq::empty());
    lemma_seen(found, r.mounts, r.transfers, Seq::empty());
    assert forall|n: Seq<char>| #[trigger] row_at(after, n) == row_at(i.seen, n) by {
        lemma_intake_followed(found, r.mounts, r.transfers, n);
        lemma_departures_followed(r.mounts, r.mounts, i, n);
        a_row_stands_somewhere(r.mounts, n);
    }
    lemma_departures_followed(r.mounts, r.mounts, i, Seq::empty());
    the_rows_make_the_table(after, i.seen);
}

proof fn lemma_intake_readings(
    found: Seq<MountView<Seq<char>>>,
    known: MountRows,
    transfers: TransferRows,
    name: Seq<char>,
)
    requires
        in_order(transfers),
    ensures
        in_order(intake(found, known, transfers).transfers),
        row_at(intake(found, known, transfers).transfers, name) == if exists|i: int|
            0 <= i < found.len() && (#[trigger] found[i]).name == name && !is_pollable(found[i]) {
            None
        } else {
            row_at(transfers, name)
        },
    decreases found.len(),
{
    if found.len() > 0 {
        let f = found.drop_last();
        let v = found.last();
        lemma_intake_readings(f, known, transfers, name);
        let before = intake(f, known, transfers);
        let t: TransferViewModel = arbitrary();
        a_table_keeps_its_order_and_its_rows(before.transfers, v.name, t, name);
        let hit = exists|i: int|
            0 <= i < f.len() && (#[trigger] f[i]).name == name && !is_pollable(f[i]);
        if hit {
            let i = choose|i: int|
                0 <= i < f.len() && (#[trigger] f[i]).name == name && !is_pollable(f[i]);
            assert(found[i] == f[i]);
        }
        if v.name == name && !is_pollable(v) {
            assert(found[found.len() - 1] == v);
        }
        if exists|i: int|
            0 <= i < found.len() && (#[trigger] found[i]).name == name && !is_pollable(found[i]) {
            let i = choose|i: int|
                0 <= i < found.len() && (#[trigger] found[i]).name == name && !is_pollable(
                    found[i],
                );
            if i < f.len() {
                assert(f[i] == found[i]);
            }
        }
    }
}

pub proof fn lemma_departures_readings(known: MountRows, i: Intake, name: Seq<char>)
    requires
        in_order(i.transfers),
    ensures
        in_order(departures(known, i).transfers),
        departures(known, i).seen == i.seen,
        row_at(departures(known, i).transfers, name) == if row_at(i.seen, name) is None
            && exists|k: int| 0 <= k < known.len() && #[trigger] known[k].0 == name {
            None
        } else {
            row_at(i.transfers, name)
        },
    decreases known.len(),
{
    if known.len() > 0 {
        let k = known.drop_last();
        let last = known.last().0;
        lemma_departures_readings(k, i, name);
        let before = departures(k, i);
        let t: TransferViewModel = arbitrary();
        a_table_keeps_its_order_and_its_rows(before.transfers, last, t, name);
        if exists|m: int| 0 <= m < k.len() && #[trigger] k[m].0 == name {
            let m = choose|m: int| 0 <= m < k.len() && #[trigger] k[m].0 == name;
            assert(known[m].0 == name);
        }
        if exists|m: int| 0 <= m < known.len() && #[trigger] known[m].0 == name {
            let m = choose|m: int| 0 <= m < known.len() && #[trigger] known[m].0 == name;
            if m < k.len() {
                assert(k[m].0 == name);
            }
        }
        if last == name {
            assert(known[known.len() - 1].0 == name);
        }
    }
}

/// A reading does not outlive the mount it describes: after a sweep there is none for a
/// mount that it found not serving, nor for one that was known and that it did not find. A
/// mount that it found serving keeps the reading it had, and so does a name that was neither
/// known nor found.
pub proof fn a_reading_does_not_outlive_its_mount(
    r: RegistryModel,
    found: Seq<MountView<Seq<char>>>,
    name: Seq<char>,
)
    requires
        in_order(r.transfers),
    ensures
        (exists|i: int|
            0 <= i < found.len() && (#[trigger] found[i]).name == name && !is_pollable(found[i]))
            ==> row_at(swept(r, found).transfers, name) is None,
        row_at(r.mounts, name) is Some && row_at(swept(r, found).seen, name) is None ==> row_at(
            swept(r, found).transfers,
            name,
        ) is None,
        distinct_names(found) && (exists|i: int|
            0 <= i < found.len() && (#[trigger] found[i]).name == name && is_pollable(found[i]))
            ==> row_at(swept(r, found).transfers, name) == row_at(r.transfers, name),
        (forall|i: int| 0 <= i < found.len() ==> (#[trigger] found[i]).name != name) && (forall|
            k: int,
        |
            0 <= k < r.mounts.len() ==> (#[trigger] r.mounts[k]).0 != name) ==> row_at(
            swept(r, found).transfers,
            name,
        ) == row_at(r.transfers, name),
        row_at(swept(r, found).transfers, name) is Some ==> row_at(swept(r, found).transfers, name)
            == row_at(r.transfers, name),
{
    lemma_intake_readings(found, r.mounts, r.transfers, name);
    lemma_departures_readings(r.mounts, intake(found, r.mounts, r.transfers), name);
    a_row_stands_somewhere(r.mounts, name);
    if distinct_names(found) && exists|i: int|
        0 <= i < found.len() && (#[trigger] found[i]).name == name && is_pollable(found[i]) {
        let i = choose|i: int|
            0 <= i < found.len() && (#[trigger] found[i]).name == name && is_pollable(found[i]);
        lemma_seen(found, r.mounts, r.transfers, name);
        assert forall|j: int| 0 <= j < found.len() && (#[trigger] found[j]).name == name implies j
            == i by {
            assert(j < i ==> found[j].name != found[i].name);
            assert(i < j ==> found[i].name != found[j].name);
        }
    }
}

/// What was published stays published.
proof fn lemma_still_published(changes: Seq<ChangeModel>, more: ChangeModel, c: ChangeModel)
    ensures
        changes.contains(c) ==> changes.push(more).contains(c),
        changes.push(more).contains(more),
{
    assert(changes.push(more)[changes.len() as int] == more);
    if changes.contains(c) {
        let k = choose|k: int| 0 <= k < changes.len() && changes[k] == c;
        assert(changes.push(more)[k] == c);
    }
}

proof fn lemma_intake_publishes(
    found: Seq<MountView<Seq<char>>>,
    known: MountRows,
    transfers: TransferRows,
    name: Seq<char>,
)
    requires
        in_order(transfers),
        row_at(transfers, name) is Some,
        row_at(intake(found, known, transfers).transfers, name) is None,
    ensures
        exists|i: int|
            0 <= i < found.len() && (#[trigger] found[i]).name == name && intake(
                found,
                known,
                transfers,
            ).changes.contains(Change::Transfer(empty_reading(found[i]))),
    decreases found.len(),
{
    let f = found.drop_last();
    let v = found.last();
    let before = intake(f, known, transfers);
    let t: TransferViewModel = arbitrary();
    lemma_intake_readings(f, known, transfers, name);
    a_table_keeps_its_order_and_its_rows(before.transfers, v.name, t, name);
    let emptied = before.changes.push(Change::Transfer(empty_reading(v)));
    if row_at(before.transfers, name) is None {
        lemma_intake_publishes(f, known, transfers, name);
        let i = choose|i: int|
            0 <= i < f.len() && (#[trigger] f[i]).name == name && before.changes.contains(
                Change::Transfer(empty_reading(f[i])),
            );
        let c: ChangeModel = Change::Transfer(empty_reading(f[i]));
        assert(found[i] == f[i]);
        lemma_still_published(before.changes, Change::Transfer(empty_reading(v)), c);
        lemma_still_published(before.changes, Change::Mount(v), c);
        lemma_still_published(emptied, Change::Mount(v), c);
    } else {
        let c: ChangeModel = Change::Transfer(empty_reading(v));
        assert(found[found.len() - 1] == v);
        lemma_still_published(before.changes, c, c);
        lemma_still_published(emptied, Change::Mount(v), c);
    }
}

proof fn lemma_departures_publish(known: MountRows, i: Intake, name: Seq<char>, c: ChangeModel)
    requires
        in_order(i.transfers),
    ensures
        i.changes.contains(c) ==> departures(known, i).changes.contains(c),
        row_at(i.transfers, name) is Some && row_at(departures(known, i).transfers, name) is None
            ==> departures(known, i).changes.contains(Change::Removed(name)),
    decreases known.len(),
{
    if known.len() > 0 {
        let k = known.drop_last();
        let gone = known.last().0;
        let t: TransferViewModel = arbitrary();
        lemma_departures_publish(k, i, name, c);
        lemma_departures_readings(k, i, name);
        a_table_keeps_its_order_and_its_rows(departures(k, i).transfers, gone, t, name);
        lemma_still_published(departures(k, i).changes, Change::Removed(gone), c);
        lemma_still_published(
            departures(k, i).changes,
            Change::Removed(gone),
            Change::Removed(name),
        );
    }
}

/// Dropping a reading is published rather than done quietly: a client that had it is told
/// either that the mount is gone, or of an empty reading in its place.
pub proof fn a_dropped_reading_is_published(
    r: RegistryModel,
    found: Seq<MountView<Seq<char>>>,
    name: Seq<char>,
)
    requires
        in_order(r.transfers),
        row_at(r.transfers, name) is Some,
        row_at(swept(r, found).transfers, name) is None,
    ensures
        swept(r, found).changes.contains(Change::Removed(name)) || exists|i: int|
            0 <= i < found.len() && (#[trigger] found[i]).name == name && swept(
                r,
                found,
            ).changes.contains(Change::Transfer(empty_reading(found[i]))),
{
    let i = intake(found, r.mounts, r.transfers);
    lemma_intake_readings(found, r.mounts, r.transfers, name);
    if row_at(i.transfers, name) is None {
        lemma_intake_publishes(found, r.mounts, r.transfers, name);
        let k = choose|k: int|
            0 <= k < found.len() && (#[trigger] found[k]).name == name && i.changes.contains(
                Change::Transfer(empty_reading(found[k])),
            );
        lemma_departures_publish(
            r.mounts,
            i,
            name,
            Change::Transfer(empty_reading(found[k])),
        );
    } else {
        lemma_departures_publish(r.mounts, i, name, Change::CapabilityTier);
    }
}

proof fn lemma_quiet_intake(
    found: Seq<MountView<Seq<char>>>,
    known: MountRows,
    transfers: TransferRows,
)
    requires
        forall|i: int|
            0 <= i < found.len() ==> row_at(known, (#[trigger] found[i]).name) == Some(found[i]),
        forall|i: int|
            0 <= i < found.len() && !is_pollable(#[trigger] found[i]) ==> row_at(
                transfers,
                found[i].name,
            ) is None,
    ensures
        intake(found, known, transfers).changes.len() == 0,
        intake(found, known, transfers).transfers == transfers,
    decreases found.len(),
{
    if found.len() > 0 {
        let f = found.drop_last();
        assert forall|i: int| 0 <= i < f.len() implies row_at(known, (#[trigger] f[i]).name)
            == Some(f[i]) by {
            assert(f[i] == found[i]);
        }
        assert forall|i: int| 0 <= i < f.len() && !is_pollable(#[trigger] f[i]) implies row_at(
            transfers,
            f[i].name,
        ) is None by {
            assert(f[i] == found[i]);
        }
        lemma_quiet_intake(f, known, transfers);
        let v = found.last();
        assert(found[found.len() - 1] == v);
        if !is_pollable(v) {
            lemma_without_absent(transfers, v.name);
        }
    }
}

proof fn lemma_without_absent<V>(s: Seq<(Seq<char>, V)>, name: Seq<char>)
    requires
        row_at(s, name) is None,
    ensures
        without_row(s, name) == s,
    decreases s.len(),
{
    if s.len() > 0 {
        lemma_without_absent(s.drop_first(), name);
        assert(seq![s[0]] + s.drop_first() == s);
    }
}

proof fn lemma_nothing_departs(known: MountRows, i: Intake)
    requires
        forall|k: int| 0 <= k < known.len() ==> row_at(i.seen, (#[trigger] known[k]).0) is Some,
    ensures
        departures(known, i) == i,
    decreases known.len(),
{
    if known.len() > 0 {
        let k = known.drop_last();
        assert forall|m: int| 0 <= m < k.len() implies row_at(i.seen, (#[trigger] k[m]).0)
            is Some by {
            assert(k[m] == known[m]);
        }
        lemma_nothing_departs(k, i);
        assert(known[known.len() - 1] == known.last());
    }
}

proof fn lemma_seen_is_found(
    found: Seq<MountView<Seq<char>>>,
    a: MountRows,
    b: MountRows,
    t: TransferRows,
    u: TransferRows,
)
    ensures
        intake(found, a, t).seen == intake(found, b, u).seen,
    decreases found.len(),
{
    if found.len() > 0 {
        lemma_seen_is_found(found.drop_last(), a, b, t, u);
    }
}

/// A sweep that finds what the last one found says nothing, and changes nothing.
pub proof fn an_unchanged_sweep_says_nothing(r: RegistryModel, found: Seq<MountView<Seq<char>>>)
    requires
        in_order(r.transfers),
        distinct_names(found),
    ensures
        ({
            let first = swept(r, found);
            let again = swept(
                RegistryModel { mounts: first.seen, transfers: first.transfers, tier: r.tier },
                found,
            );
            &&& again.changes.len() == 0
            &&& again.seen == first.seen
            &&& again.transfers == first.transfers
        }),
{
    let i = intake(found, r.mounts, r.transfers);
    let first = swept(r, found);
    lemma_intake_readings(found, r.mounts, r.transfers, Seq::empty());
    lemma_departures_readings(r.mounts, i, Seq::empty());
    assert forall|k: int| 0 <= k < found.len() implies row_at(
        first.seen,
        (#[trigger] found[k]).name,
    ) == Some(found[k]) by {
        lemma_seen(found, r.mounts, r.transfers, found[k].name);
    }
    assert forall|k: int| 0 <= k < found.len() && !is_pollable(#[trigger] found[k]) implies row_at(
        first.transfers,
        found[k].name,
    ) is None by {
        a_reading_does_not_outlive_its_mount(r, found, found[k].name);
    }
    lemma_quiet_intake(found, first.seen, first.transfers);
    lemma_seen_is_found(found, first.seen, r.mounts, first.transfers, r.transfers);
    let j = intake(found, first.seen, first.transfers);
    assert forall|k: int| 0 <= k < first.seen.len() implies row_at(
        j.seen,
        (#[trigger] first.seen[k]).0,
    ) is Some by {
        a_row_stands_somewhere(first.seen, first.seen[k].0);
    }
    lemma_nothing_departs(first.seen, j);
}

/// The tier known is the richest that was ever noted: it never gets poorer, and it is
/// published exactly when it changes.
pub proof fn the_tier_only_gets_richer(seen: Option<Tier>, tier: Tier)
    ensures
        best_tier(seen, tier).place() <= tier.place(),
        seen matches Some(t) ==> best_tier(seen, tier).place() <= t.place(),
        best_tier(Some(best_tier(seen, tier)), tier) == best_tier(seen, tier),
{
}

impl Default for Registry {
    fn default() -> (r: Registry)
        ensures
            r@.mounts.len() == 0,
            r@.transfers.len() == 0,
            r@.tier is None,
    {
        Registry { mounts: Table::new(), transfers: Table::new(), tier: None }
    }
}

impl Registry {
    fn take_in(&mut self, found: Vec<MountView>) -> (r: (Vec<Change>, Table<MountView>))
        ensures
            final(self)@.mounts == old(self)@.mounts,
            final(self)@.tier == old(self)@.tier,
            ({
                let i = intake(views(found@), old(self)@.mounts, old(self)@.transfers);
                &&& final(self)@.transfers == i.transfers
                &&& views(r.0@) == i.changes
                &&& r.1@ == i.seen
            }),
    {
        let ghost all = views(found@);
        let ghost known = self@.mounts;
        let ghost first = self@.transfers;
        let mut changes: Vec<Change> = Vec::new();
        let mut seen: Table<MountView> = Table::new();
        let mut i: usize = 0;
        while i < found.len()
            invariant
                i <= found@.len(),
                all == views(found@),
                self@.mounts == known,
                self@.tier == old(self)@.tier,
                ({
                    let t = intake(all.take(i as int), known, first);
                    &&& self@.transfers == t.transfers
                    &&& views(changes@) == t.changes
                    &&& seen@ == t.seen
                }),
            decreases found@.len() - i,
        {
            assert(all.take(i + 1).drop_last() == all.take(i as int));
            assert(all.take(i + 1).last() == found@[i as int]@);
            let view = found[i].copy();
            let changed = match self.mounts.get(view.name.as_str()) {
                Some(m) => !m.same(&view),
                None => true,
            };
            if !pollable(&view) {
                if self.transfers.remove(view.name.as_str()) {
                    let c = Change::Transfer(nothing_to_say(&view));
                    let ghost before = changes@;
                    changes.push(c);
                    assert(views(changes@) == views(before).push(c@));
                }
            }
            if changed {
                let c = Change::Mount(view.copy());
                let ghost before = changes@;
                changes.push(c);
                assert(views(changes@) == views(before).push(c@));
            }
            seen.insert(view.name.clone(), view);
            i = i + 1;
        }
        assert(all.take(found@.len() as int) == all);
        (changes, seen)
    }

    /// Take in a whole sweep, and report what changed.
    ///
    /// The sweep is the entire truth about which mounts exist, so a name missing from it is
    /// a removal. A reading of a mount that is no longer serving is dropped with it, and
    /// that is published: a client keeps a model from these changes, so a reading it is
    /// never told to forget is one it goes on showing.
    pub fn observe_mounts(&mut self, found: Vec<MountView>) -> (r: Vec<Change>)
        ensures
            ({
                let s = swept(old(self)@, views(found@));
                &&& views(r@) == s.changes
                &&& final(self)@.mounts == s.seen
                &&& final(self)@.transfers == s.transfers
            }),
            final(self)@.tier == old(self)@.tier,
            in_order(final(self)@.mounts),
            in_order(final(self)@.transfers),
    {
        let ghost start = self@;
        let ghost inn = intake(views(found@), start.mounts, start.transfers);
        let (taken, seen) = self.take_in(found);
        let mut changes = taken;
        let ghost known = start.mounts;
        let mut i: usize = 0;
        let n: usize = self.mounts.len();
        while i < n
            invariant
                i <= n,
                n == known.len(),
                self@.mounts == known,
                self@.tier == start.tier,
                seen@ == inn.seen,
                ({
                    let d = departures(known.take(i as int), inn);
                    &&& self@.transfers == d.transfers
                    &&& views(changes@) == d.changes
                    &&& d.seen == inn.seen
                }),
            decreases n - i,
        {
            assert(known.take(i + 1).drop_last() == known.take(i as int));
            assert(known.take(i + 1).last() == known[i as int]);
            let name = {
                let rows = self.mounts.rows();
                assert(row_views(rows@)[i as int] == row_view(rows@[i as int]));
                rows[i].0.clone()
            };
            if seen.get(name.as_str()).is_none() {
                self.transfers.remove(name.as_str());
                let c = Change::Removed(name);
                let ghost before = changes@;
                changes.push(c);
                assert(views(changes@) == views(before).push(c@));
            }
            i = i + 1;
        }
        assert(known.take(n as int) == known);
        self.mounts = seen;
        proof {
            use_type_invariant(&self.mounts);
            use_type_invariant(&self.transfers);
        }
        changes
    }

    /// Record a fresh reading for one mount, reporting whether it said anything new.
    pub fn observe_transfer(&mut self, view: TransferView) -> (r: Option<Change>)
        ensures
            final(self)@.mounts == old(self)@.mounts,
            final(self)@.tier == old(self)@.tier,
            match r {
                None => row_at(old(self)@.transfers, view@.mount) == Some(view@)
                    && final(self)@.transfers == old(self)@.transfers,
                Some(c) => row_at(old(self)@.transfers, view@.mount) != Some(view@) && c@
                    == Change::<Seq<char>, Seq<TransferFile<Seq<char>>>>::Transfer(view@)
                    && final(self)@.transfers == with_row(
                    old(self)@.transfers,
                    view@.mount,
                    view@,
                ),
            },
            in_order(final(self)@.mounts),
            in_order(final(self)@.transfers),
    {
        proof {
            use_type_invariant(&self.mounts);
            use_type_invariant(&self.transfers);
        }
        let known = match self.transfers.get(view.mount.as_str()) {
            Some(t) => t.same(&view),
            None => false,
        };
        if known {
            return None;
        }
        self.transfers.insert(view.mount.clone(), view.copy());
        proof {
            use_type_invariant(&self.transfers);
        }
        Some(Change::Transfer(view))
    }

    /// Every mount, in name order.
    pub fn mounts(&self) -> (r: Vec<MountView>)
        ensures
            views(r@) == self@.mounts.map_values(|row: (Seq<char>, MountView<Seq<char>>)| row.1),
            in_order(self@.mounts),
    {
        let rows = self.mounts.rows();
        let ghost want = self@.mounts.map_values(|row: (Seq<char>, MountView<Seq<char>>)| row.1);
        let mut out: Vec<MountView> = Vec::new();
        let mut i: usize = 0;
        while i < rows.len()
            invariant
                i <= rows@.len(),
                row_views(rows@) == self@.mounts,
                want == self@.mounts.map_values(
                    |row: (Seq<char>, MountView<Seq<char>>)| row.1,
                ),
                views(out@) == want.take(i as int),
            decreases rows@.len() - i,
        {
            let m = rows[i].1.copy();
            let ghost before = out@;
            assert(row_views(rows@)[i as int] == row_view(rows@[i as int]));
            assert(m@ == want[i as int]);
            out.push(m);
            assert(views(out@) == views(before).push(m@));
            assert(want.take(i + 1) == want.take(i as int).push(m@));
            i = i + 1;
        }
        assert(want.take(rows@.len() as int) == want);
        out
    }

    /// One mount by name.
    pub fn mount(&self, name: &str) -> (r: Option<&MountView>)
        ensures
            match r {
                Some(m) => row_at(self@.mounts, name@) == Some(m@),
                None => row_at(self@.mounts, name@) is None,
            },
    {
        self.mounts.get(name)
    }

    /// Record what a mount's rc connection turned out to support, reporting whether that
    /// changed the answer. The richest is kept.
    pub fn note_tier(&mut self, tier: Tier) -> (r: Option<Change>)
        ensures
            final(self)@.mounts == old(self)@.mounts,
            final(self)@.transfers == old(self)@.transfers,
            final(self)@.tier == Some(best_tier(old(self)@.tier, tier)),
            match r {
                None => final(self)@.tier == old(self)@.tier,
                Some(c) => final(self)@.tier != old(self)@.tier && c@ is CapabilityTier,
            },
    {
        let best = match self.tier {
            Some(seen) => seen.richer(tier),
            None => tier,
        };
        let same = match self.tier {
            Some(seen) => seen == best,
            None => false,
        };
        if same {
            return None;
        }
        self.tier = Some(best);
        Some(Change::CapabilityTier)
    }

    /// The richest tier any mount has resolved, or `None` before one has.
    pub fn tier(&self) -> (r: Option<Tier>)
        ensures
            r == self@.tier,
    {
        self.tier
    }

    /// The last reading for a mount, if one has been taken since it came up.
    pub fn transfer(&self, name: &str) -> (r: Option<&TransferView>)
        ensures
            match r {
                Some(t) => row_at(self@.transfers, name@) == Some(t@),
                None => row_at(self@.transfers, name@) is None,
            },
            in_order(self@.transfers),
    {
        proof {
            use_type_invariant(&self.transfers);
        }
        self.transfers.get(name)
    }

    /// The mounts worth polling: serving, and started by us.
    pub fn pollable(&self) -> (r: Vec<String>)
        ensures
            texts(r@) == pollable_names(self@.mounts),
    {
        let rows = self.mounts.rows();
        let ghost all = self@.mounts;
        let mut out: Vec<String> = Vec::new();
        let mut i: usize = 0;
        while i < rows.len()
            invariant
                i <= rows@.len(),
                row_views(rows@) == all,
                texts(out@) == pollable_names(all.take(i as int)),
            decreases rows@.len() - i,
        {
            assert(all.take(i + 1).drop_last() == all.take(i as int));
            assert(all.take(i + 1).last() == row_view(rows@[i as int]));
            if pollable(&rows[i].1) {
                let ghost before = out@;
                out.push(rows[i].1.name.clone());
                assert(texts(out@) == texts(before).push(rows@[i as int].1.name@));
            }
            i = i + 1;
        }
        assert(all.take(rows@.len() as int) == all);
        out
    }

    /// What a client is told of a mount's outstanding work. One that was never read says so
    /// rather than reporting nothing outstanding.
    pub fn get_transfer_state(&self, name: &str) -> (r: Result<TransferView, IpcError>)
        ensures
            match r {
                Ok(t) => reading_of(self@, name@) == Ok::<_, IpcError<Seq<char>>>(t@),
                Err(e) => reading_of(self@, name@) == Err::<TransferViewModel, _>(e@),
            },
    {
        if let Some(view) = self.transfers.get(name) {
            return Ok(view.copy());
        }
        match self.mounts.get(name) {
            Some(mount) => Ok(
                transfer_view(&TransferState::unmonitored(name, why_not_polled(mount))),
            ),
            None => Err(unknown_mount(name)),
        }
    }

    /// The name of the richest tier, for a client to read.
    pub fn capability_tier(&self) -> (r: String)
        ensures
            r@ == match self@.tier {
                Some(t) => t.named(),
                None => "unknown"@,
            },
    {
        match self.tier {
            Some(t) => tier_name(t),
            None => "unknown".to_owned(),
        }
    }
}

} // verus!
