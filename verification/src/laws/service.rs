//! What the service keeps of its mounts, when it looks at them, what it tells its clients, and
//! what it starts its units with.

use crate::config::Mount;
use crate::errors::{BusFailure, SupervisorError};
use crate::ipc::{
    a_reading_arrives_as_it_was_sent, a_state_is_found_under_its_name, no_mount_named, refusal,
    state_named, transfer_of_view, view_of_transfer, MountView,
};
use crate::poller::PollerModel;
use crate::registry::{
    best_tier, distinct_names, intake, lemma_departures_readings, lemma_seen, pollable_names,
    reading_of, swept, unpolled_reason, Change, ChangeModel, MountRows, RegistryModel,
};
use crate::supervisor::state::{DiscoveredMount, MountState};
use crate::supervisor::targets::configured;
use crate::supervisor::waiting::UNIT_GONE_TIMEOUT_MS;
use crate::systemd::{
    lookup_result, says_no_such_unit, says_not_loaded, status_named, stop_result,
    transient_properties, ExecCommand, Property, PropertyValue, UnitSpec, UnitStatus,
};
use crate::table::{a_table_keeps_its_order_and_its_rows, in_order, row_at};
use crate::text::{begins_with, finishes_with, occurs_at, occurs_in};
use crate::transfer::{Tier, TransferModel};
use crate::watch::{earliest, found_views, later, only, recorded, Deadlines};
use vstd::prelude::*;

verus! {

/// The last of some rows in order stands under its own name, and the others under theirs.
proof fn lemma_last_row<V>(s: Seq<(Seq<char>, V)>, name: Seq<char>)
    requires
        in_order(s),
        s.len() > 0,
    ensures
        in_order(s.drop_last()),
        row_at(s, name) == if s.last().0 == name {
            Some(s.last().1)
        } else {
            row_at(s.drop_last(), name)
        },
    decreases s.len(),
{
    let before = s.drop_last();
    assert forall|i: int, j: int| 0 <= i < j < before.len() implies crate::text::sorts_before(
        #[trigger] before[i].0,
        #[trigger] before[j].0,
    ) by {
        assert(before[i] == s[i] && before[j] == s[j]);
    }
    if s.len() > 1 {
        let rest = s.drop_first();
        assert forall|i: int, j: int| 0 <= i < j < rest.len() implies crate::text::sorts_before(
            #[trigger] rest[i].0,
            #[trigger] rest[j].0,
        ) by {
            assert(rest[i] == s[i + 1] && rest[j] == s[j + 1]);
        }
        lemma_last_row(rest, name);
        assert(rest.last() == s.last());
        assert(rest.drop_last() == before.drop_first());
        assert(crate::text::sorts_before(s[0].0, s[s.len() - 1].0));
        crate::table::the_order_of_texts_is_strict(s[0].0, s.last().0, s[0].0);
        assert(before[0] == s[0]);
    } else {
        assert(s.drop_first().len() == 0);
    }
}

/// Deadlines are kept for what is polled, as they were, and for nothing else.
pub proof fn a_deadline_is_kept_only_by_what_is_polled(
    due: Deadlines,
    names: Seq<Seq<char>>,
    name: Seq<char>,
)
    requires
        in_order(due),
    ensures
        in_order(only(due, names)),
        names.contains(name) ==> row_at(only(due, names), name) == row_at(due, name),
        !names.contains(name) ==> row_at(only(due, names), name) is None,
    decreases due.len(),
{
    if due.len() > 0 {
        lemma_last_row(due, name);
        let rest = due.drop_last();
        a_deadline_is_kept_only_by_what_is_polled(rest, names, name);
        a_table_keeps_its_order_and_its_rows(
            only(rest, names),
            due.last().0,
            due.last().1,
            name,
        );
    }
}

/// The moment slept until is that of the next sweep or a deadline: nothing is woken up for
/// without cause.
pub proof fn the_moment_slept_until_has_a_cause(first: u64, due: Deadlines)
    ensures
        earliest(first, due) == first || exists|k: int|
            0 <= k < due.len() && (#[trigger] due[k]).1 == earliest(first, due),
    decreases due.len(),
{
    if due.len() > 0 {
        let rest = due.drop_last();
        the_moment_slept_until_has_a_cause(first, rest);
        if due.last().1 < earliest(first, rest) {
            assert(due[due.len() - 1].1 == earliest(first, due));
        } else if earliest(first, rest) != first {
            let k = choose|k: int|
                0 <= k < rest.len() && (#[trigger] rest[k]).1 == earliest(first, rest);
            assert(due[k] == rest[k]);
        }
    }
}

/// A moment later by so much is exactly that much later, unless the clock ends before.
pub proof fn a_moment_later_is_that_much_later(at: u64, by: int)
    requires
        by >= 0,
    ensures
        at <= later(at, by) <= at + by,
        later(at, by) - at != by ==> later(at, by) == u64::MAX,
{
}

/// What is told of a found mount: its name, its point and its state as they are; that
/// something serves there where it is mounted, foreign or orphaned; that it is ours unless it
/// is foreign; and the remote of an entry of its name, where there is one.
pub proof fn a_found_mount_is_told_as_it_is(
    found: Seq<DiscoveredMount<Seq<char>>>,
    mounts: Seq<Mount<Seq<char>>>,
    i: int,
)
    requires
        0 <= i < found.len(),
    ensures
        found_views(found, mounts).len() == found.len(),
        ({
            let v = found_views(found, mounts)[i];
            let s = found[i].state;
            &&& v.name == found[i].name
            &&& v.mount_point == found[i].mount_point
            &&& state_named(v.state, v.reason) == Some(s)
            &&& v.reason is Some <==> s is Failed
            &&& v.live <==> s is Mounted || s is Foreign || s is Orphaned
            &&& v.managed <==> !(s is Foreign)
            &&& (forall|k: int| 0 <= k < mounts.len() ==> (#[trigger] mounts[k]).name != v.name)
                ==> v.remote is None
            &&& forall|k: int|
                0 <= k < mounts.len() && (#[trigger] mounts[k]).name == v.name && (forall|j: int|
                    0 <= j < k ==> (#[trigger] mounts[j]).name != v.name) ==> v.remote == Some(
                    mounts[k].remote + ":"@ + mounts[k].path,
                )
        }),
{
    a_state_is_found_under_its_name(found[i].state);
    let name = found[i].name;
    lemma_first_configured(mounts, name);
    assert forall|k: int|
        0 <= k < mounts.len() && (#[trigger] mounts[k]).name == name && (forall|j: int|
            0 <= j < k ==> (#[trigger] mounts[j]).name != name) implies configured(mounts, name)
        == Some(mounts[k]) by {
        let c = choose|c: int|
            0 <= c < mounts.len() && (#[trigger] mounts[c]).name == name && configured(
                mounts,
                name,
            ) == Some(mounts[c]) && forall|j: int| 0 <= j < c ==> (#[trigger] mounts[j]).name
                != name;
        assert(c == k);
    }
}

proof fn lemma_first_configured(mounts: Seq<Mount<Seq<char>>>, name: Seq<char>)
    ensures
        configured(mounts, name) is None ==> forall|k: int|
            0 <= k < mounts.len() ==> (#[trigger] mounts[k]).name != name,
        configured(mounts, name) is Some ==> exists|c: int|
            0 <= c < mounts.len() && (#[trigger] mounts[c]).name == name && configured(
                mounts,
                name,
            ) == Some(mounts[c]) && forall|j: int| 0 <= j < c ==> (#[trigger] mounts[j]).name
                != name,
    decreases mounts.len(),
{
    if mounts.len() > 0 {
        let rest = mounts.drop_first();
        lemma_first_configured(rest, name);
        if mounts[0].name == name {
            assert(configured(mounts, name) == Some(mounts[0]));
        } else if configured(rest, name) is Some {
            let c = choose|c: int|
                0 <= c < rest.len() && (#[trigger] rest[c]).name == name && configured(rest, name)
                    == Some(rest[c]) && forall|j: int| 0 <= j < c ==> (#[trigger] rest[j]).name
                    != name;
            assert(mounts[c + 1] == rest[c]);
            assert forall|j: int| 0 <= j < c + 1 implies (#[trigger] mounts[j]).name != name by {
                if j > 0 {
                    assert(rest[j - 1] == mounts[j]);
                }
            }
        } else {
            assert forall|k: int| 0 <= k < mounts.len() implies (#[trigger] mounts[k]).name
                != name by {
                if k > 0 {
                    assert(rest[k - 1] == mounts[k]);
                }
            }
        }
    }
}

/// A poll's reading is what is known of its mount from there on, and says nothing of any
/// other. It is published exactly where it says something new. The tier moves only where the
/// poll learned what rclone offers, and is published exactly where it moved.
pub proof fn a_polls_reading_is_taken_in(
    r: RegistryModel,
    p: PollerModel,
    state: TransferModel,
    other: Seq<char>,
)
    requires
        in_order(r.transfers),
    ensures
        ({
            let (after, changes) = recorded(r, p, state);
            let told = Change::Transfer(view_of_transfer(state));
            &&& after.mounts == r.mounts
            &&& row_at(after.transfers, state.mount) is Some
            &&& transfer_of_view(row_at(after.transfers, state.mount)->0) == state
            &&& other != state.mount ==> row_at(after.transfers, other) == row_at(
                r.transfers,
                other,
            )
            &&& changes.contains(told) <==> row_at(r.transfers, state.mount) != row_at(
                after.transfers,
                state.mount,
            )
            &&& changes.contains(ChangeModel::CapabilityTier) <==> after.tier != r.tier
            &&& p.caps.commands.len() == 0 ==> after.tier == r.tier
            &&& p.caps.commands.len() > 0 ==> after.tier is Some && (after.tier == Some(
                p.caps.best(),
            ) || after.tier == r.tier) && after.tier->0.place() <= p.caps.best().place()
            &&& forall|k: int|
                0 <= k < changes.len() ==> #[trigger] changes[k] == told || changes[k]
                    is CapabilityTier
        }),
{
    a_reading_arrives_as_it_was_sent(state);
    let v = view_of_transfer(state);
    let (after, changes) = recorded(r, p, state);
    let told: ChangeModel = Change::Transfer(v);
    a_table_keeps_its_order_and_its_rows(r.transfers, v.mount, v, other);
    a_table_keeps_its_order_and_its_rows(r.transfers, v.mount, v, v.mount);
    if after.tier != r.tier {
        assert(changes[0] is CapabilityTier);
    }
    if row_at(r.transfers, v.mount) != Some(v) {
        assert(changes.last() == told);
        assert(changes[changes.len() - 1] == told);
    }
}

/// A sweep is the whole truth about which mounts there are: each found mount is known from
/// there on as it was found, and no other is.
pub proof fn a_sweep_is_the_whole_truth(
    r: RegistryModel,
    found: Seq<MountView<Seq<char>>>,
    i: int,
    name: Seq<char>,
)
    requires
        in_order(r.transfers),
        distinct_names(found),
    ensures
        in_order(swept(r, found).seen),
        0 <= i < found.len() ==> row_at(swept(r, found).seen, found[i].name) == Some(found[i]),
        (forall|k: int| 0 <= k < found.len() ==> (#[trigger] found[k]).name != name) ==> row_at(
            swept(r, found).seen,
            name,
        ) is None,
{
    let taken = intake(found, r.mounts, r.transfers);
    lemma_seen(found, r.mounts, r.transfers, name);
    crate::registry::a_reading_does_not_outlive_its_mount(r, found, name);
    lemma_order_kept(found, r.mounts, r.transfers);
    lemma_departures_readings(r.mounts, taken, name);
    if 0 <= i < found.len() {
        lemma_seen(found, r.mounts, r.transfers, found[i].name);
    }
}

proof fn lemma_order_kept(
    found: Seq<MountView<Seq<char>>>,
    known: MountRows,
    transfers: crate::registry::TransferRows,
)
    requires
        in_order(transfers),
    ensures
        in_order(intake(found, known, transfers).transfers),
    decreases found.len(),
{
    if found.len() > 0 {
        lemma_order_kept(found.drop_last(), known, transfers);
        let before = intake(found.drop_last(), known, transfers).transfers;
        if before.len() > 0 {
            a_table_keeps_its_order_and_its_rows(
                before,
                found.last().name,
                before[0].1,
                found.last().name,
            );
        }
    }
}

/// What is polled is what is mounted, and all of it.
pub proof fn only_what_is_mounted_is_polled(rows: MountRows, name: Seq<char>)
    ensures
        pollable_names(rows).contains(name) <==> exists|k: int|
            0 <= k < rows.len() && (#[trigger] rows[k]).1.name == name && state_named(
                rows[k].1.state,
                rows[k].1.reason,
            ) == Some(MountState::<Seq<char>>::Mounted),
    decreases rows.len(),
{
    reveal_strlit("mounted");
    reveal_strlit("unmounted");
    reveal_strlit("mounting");
    reveal_strlit("unmounting");
    reveal_strlit("failed");
    reveal_strlit("foreign");
    reveal_strlit("orphaned");
    if rows.len() > 0 {
        let rest = rows.drop_last();
        only_what_is_mounted_is_polled(rest, name);
        let before = pollable_names(rest);
        let all = pollable_names(rows);
        let last = rows.last();
        if before.contains(name) {
            let j = choose|j: int| 0 <= j < before.len() && before[j] == name;
            assert(all[j] == name);
            let k = choose|k: int|
                0 <= k < rest.len() && (#[trigger] rest[k]).1.name == name && state_named(
                    rest[k].1.state,
                    rest[k].1.reason,
                ) == Some(MountState::<Seq<char>>::Mounted);
            assert(rows[k] == rest[k]);
        }
        if last.1.name == name && last.1.state == "mounted"@ {
            assert(all[before.len() as int] == name);
            assert(rows[rows.len() - 1] == last);
        }
        if all.contains(name) && !before.contains(name) {
            let j = choose|j: int| 0 <= j < all.len() && all[j] == name;
            if j < before.len() {
                assert(before[j] == name);
            }
            assert(last.1.name == name && last.1.state == "mounted"@);
            assert(rows[rows.len() - 1] == last);
        }
        if exists|k: int|
            0 <= k < rows.len() && (#[trigger] rows[k]).1.name == name && state_named(
                rows[k].1.state,
                rows[k].1.reason,
            ) == Some(MountState::<Seq<char>>::Mounted) {
            let k = choose|k: int|
                0 <= k < rows.len() && (#[trigger] rows[k]).1.name == name && state_named(
                    rows[k].1.state,
                    rows[k].1.reason,
                ) == Some(MountState::<Seq<char>>::Mounted);
            assert(rows[k].1.state == "mounted"@);
            if k < rest.len() {
                assert(rest[k] == rows[k]);
            }
        }
    }
}

/// What a client is told of a mount's outstanding work: the last reading, where there is one;
/// of a known mount without one that nothing is known, and why; and of any other name that
/// no mount goes by it.
pub proof fn a_client_is_told_the_last_reading(r: RegistryModel, name: Seq<char>)
    ensures
        ({
            let told = reading_of(r, name);
            let read = row_at(r.transfers, name);
            let known = row_at(r.mounts, name);
            &&& read is Some ==> told is Ok && Some(told->Ok_0) == read
            &&& read is None && known is Some ==> {
                &&& told is Ok
                &&& told->Ok_0.mount == name
                &&& !told->Ok_0.outstanding_known
                &&& told->Ok_0.fidelity is None
                &&& told->Ok_0.degraded_reason is Some
                &&& !transfer_of_view(told->Ok_0).idle()
            }
            &&& told is Err <==> read is None && known is None
            &&& told is Err ==> told->Err_0 is UnknownMount && finishes_with(
                told->Err_0->UnknownMount_0,
                crate::text::debug_text(name),
            )
        }),
{
    let q = crate::text::debug_text(name);
    let text = no_mount_named(name);
    assert(text.subrange(text.len() - q.len(), text.len() as int) == q);
}

/// Why a mount has no reading says which of the reasons it is: a foreign one was started
/// outside, an orphan is described by nothing, a mounted one was not polled yet, and any other
/// is not serving.
pub proof fn a_missing_reading_says_why(v: MountView<Seq<char>>, s: MountState<Seq<char>>)
    requires
        state_named(v.state, v.reason) == Some(s),
    ensures
        s is Foreign ==> occurs_in("outside"@, unpolled_reason(v)),
        s is Orphaned ==> begins_with(unpolled_reason(v), "no configuration"@),
        s is Mounted ==> begins_with(unpolled_reason(v), "not polled"@),
        s is Failed || s is Unmounted || s is Mounting || s is Unmounting ==> finishes_with(
            unpolled_reason(v),
            "not serving"@,
        ),
{
    reveal_strlit("outside");
    reveal_strlit("no configuration");
    reveal_strlit("not polled");
    reveal_strlit("not serving");
    reveal_strlit("started outside this service, so its rc socket is unknown");
    reveal_strlit("no configuration describes this mount any more");
    reveal_strlit("not polled yet");
    reveal_strlit("the mount is not serving");
    let text = unpolled_reason(v);
    if s is Foreign {
        assert(text.subrange(8, 15) == "outside"@);
        assert(occurs_at("outside"@, text, 8));
    } else if s is Orphaned {
        assert(text.subrange(0, 16) == "no configuration"@);
    } else if s is Mounted {
        assert(text.subrange(0, 10) == "not polled"@);
    } else {
        assert(text.subrange(13, 24) == "not serving"@);
    }
}

/// A refusal is told by its kind and in its own words: what is in use stays in use, so that it
/// can be offered to force it; what is not ours stays not ours; an unknown name is named; and
/// anything else is told with what it is about first and with what caused it last.
pub proof fn a_refusal_is_told_in_its_own_words(
    e: SupervisorError<Seq<char>>,
    cause: Seq<char>,
)
    ensures
        ({
            let told = refusal(e);
            &&& told is Busy <==> e is Busy
            &&& told is NotManaged <==> e is NotManaged
            &&& told is UnknownMount <==> e is UnknownMount
            &&& !(told is ZBus)
            &&& e is Busy ==> told->Busy_0 == e->detail
            &&& e is NotManaged ==> told->NotManaged_0 == e->NotManaged_0
            &&& e is UnknownMount ==> finishes_with(
                told->UnknownMount_0,
                crate::text::debug_text(e->UnknownMount_0),
            )
            &&& told is Refused ==> told->Refused_0 is Some
            &&& told is Refused && cause_of(e) == Some(cause) ==> finishes_with(
                told->Refused_0->0,
                cause,
            )
            &&& e is RcloneFailed ==> begins_with(told->Refused_0->0, e->RcloneFailed_reason)
            &&& e is Supervision ==> begins_with(told->Refused_0->0, e->context)
            &&& e is BadMountPoint ==> begins_with(told->Refused_0->0, e->path) && occurs_in(
                e->BadMountPoint_reason,
                told->Refused_0->0,
            )
        }),
{
    match e {
        SupervisorError::UnknownMount(n) => {
            let q = crate::text::debug_text(n);
            let text = no_mount_named(n);
            assert(text.subrange(text.len() - q.len(), text.len() as int) == q);
        },
        SupervisorError::RcloneFailed { reason, source } => {
            lemma_caused(reason, source);
        },
        SupervisorError::Supervision { context, source } => {
            lemma_caused(context, source);
        },
        SupervisorError::BadMountPoint { path, reason, source } => {
            let words = path + " "@ + reason;
            lemma_caused(words, source);
            let text = crate::ipc::caused(words, source);
            assert(text.subrange(0, words.len() as int) == words);
            assert(words.subrange(0, path.len() as int) == path);
            assert(text.subrange(0, path.len() as int) == path);
            let i = (path + " "@).len() as int;
            assert(words.subrange(i, i + reason.len()) == reason);
            assert(text.subrange(i, i + reason.len()) == reason);
            assert(occurs_at(reason, text, i));
        },
        _ => {},
    }
}

/// What caused a failure of the machinery, where that is known.
pub open spec fn cause_of(e: SupervisorError<Seq<char>>) -> Option<Seq<char>> {
    match e {
        SupervisorError::RcloneFailed { source, .. } => source,
        SupervisorError::BadMountPoint { source, .. } => source,
        SupervisorError::Supervision { source, .. } => source,
        _ => None,
    }
}

proof fn lemma_caused(words: Seq<char>, source: Option<Seq<char>>)
    ensures
        begins_with(crate::ipc::caused(words, source), words),
        source matches Some(s) ==> finishes_with(crate::ipc::caused(words, source), s),
{
    let text = crate::ipc::caused(words, source);
    assert(text.subrange(0, words.len() as int) == words);
    if let Some(s) = source {
        assert(text.subrange(text.len() - s.len(), text.len() as int) == s);
    }
}

/// The tier known is one that was seen: the one noted or the one known before, whichever is
/// richer.
pub proof fn the_tier_known_was_seen(seen: Option<Tier>, tier: Tier)
    ensures
        best_tier(seen, tier) == tier || Some(best_tier(seen, tier)) == seen,
        seen is None ==> best_tier(seen, tier) == tier,
{
}

/// The word that systemd has for each state of a unit.
pub open spec fn systemd_word(s: UnitStatus) -> Seq<char> {
    match s {
        UnitStatus::Active => "active"@,
        UnitStatus::Activating => "activating"@,
        UnitStatus::Deactivating => "deactivating"@,
        UnitStatus::Failed => "failed"@,
        UnitStatus::Inactive => "inactive"@,
    }
}

/// Every state is read from systemd's own word for it. A unit that reloads is active, and a
/// word of nobody's is taken for a unit that does not run.
pub proof fn a_state_is_read_from_its_word(s: UnitStatus, word: Seq<char>)
    ensures
        status_named(systemd_word(s)) == s,
        status_named("reloading"@) == UnitStatus::Active,
        (forall|t: UnitStatus| word != #[trigger] systemd_word(t)) && word != "reloading"@
            ==> status_named(word) == UnitStatus::Inactive,
        s.serves() <==> s == UnitStatus::Active || s == UnitStatus::Deactivating,
{
    reveal_strlit("active");
    reveal_strlit("activating");
    reveal_strlit("deactivating");
    reveal_strlit("failed");
    reveal_strlit("inactive");
    reveal_strlit("reloading");
    assert("activating"@.len() == 10 && "deactivating"@.len() == 12 && "inactive"@.len() == 8
        && "reloading"@.len() == 9);
    assert("active"@.len() == 6 && "failed"@.len() == 6 && "active"@[0] == 'a' && "failed"@[0]
        == 'f');
    assert(systemd_word(UnitStatus::Active) == "active"@);
    assert(systemd_word(UnitStatus::Activating) == "activating"@);
    assert(systemd_word(UnitStatus::Deactivating) == "deactivating"@);
    assert(systemd_word(UnitStatus::Failed) == "failed"@);
}

/// A unit that systemd denies knowing is stopped, and is inactive. Any other failure is passed
/// on, with the unit it is about and with what systemd said; in particular it is never taken
/// for a unit that is not there.
pub proof fn a_unit_is_gone_only_where_systemd_says_so(
    unit: Seq<char>,
    e: BusFailure<Seq<char>>,
)
    ensures
        stop_result(unit, Ok(())) is Ok,
        says_no_such_unit(e) ==> stop_result(unit, Err(e)) is Ok && lookup_result(unit, e) == Ok::<
            UnitStatus,
            SupervisorError<Seq<char>>,
        >(UnitStatus::Inactive),
        e.name is None ==> stop_result(unit, Err(e)) is Err && lookup_result(unit, e) is Err,
        stop_result(unit, Err(e)) is Err <==> !says_no_such_unit(e) && !says_not_loaded(e),
        lookup_result(unit, e) is Err <==> !says_no_such_unit(e),
        stop_result(unit, Err(e)) matches Err(f) ==> cause_of(f) == Some(e.text) && f is Supervision
            && finishes_with(f->context, unit),
        lookup_result(unit, e) matches Err(f) ==> cause_of(f) == Some(e.text) && f is Supervision
            && finishes_with(f->context, unit),
{
    let a = "stopping unit "@ + unit;
    let b = "looking up unit "@ + unit;
    assert(a.subrange(a.len() - unit.len(), a.len() as int) == unit);
    assert(b.subrange(b.len() - unit.len(), b.len() as int) == unit);
}

/// Whether a unit is started with a property, and with no other of that name.
pub open spec fn set_to(
    ps: Seq<Property<Seq<char>, Seq<Seq<char>>>>,
    name: Seq<char>,
    v: PropertyValue<Seq<char>, Seq<Seq<char>>>,
) -> bool {
    &&& exists|i: int|
        0 <= i < ps.len() && (#[trigger] ps[i]).name == name && ps[i].value == v
    &&& forall|i: int| 0 <= i < ps.len() && (#[trigger] ps[i]).name == name ==> ps[i].value == v
}

/// A unit is started with its own command line, description and mask, is restarted where
/// rclone fails, and is stopped gently. What clears the leftovers runs before it, and may fail.
pub proof fn a_unit_is_started_with_its_own(spec: UnitSpec<Seq<char>, Seq<Seq<char>>>)
    ensures
        ({
            let ps = transient_properties(spec);
            &&& set_to(ps, "Description"@, PropertyValue::Text(spec.description))
            &&& set_to(
                ps,
                "ExecStart"@,
                PropertyValue::Command(
                    (ExecCommand {
                        binary: spec.executable,
                        argv: seq![spec.executable] + spec.args,
                        ignore_errors: false,
                    }),
                ),
            )
            &&& set_to(ps, "Type"@, PropertyValue::Text("exec"@))
            &&& set_to(ps, "UMask"@, PropertyValue::U32(spec.umask))
            &&& set_to(ps, "Restart"@, PropertyValue::Text("on-failure"@))
            &&& set_to(ps, "KillMode"@, PropertyValue::Text("mixed"@))
            &&& spec.pre_start matches Some(hook) ==> set_to(
                ps,
                "ExecStartPre"@,
                PropertyValue::Command(
                    (ExecCommand {
                        binary: hook.0,
                        argv: seq![hook.0] + hook.1,
                        ignore_errors: true,
                    }),
                ),
            )
            &&& spec.pre_start is None ==> forall|i: int|
                0 <= i < ps.len() ==> (#[trigger] ps[i]).name != "ExecStartPre"@
        }),
{
    lemma_names_differ();
    let ps = transient_properties(spec);
    assert(ps[0].name == "Description"@);
    assert(ps[1].name == "ExecStart"@);
    assert(ps[2].name == "Type"@);
    assert(ps[3].name == "UMask"@);
    assert(ps[4].name == "Restart"@);
    assert(ps[8].name == "KillMode"@);
    if spec.pre_start is Some {
        assert(ps[10].name == "ExecStartPre"@);
    }
}

/// Whether a unit is started with these times, in microseconds: over what its starts are
/// counted, how many are allowed, the pause before each, and what it is given to stop.
pub open spec fn timed(
    ps: Seq<Property<Seq<char>, Seq<Seq<char>>>>,
    interval: u64,
    burst: u32,
    pause: u64,
    stop: u64,
) -> bool {
    &&& set_to(ps, "StartLimitIntervalUSec"@, PropertyValue::U64(interval))
    &&& set_to(ps, "StartLimitBurst"@, PropertyValue::U32(burst))
    &&& set_to(ps, "RestartUSec"@, PropertyValue::U64(pause))
    &&& set_to(ps, "TimeoutStopUSec"@, PropertyValue::U64(stop))
}

/// The retries of a unit that keeps failing end: as many starts as are allowed take less time
/// than they are counted over. And a unit is given less time to stop than is waited for it.
pub proof fn the_times_of_a_unit_fit_together(spec: UnitSpec<Seq<char>, Seq<Seq<char>>>)
    ensures
        exists|interval: u64, burst: u32, pause: u64, stop: u64| #[trigger]
            timed(transient_properties(spec), interval, burst, pause, stop) && interval
                == 60_000_000 && burst == 3 && 0 < burst * pause < interval && 30_000_000 <= stop
                < UNIT_GONE_TIMEOUT_MS * 1000,
{
    lemma_names_differ();
    let ps = transient_properties(spec);
    assert(ps[5].name == "StartLimitIntervalUSec"@);
    assert(ps[6].name == "StartLimitBurst"@);
    assert(ps[7].name == "RestartUSec"@);
    assert(ps[9].name == "TimeoutStopUSec"@);
    assert(set_to(ps, "StartLimitIntervalUSec"@, PropertyValue::U64(60_000_000)));
    assert(set_to(ps, "StartLimitBurst"@, PropertyValue::U32(3)));
    assert(set_to(ps, "RestartUSec"@, PropertyValue::U64(5_000_000)));
    assert(set_to(ps, "TimeoutStopUSec"@, PropertyValue::U64(30_000_000)));
    assert(timed(ps, 60_000_000, 3, 5_000_000, 30_000_000));
}

proof fn lemma_names_differ()
    ensures
        "Description"@.len() == 11,
        "Description"@[0] == 'D',
        "ExecStart"@.len() == 9,
        "Type"@.len() == 4,
        "UMask"@.len() == 5,
        "Restart"@.len() == 7,
        "StartLimitIntervalUSec"@.len() == 22,
        "StartLimitBurst"@.len() == 15,
        "StartLimitBurst"@[0] == 'S',
        "RestartUSec"@.len() == 11,
        "RestartUSec"@[0] == 'R',
        "KillMode"@.len() == 8,
        "TimeoutStopUSec"@.len() == 15,
        "TimeoutStopUSec"@[0] == 'T',
        "ExecStartPre"@.len() == 12,
{
    reveal_strlit("Description");
    reveal_strlit("ExecStart");
    reveal_strlit("Type");
    reveal_strlit("UMask");
    reveal_strlit("Restart");
    reveal_strlit("StartLimitIntervalUSec");
    reveal_strlit("StartLimitBurst");
    reveal_strlit("RestartUSec");
    reveal_strlit("KillMode");
    reveal_strlit("TimeoutStopUSec");
    reveal_strlit("ExecStartPre");
}

} // verus!
