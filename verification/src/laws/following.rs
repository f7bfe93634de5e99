//! What a session asks for after each answer, and what the tray shows of what it is told.

use crate::errors::BusFailure;
use crate::ipc::{transfer_of_view, MountView, TransferViewModel};
use crate::laws::words::lemma_row_stands;
use crate::link::{link_failure, LinkError};
use crate::model::{down_of, rows_of, Link, TrayView};
use crate::session::{
    edited, EditModel, Event, EventModel, Handle, SessionModel, SnapshotModel, Stage,
};
use crate::table::{a_table_keeps_its_order_and_its_rows, in_order, row_at};
use crate::text::{digits, occurs_in};
use vstd::prelude::*;

verus! {

/// Where an event takes a session.
pub open spec fn led(s: SessionModel, e: EventModel) -> SessionModel {
    s.next(e).0
}

/// What an event changes in the tray.
pub open spec fn change(s: SessionModel, e: EventModel) -> EditModel {
    s.next(e).1.edit
}

/// A session to which everything succeeds asks for one thing after another: the bus, who owns
/// the name, whether anyone does, the link, the signals, and a reading of everything. It then
/// shows what was read, lets actions go over the link, and follows the service. On the way it
/// changes nothing.
pub proof fn how_a_session_comes_to_serve(wait: u64, s: SnapshotModel)
    ensures
        ({
            let begun = SessionModel { stage: Stage::Connect, wait };
            let connected = led(begun, Event::Connected(Ok(())));
            let followed = led(connected, Event::Followed(Ok(())));
            let owned = led(followed, Event::Owner(Ok(true)));
            let opened = led(owned, Event::Opened(Ok(())));
            let subscribed = led(opened, Event::Subscribed(Ok(())));
            let read = subscribed.next(Event::Gathered(Ok(s)));
            &&& connected.stage == Stage::Follow
            &&& followed.stage == Stage::AskOwner
            &&& owned.stage == Stage::Open
            &&& opened.stage == Stage::Subscribe
            &&& subscribed.stage == Stage::Gather
            &&& read.0.stage == Stage::Serve
            &&& read.1.edit == EditModel::Up(s)
            &&& read.1.handle == Handle::Publish
            &&& change(begun, Event::Connected(Ok(()))) is Nothing
            &&& change(connected, Event::Followed(Ok(()))) is Nothing
            &&& change(followed, Event::Owner(Ok(true))) is Nothing
            &&& change(owned, Event::Opened(Ok(()))) is Nothing
            &&& change(opened, Event::Subscribed(Ok(()))) is Nothing
        }),
{
}

/// A session that finds nobody owning the name says that the service is not running, waits
/// for somebody, and asks again as soon as the owner changes or the user wants it to.
pub proof fn how_a_stopped_service_is_waited_for(wait: u64)
    ensures
        ({
            let asking = SessionModel { stage: Stage::AskOwner, wait };
            let none = asking.next(Event::Owner(Ok(false)));
            let again = led(none.0, Event::OwnerChanged);
            let asked = led(none.0, Event::Refresh);
            &&& none.0.stage == Stage::AwaitOwner
            &&& none.1.edit == EditModel::Down(LinkError::NotRunning)
            &&& none.1.handle == Handle::Drop
            &&& again.stage == Stage::AskOwner
            &&& asked.stage == Stage::AskOwner
            &&& again.wait == 1
            &&& asked.wait == 1
        }),
{
}

/// Every failure on the way is shown as what it was, and is followed by a wait, twice as long
/// each time up to a minute. After it the session goes on from the bus where it has one, and
/// from the beginning where it has none; the user can cut it short, and then the next wait is
/// the first again.
pub proof fn how_a_failure_is_waited_out(
    wait: u64,
    t: Seq<char>,
    z: BusFailure<Seq<char>>,
    e: LinkError<Seq<char>>,
)
    requires
        wait <= 60,
    ensures
        ({
            let at = |stage: Stage| SessionModel { stage, wait };
            let fallen = |s: SessionModel, v: EventModel, e: LinkError<Seq<char>>, attached: bool|
                {
                    &&& s.next(v).1.edit == EditModel::Down(e)
                    &&& s.next(v).1.handle == Handle::Drop
                    &&& s.next(v).0.stage == (Stage::Pause { secs: wait, attached })
                    &&& s.next(v).0.wait == if 2 * wait < 60 {
                        2 * wait
                    } else {
                        60
                    }
                };
            &&& fallen(
                at(Stage::Connect),
                Event::Connected(Err(t)),
                LinkError::NoSessionBus(t),
                false,
            )
            &&& fallen(at(Stage::Follow), Event::Followed(Err(z)), link_failure(z), false)
            &&& fallen(at(Stage::AskOwner), Event::Owner(Err(z)), link_failure(z), false)
            &&& fallen(at(Stage::Open), Event::Opened(Err(e)), e, true)
            &&& fallen(at(Stage::Subscribe), Event::Subscribed(Err(z)), link_failure(z), true)
            &&& fallen(at(Stage::Gather), Event::Gathered(Err(e)), e, true)
            &&& fallen(at(Stage::Regather), Event::Gathered(Err(e)), e, true)
        }),
        ({
            let held = SessionModel { stage: Stage::Pause { secs: wait, attached: true }, wait };
            let lost = SessionModel { stage: Stage::Pause { secs: wait, attached: false }, wait };
            &&& led(held, Event::Elapsed) == (SessionModel { stage: Stage::AskOwner, wait })
            &&& led(lost, Event::Elapsed) == (SessionModel { stage: Stage::Connect, wait })
            &&& led(held, Event::Refresh) == (SessionModel { stage: Stage::AskOwner, wait: 1 })
            &&& led(lost, Event::Refresh) == (SessionModel { stage: Stage::Connect, wait: 1 })
            &&& led(held, Event::OwnerChanged) == (SessionModel { stage: Stage::AskOwner, wait })
            &&& led(held, Event::OwnersEnded).stage == (Stage::Pause {
                secs: wait,
                attached: false,
            })
        }),
{
}

/// A session that serves reads everything again when the user asks, and shows what it read. It
/// starts over at once where the name changed its owner, and waits first where the bus itself
/// falls silent.
pub proof fn how_a_session_goes_on(wait: u64, s: SnapshotModel)
    ensures
        ({
            let serving = SessionModel { stage: Stage::Serve, wait };
            let again = led(serving, Event::Refresh);
            let read = again.next(Event::Gathered(Ok(s)));
            &&& again.stage == Stage::Regather
            &&& change(serving, Event::Refresh) is Nothing
            &&& read.0.stage == Stage::Serve
            &&& read.1.edit == EditModel::Resync(s)
            &&& led(serving, Event::OwnerChanged).stage == Stage::AskOwner
            &&& led(serving, Event::OwnerChanged).wait == 1
            &&& change(serving, Event::OwnerChanged) is Down
            &&& led(serving, Event::SignalsEnded).stage == (Stage::Pause {
                secs: wait,
                attached: false,
            })
            &&& change(serving, Event::SignalsEnded) is Down
            &&& led(serving, Event::OwnersEnded).stage == (Stage::Pause {
                secs: wait,
                attached: false,
            })
            &&& change(serving, Event::OwnersEnded) is Down
        }),
{
}

/// What a serving session is told of a mount is what the tray shows of it from there on, and of
/// nothing else: a changed mount is shown as it now is, a removed one is gone with its reading,
/// and a reading replaces the one before.
pub proof fn what_the_service_says_is_shown(
    wait: u64,
    v: TrayView,
    m: MountView<Seq<char>>,
    n: Seq<char>,
    t: TransferViewModel,
    other: Seq<char>,
)
    requires
        in_order(v.mounts),
        in_order(v.transfers),
    ensures
        ({
            let serving = SessionModel { stage: Stage::Serve, wait };
            let changed = edited(v, change(serving, Event::MountChanged(m)));
            let removed = edited(v, change(serving, Event::MountRemoved(n)));
            let read = edited(v, change(serving, Event::TransferChanged(t)));
            &&& led(serving, Event::MountChanged(m)) == serving
            &&& led(serving, Event::MountRemoved(n)) == serving
            &&& led(serving, Event::TransferChanged(t)) == serving
            &&& row_at(changed.mounts, m.name) == Some(m)
            &&& other != m.name ==> row_at(changed.mounts, other) == row_at(v.mounts, other)
            &&& changed.transfers == v.transfers
            &&& changed.link == v.link
            &&& changed.notice is Some <==> v.notice is Some && !v.notes(m.name)
            &&& changed.notice is Some ==> changed.notice == v.notice
            &&& row_at(removed.mounts, n) is None
            &&& row_at(removed.transfers, n) is None
            &&& other != n ==> row_at(removed.mounts, other) == row_at(v.mounts, other)
            &&& other != n ==> row_at(removed.transfers, other) == row_at(v.transfers, other)
            &&& removed.link == v.link
            &&& removed.notice == v.notice
            &&& row_at(read.transfers, t.mount) == Some(transfer_of_view(t))
            &&& other != t.mount ==> row_at(read.transfers, other) == row_at(v.transfers, other)
            &&& read.mounts == v.mounts
            &&& read.link == v.link
            &&& read.notice == v.notice
            &&& in_order(changed.mounts)
            &&& in_order(removed.mounts)
            &&& in_order(removed.transfers)
            &&& in_order(read.transfers)
        }),
{
    let r = transfer_of_view(t);
    a_table_keeps_its_order_and_its_rows(v.mounts, m.name, m, m.name);
    a_table_keeps_its_order_and_its_rows(v.mounts, m.name, m, other);
    a_table_keeps_its_order_and_its_rows(v.mounts, n, m, n);
    a_table_keeps_its_order_and_its_rows(v.mounts, n, m, other);
    a_table_keeps_its_order_and_its_rows(v.transfers, n, r, n);
    a_table_keeps_its_order_and_its_rows(v.transfers, n, r, other);
    a_table_keeps_its_order_and_its_rows(v.transfers, t.mount, r, t.mount);
    a_table_keeps_its_order_and_its_rows(v.transfers, t.mount, r, other);
}

proof fn lemma_rows(mounts: Seq<MountView<Seq<char>>>, name: Seq<char>)
    ensures
        in_order(rows_of(mounts)),
        (forall|i: int| 0 <= i < mounts.len() ==> (#[trigger] mounts[i]).name != name) ==> row_at(
            rows_of(mounts),
            name,
        ) is None,
        forall|k: int|
            0 <= k < mounts.len() && (#[trigger] mounts[k]).name == name && (forall|j: int|
                k < j < mounts.len() ==> (#[trigger] mounts[j]).name != name) ==> row_at(
                rows_of(mounts),
                name,
            ) == Some(mounts[k]),
    decreases mounts.len(),
{
    if mounts.len() > 0 {
        let rest = mounts.drop_last();
        lemma_rows(rest, name);
        a_table_keeps_its_order_and_its_rows(
            rows_of(rest),
            mounts.last().name,
            mounts.last(),
            name,
        );
        if forall|i: int| 0 <= i < mounts.len() ==> (#[trigger] mounts[i]).name != name {
            assert(mounts[mounts.len() - 1].name != name);
            assert forall|i: int| 0 <= i < rest.len() implies (#[trigger] rest[i]).name != name by {
                assert(rest[i] == mounts[i]);
            }
        }
        assert forall|k: int|
            0 <= k < mounts.len() && (#[trigger] mounts[k]).name == name && (forall|j: int|
                k < j < mounts.len() ==> (#[trigger] mounts[j]).name != name) implies row_at(
            rows_of(mounts),
            name,
        ) == Some(mounts[k]) by {
            if k < rest.len() {
                assert(mounts[mounts.len() - 1].name != name);
                assert(rest[k] == mounts[k]);
                assert forall|j: int| k < j < rest.len() implies (#[trigger] rest[j]).name
                    != name by {
                    assert(rest[j] == mounts[j]);
                }
            }
        }
    }
}

proof fn lemma_readings(v: TrayView, ts: Seq<TransferViewModel>, name: Seq<char>)
    requires
        in_order(v.transfers),
    ensures
        v.with_transfers(ts).mounts == v.mounts,
        v.with_transfers(ts).link == v.link,
        in_order(v.with_transfers(ts).transfers),
        (forall|i: int| 0 <= i < ts.len() ==> (#[trigger] ts[i]).mount != name) ==> row_at(
            v.with_transfers(ts).transfers,
            name,
        ) == row_at(v.transfers, name),
        forall|k: int|
            0 <= k < ts.len() && (#[trigger] ts[k]).mount == name && (forall|j: int|
                k < j < ts.len() ==> (#[trigger] ts[j]).mount != name) ==> row_at(
                v.with_transfers(ts).transfers,
                name,
            ) == Some(transfer_of_view(ts[k])),
    decreases ts.len(),
{
    if ts.len() > 0 {
        let rest = ts.drop_last();
        lemma_readings(v, rest, name);
        a_table_keeps_its_order_and_its_rows(
            v.with_transfers(rest).transfers,
            ts.last().mount,
            transfer_of_view(ts.last()),
            name,
        );
        if forall|i: int| 0 <= i < ts.len() ==> (#[trigger] ts[i]).mount != name {
            assert(ts[ts.len() - 1].mount != name);
            assert forall|i: int| 0 <= i < rest.len() implies (#[trigger] rest[i]).mount
                != name by {
                assert(rest[i] == ts[i]);
            }
        }
        assert forall|k: int|
            0 <= k < ts.len() && (#[trigger] ts[k]).mount == name && (forall|j: int|
                k < j < ts.len() ==> (#[trigger] ts[j]).mount != name) implies row_at(
            v.with_transfers(ts).transfers,
            name,
        ) == Some(transfer_of_view(ts[k])) by {
            if k < rest.len() {
                assert(ts[ts.len() - 1].mount != name);
                assert(rest[k] == ts[k]);
                assert forall|j: int| k < j < rest.len() implies (#[trigger] rest[j]).mount
                    != name by {
                    assert(rest[j] == ts[j]);
                }
            }
        }
    }
}

/// A reading of everything is shown as it was read, by a fresh attachment and by one that reads
/// again: the service's own account of itself, the last that was said of each mount and of its
/// uploads, and nothing of any name that was not among them.
pub proof fn a_snapshot_is_shown(v: TrayView, s: SnapshotModel, name: Seq<char>, k: int)
    ensures
        ({
            let up = edited(v, EditModel::Up(s));
            let again = edited(v, EditModel::Resync(s));
            &&& up.link == Link::Up(s.info)
            &&& again.link == Link::Up(s.info)
            &&& up.mounts == again.mounts
            &&& up.transfers == again.transfers
            &&& 0 <= k < s.mounts.len() && s.mounts[k].name == name && (forall|j: int|
                k < j < s.mounts.len() ==> (#[trigger] s.mounts[j]).name != name) ==> row_at(
                up.mounts,
                name,
            ) == Some(s.mounts[k])
            &&& 0 <= k < s.transfers.len() && s.transfers[k].mount == name && (forall|j: int|
                k < j < s.transfers.len() ==> (#[trigger] s.transfers[j]).mount != name) ==> row_at(
                up.transfers,
                name,
            ) == Some(transfer_of_view(s.transfers[k]))
            &&& (forall|i: int| 0 <= i < s.mounts.len() ==> (#[trigger] s.mounts[i]).name != name)
                ==> row_at(up.mounts, name) is None
            &&& (forall|i: int|
                0 <= i < s.transfers.len() ==> (#[trigger] s.transfers[i]).mount != name)
                ==> row_at(up.transfers, name) is None
        }),
{
    let fresh = v.risen(s.info, s.mounts, None);
    let kept = v.risen(s.info, s.mounts, v.notice);
    lemma_rows(s.mounts, name);
    lemma_readings(fresh, s.transfers, name);
    lemma_readings(kept, s.transfers, name);
    lemma_same_readings(fresh, kept, s.transfers);
}

proof fn lemma_same_readings(a: TrayView, b: TrayView, ts: Seq<TransferViewModel>)
    requires
        a.transfers == b.transfers,
    ensures
        a.with_transfers(ts).transfers == b.with_transfers(ts).transfers,
    decreases ts.len(),
{
    if ts.len() > 0 {
        lemma_same_readings(a, b, ts.drop_last());
    }
}

/// The first line of the menu tells what failed: a service too old gives both versions, and a
/// refusal or a failure on the way stands in its own words.
pub proof fn a_failure_is_headlined(e: LinkError<Seq<char>>, t: Seq<char>)
    ensures
        e matches LinkError::TooOld { needed, found } ==> occurs_in(
            digits(found as nat) + ", this needs "@ + digits(needed as nat),
            down_of(e).headline,
        ),
        e == LinkError::Refused(Some(t)) ==> down_of(e).headline == t,
        e is Transport ==> down_of(e).headline == e.sentence(),
        e is NotRunning ==> down_of(e).headline == "The service is not running"@,
{
    if let LinkError::TooOld { needed, found } = e {
        let none = Seq::<char>::empty();
        let head = "The service is too old: it offers interface "@;
        let x = digits(found as nat);
        let y = ", this needs "@;
        let z = digits(needed as nat);
        lemma_row_stands(head, x, y, z, none);
        assert(head + x + y + z + none == head + x + y + z);
    }
}

} // verus!
