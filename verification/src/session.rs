//! Keeping the tray in step with the service, across the service's whole lifetime.
//!
//! [`Session`] decides what to do next; whoever drives it does that and hands back what
//! happened. Three orderings are not free choices:
//!
//! - Signals are subscribed to before the mounts are listed: a change landing in between
//!   would never be heard of again.
//! - Who owns the service's name is asked of the bus, not inferred from a failed call: a call
//!   to an absent name is what starts a bus-activated service, and the tray must never start
//!   the service by looking at it.
//! - Everything is dropped when the link goes: state is not carried across a service's
//!   lifetime, and a stale list of mounts must not be shown as current.

use crate::errors::BusFailure;
use crate::ipc::{MountView, TransferView, TransferViewModel};
use crate::link::{from_zbus, link_failure, longer, Backoff, LinkError};
use crate::model::{ServiceInfo, TrayModel, TrayView};
use crate::text::views;
use crate::transfer::TransferFile;
use vstd::prelude::*;
use vstd::string::*;

verus! {

/// Where a session has got to: what is to be done next.
#[derive(Debug, Clone, Copy, PartialEq, Eq, Structural)]
pub enum Stage {
    /// Connect to the session bus.
    Connect,
    /// Follow who owns the service's name.
    Follow,
    /// Ask whether anyone does.
    AskOwner,
    /// Nobody does: wait until someone does, or for a refresh.
    AwaitOwner,
    /// Open the link, and agree on a version.
    Open,
    /// Subscribe to the service's signals.
    Subscribe,
    /// Read everything.
    Gather,
    /// Follow the signals.
    Serve,
    /// Read everything again, over the link that is open.
    Regather,
    /// Wait this many seconds, or for a refresh. While attached to the bus, also for the
    /// owner of the name to change.
    Pause { secs: u64, attached: bool },
}

/// Everything a service publishes when it is asked.
pub struct Snapshot<S = String, M = Vec<MountView>, T = Vec<TransferView>> {
    pub info: ServiceInfo<S>,
    pub mounts: M,
    pub transfers: T,
}

/// A snapshot by its view.
pub type SnapshotModel = Snapshot<Seq<char>, Seq<MountView<Seq<char>>>, Seq<TransferViewModel>>;

impl View for Snapshot {
    type V = SnapshotModel;

    open spec fn view(&self) -> SnapshotModel {
        Snapshot {
            info: self.info@,
            mounts: views(self.mounts@),
            transfers: views(self.transfers@),
        }
    }
}

/// What happened.
pub enum Event<
    S = String,
    F = Vec<TransferFile>,
    M = Vec<MountView>,
    T = Vec<TransferView>,
> {
    /// The bus was connected to, or not, for this reason.
    Connected(Result<(), S>),
    Followed(Result<(), BusFailure<S>>),
    Owner(Result<bool, BusFailure<S>>),
    Opened(Result<(), LinkError<S>>),
    Subscribed(Result<(), BusFailure<S>>),
    Gathered(Result<Snapshot<S, M, T>, LinkError<S>>),
    /// The service's name was dropped, or taken.
    OwnerChanged,
    /// The owner of the name can no longer be followed.
    OwnersEnded,
    /// The signals can no longer be followed.
    SignalsEnded,
    MountChanged(MountView<S>),
    MountRemoved(S),
    TransferChanged(TransferView<S, F>),
    /// The user asked to read everything again.
    Refresh,
    /// A wait is over.
    Elapsed,
}

/// An event by its view.
pub type EventModel = Event<
    Seq<char>,
    Seq<TransferFile<Seq<char>>>,
    Seq<MountView<Seq<char>>>,
    Seq<TransferViewModel>,
>;

/// A result of a bus call by its view.
pub open spec fn bus_result<T>(r: Result<T, BusFailure>) -> Result<T, BusFailure<Seq<char>>> {
    match r {
        Ok(v) => Ok(v),
        Err(e) => Err(e@),
    }
}

impl View for Event {
    type V = EventModel;

    open spec fn view(&self) -> EventModel {
        match *self {
            Event::Connected(r) => Event::Connected(
                match r {
                    Ok(_) => Ok(()),
                    Err(e) => Err(e@),
                },
            ),
            Event::Followed(r) => Event::Followed(bus_result(r)),
            Event::Owner(r) => Event::Owner(bus_result(r)),
            Event::Opened(r) => Event::Opened(
                match r {
                    Ok(_) => Ok(()),
                    Err(e) => Err(e@),
                },
            ),
            Event::Subscribed(r) => Event::Subscribed(bus_result(r)),
            Event::Gathered(r) => Event::Gathered(
                match r {
                    Ok(s) => Ok(s@),
                    Err(e) => Err(e@),
                },
            ),
            Event::OwnerChanged => Event::OwnerChanged,
            Event::OwnersEnded => Event::OwnersEnded,
            Event::SignalsEnded => Event::SignalsEnded,
            Event::MountChanged(v) => Event::MountChanged(v@),
            Event::MountRemoved(n) => Event::MountRemoved(n@),
            Event::TransferChanged(v) => Event::TransferChanged(v@),
            Event::Refresh => Event::Refresh,
            Event::Elapsed => Event::Elapsed,
        }
    }
}

/// What to change in the tray.
pub enum Edit<S = String, F = Vec<TransferFile>, M = Vec<MountView>, T = Vec<TransferView>> {
    Nothing,
    /// The link is down, for this reason.
    Down(LinkError<S>),
    /// A fresh attachment.
    Up(Snapshot<S, M, T>),
    /// The same attachment, read again.
    Resync(Snapshot<S, M, T>),
    Mount(MountView<S>),
    Removed(S),
    Transfer(TransferView<S, F>),
}

/// An edit by its view.
pub type EditModel = Edit<
    Seq<char>,
    Seq<TransferFile<Seq<char>>>,
    Seq<MountView<Seq<char>>>,
    Seq<TransferViewModel>,
>;

impl View for Edit {
    type V = EditModel;

    open spec fn view(&self) -> EditModel {
        match *self {
            Edit::Nothing => Edit::Nothing,
            Edit::Down(e) => Edit::Down(e@),
            Edit::Up(s) => Edit::Up(s@),
            Edit::Resync(s) => Edit::Resync(s@),
            Edit::Mount(v) => Edit::Mount(v@),
            Edit::Removed(n) => Edit::Removed(n@),
            Edit::Transfer(v) => Edit::Transfer(v@),
        }
    }
}

/// What becomes of the link that actions go over.
#[derive(Debug, Clone, Copy, PartialEq, Eq, Structural)]
pub enum Handle {
    Keep,
    /// No action may go over it any more.
    Drop,
    /// Actions may go over it from now on.
    Publish,
}

/// A session with the service.
pub struct Session {
    stage: Stage,
    backoff: Backoff,
}

/// A session by its view.
pub struct SessionModel {
    pub stage: Stage,
    /// The wait that comes next, in seconds.
    pub wait: u64,
}

impl View for Session {
    type V = SessionModel;

    closed spec fn view(&self) -> SessionModel {
        SessionModel { stage: self.stage, wait: self.backoff.next() }
    }
}

/// What an event leads to.
pub struct Turn<E> {
    pub edit: E,
    pub handle: Handle,
    /// Whether the session ends if the tray turns out to be gone when it is edited. Where
    /// the bus itself failed that shows at the next edit.
    pub heeds_gone: bool,
}

/// A turn by its view.
pub open spec fn turn(edit: EditModel, handle: Handle, heeds_gone: bool) -> Turn<EditModel> {
    Turn { edit, handle, heeds_gone }
}

impl SessionModel {
    /// The session at another stage.
    pub open spec fn at(self, stage: Stage) -> SessionModel {
        SessionModel { stage, ..self }
    }

    /// The session waiting, longer than the last time.
    pub open spec fn paused(self, attached: bool) -> SessionModel {
        SessionModel {
            stage: Stage::Pause { secs: self.wait, attached },
            wait: longer(self.wait),
        }
    }

    /// The session starting over at once.
    pub open spec fn again(self, stage: Stage) -> SessionModel {
        SessionModel { stage, wait: Backoff::FIRST }
    }

    /// What a failure leads to, and the wait that follows it.
    pub open spec fn failed(
        self,
        e: LinkError<Seq<char>>,
        attached: bool,
        heeds_gone: bool,
    ) -> (SessionModel, Turn<EditModel>) {
        (self.paused(attached), turn(Edit::Down(e), Handle::Drop, heeds_gone))
    }

    /// A stage without anything to change.
    pub open spec fn quietly(self) -> (SessionModel, Turn<EditModel>) {
        (self, turn(Edit::Nothing, Handle::Keep, true))
    }

    /// What an event leads to. An event that the stage does not wait for changes nothing.
    pub open spec fn next(self, e: EventModel) -> (SessionModel, Turn<EditModel>) {
        match (self.stage, e) {
            (Stage::Connect, Event::Connected(Ok(_))) => self.at(Stage::Follow).quietly(),
            (Stage::Connect, Event::Connected(Err(t))) => self.failed(
                LinkError::NoSessionBus(t),
                false,
                true,
            ),
            (Stage::Follow, Event::Followed(Ok(_))) => self.at(Stage::AskOwner).quietly(),
            (Stage::Follow, Event::Followed(Err(z))) => self.failed(link_failure(z), false, false),
            (Stage::AskOwner, Event::Owner(Ok(owned))) => if owned {
                self.at(Stage::Open).quietly()
            } else {
                (
                    self.at(Stage::AwaitOwner),
                    turn(Edit::Down(LinkError::NotRunning), Handle::Drop, true),
                )
            },
            (Stage::AskOwner, Event::Owner(Err(z))) => self.failed(link_failure(z), false, false),
            (Stage::AwaitOwner, Event::OwnerChanged) => self.again(Stage::AskOwner).quietly(),
            (Stage::AwaitOwner, Event::Refresh) => self.again(Stage::AskOwner).quietly(),
            (Stage::AwaitOwner, Event::OwnersEnded) => self.paused(false).quietly(),
            (Stage::Open, Event::Opened(Ok(_))) => self.at(Stage::Subscribe).quietly(),
            (Stage::Open, Event::Opened(Err(e))) => self.failed(e, true, true),
            (Stage::Subscribe, Event::Subscribed(Ok(_))) => self.at(Stage::Gather).quietly(),
            (Stage::Subscribe, Event::Subscribed(Err(z))) => self.failed(
                link_failure(z),
                true,
                true,
            ),
            (Stage::Gather, Event::Gathered(Ok(s))) => (
                self.at(Stage::Serve),
                turn(Edit::Up(s), Handle::Publish, true),
            ),
            (Stage::Gather, Event::Gathered(Err(e))) => self.failed(e, true, true),
            (Stage::Serve, Event::MountChanged(v)) => (
                self,
                turn(Edit::Mount(v), Handle::Keep, true),
            ),
            (Stage::Serve, Event::MountRemoved(n)) => (
                self,
                turn(Edit::Removed(n), Handle::Keep, true),
            ),
            (Stage::Serve, Event::TransferChanged(v)) => (
                self,
                turn(Edit::Transfer(v), Handle::Keep, true),
            ),
            (Stage::Serve, Event::SignalsEnded) => self.failed(signals_ended(), false, true),
            (Stage::Serve, Event::OwnerChanged) => (
                self.again(Stage::AskOwner),
                turn(Edit::Down(owner_changed()), Handle::Drop, true),
            ),
            (Stage::Serve, Event::OwnersEnded) => self.failed(owners_ended(), false, true),
            (Stage::Serve, Event::Refresh) => self.at(Stage::Regather).quietly(),
            (Stage::Regather, Event::Gathered(Ok(s))) => (
                self.at(Stage::Serve),
                turn(Edit::Resync(s), Handle::Keep, true),
            ),
            (Stage::Regather, Event::Gathered(Err(e))) => self.failed(e, true, true),
            (Stage::Pause { attached, .. }, Event::Elapsed) => self.at(
                if attached {
                    Stage::AskOwner
                } else {
                    Stage::Connect
                },
            ).quietly(),
            (Stage::Pause { attached, .. }, Event::Refresh) => self.again(
                if attached {
                    Stage::AskOwner
                } else {
                    Stage::Connect
                },
            ).quietly(),
            (Stage::Pause { attached: true, .. }, Event::OwnerChanged) => self.at(
                Stage::AskOwner,
            ).quietly(),
            (Stage::Pause { attached: true, .. }, Event::OwnersEnded) => self.paused(
                false,
            ).quietly(),
            _ => self.quietly(),
        }
    }
}

/// What is said when the service's name was dropped, or taken by another process.
pub open spec fn owner_changed() -> LinkError<Seq<char>> {
    LinkError::Transport("its name changed owner"@)
}

/// What is said when the owner of the service's name can no longer be followed.
pub open spec fn owners_ended() -> LinkError<Seq<char>> {
    LinkError::Transport("the bus stopped saying who owns its name"@)
}

/// What is said when the service's signals can no longer be followed.
pub open spec fn signals_ended() -> LinkError<Seq<char>> {
    LinkError::Transport("the bus stopped delivering its signals"@)
}

/// The tray with a change made.
pub open spec fn edited(v: TrayView, e: EditModel) -> TrayView {
    match e {
        Edit::Nothing => v,
        Edit::Down(e) => v.fallen(e),
        Edit::Up(s) => v.risen(s.info, s.mounts, None).with_transfers(s.transfers),
        Edit::Resync(s) => v.risen(s.info, s.mounts, v.notice).with_transfers(s.transfers),
        Edit::Mount(m) => v.with_mount(m),
        Edit::Removed(n) => v.without_mount(n),
        Edit::Transfer(t) => v.with_transfer(t),
    }
}

/// Make a change to the tray.
pub fn apply(m: &mut TrayModel, e: Edit)
    ensures
        final(m)@ == edited(old(m)@, e@),
{
    match e {
        Edit::Nothing => {},
        Edit::Down(e) => m.go_down(&e),
        Edit::Up(s) => {
            m.go_up(s.info, s.mounts);
            m.upsert_transfers(&s.transfers);
        },
        Edit::Resync(s) => {
            m.resync(s.info, s.mounts);
            m.upsert_transfers(&s.transfers);
        },
        Edit::Mount(v) => m.upsert_mount(v),
        Edit::Removed(n) => m.remove_mount(n.as_str()),
        Edit::Transfer(v) => m.upsert_transfer(&v),
    }
}

impl Session {
    /// A session that has not begun.
    pub fn new() -> (r: Session)
        ensures
            r@ == (SessionModel { stage: Stage::Connect, wait: Backoff::FIRST }),
    {
        Session { stage: Stage::Connect, backoff: Backoff::new() }
    }

    /// What is to be done next.
    pub fn stage(&self) -> (r: Stage)
        ensures
            r == self@.stage,
    {
        self.stage
    }

    fn quiet(&mut self, stage: Stage) -> (r: Turn<Edit>)
        ensures
            final(self)@ == old(self)@.at(stage),
            turn(r.edit@, r.handle, r.heeds_gone) == turn(Edit::Nothing, Handle::Keep, true),
    {
        self.stage = stage;
        Turn { edit: Edit::Nothing, handle: Handle::Keep, heeds_gone: true }
    }

    fn restart(&mut self, stage: Stage) -> (r: Turn<Edit>)
        ensures
            final(self)@ == old(self)@.again(stage),
            turn(r.edit@, r.handle, r.heeds_gone) == turn(Edit::Nothing, Handle::Keep, true),
    {
        self.backoff.reset();
        self.stage = stage;
        Turn { edit: Edit::Nothing, handle: Handle::Keep, heeds_gone: true }
    }

    fn pause(&mut self, attached: bool) -> (r: Turn<Edit>)
        ensures
            final(self)@ == old(self)@.paused(attached),
            turn(r.edit@, r.handle, r.heeds_gone) == turn(Edit::Nothing, Handle::Keep, true),
    {
        let secs: u64 = self.backoff.take();
        self.stage = Stage::Pause { secs, attached };
        Turn { edit: Edit::Nothing, handle: Handle::Keep, heeds_gone: true }
    }

    fn fail(&mut self, e: LinkError, attached: bool, heeds_gone: bool) -> (r: Turn<Edit>)
        ensures
            (final(self)@, turn(r.edit@, r.handle, r.heeds_gone)) == old(self)@.failed(
                e@,
                attached,
                heeds_gone,
            ),
    {
        self.pause(attached);
        Turn { edit: Edit::Down(e), handle: Handle::Drop, heeds_gone }
    }

    fn stay(&mut self, edit: Edit) -> (r: Turn<Edit>)
        ensures
            final(self)@ == old(self)@,
            turn(r.edit@, r.handle, r.heeds_gone) == turn(edit@, Handle::Keep, true),
    {
        Turn { edit, handle: Handle::Keep, heeds_gone: true }
    }

    fn serving(&mut self, e: Event) -> (r: Turn<Edit>)
        requires
            old(self)@.stage == Stage::Serve,
        ensures
            (final(self)@, turn(r.edit@, r.handle, r.heeds_gone)) == old(self)@.next(e@),
    {
        match e {
            Event::MountChanged(v) => self.stay(Edit::Mount(v)),
            Event::MountRemoved(n) => self.stay(Edit::Removed(n)),
            Event::TransferChanged(v) => self.stay(Edit::Transfer(v)),
            Event::SignalsEnded => self.fail(
                LinkError::Transport("the bus stopped delivering its signals".to_owned()),
                false,
                true,
            ),
            Event::OwnerChanged => {
                // Whether the name was dropped or handed to a new process, this link is
                // gone, and what came over it with it. Starting again decides which of the
                // two it was.
                self.restart(Stage::AskOwner);
                Turn {
                    edit: Edit::Down(LinkError::Transport("its name changed owner".to_owned())),
                    handle: Handle::Drop,
                    heeds_gone: true,
                }
            },
            Event::OwnersEnded => self.fail(
                LinkError::Transport("the bus stopped saying who owns its name".to_owned()),
                false,
                true,
            ),
            // Read again over the link that is open: starting over would drop what explains
            // why the last action was refused, to learn the same thing.
            Event::Refresh => self.quiet(Stage::Regather),
            _ => self.stay(Edit::Nothing),
        }
    }

    fn pausing(&mut self, attached: bool, e: Event) -> (r: Turn<Edit>)
        requires
            old(self)@.stage matches Stage::Pause { attached: a, .. } && a == attached,
        ensures
            (final(self)@, turn(r.edit@, r.handle, r.heeds_gone)) == old(self)@.next(e@),
    {
        let stage = if attached {
            Stage::AskOwner
        } else {
            Stage::Connect
        };
        match e {
            Event::Elapsed => self.quiet(stage),
            Event::Refresh => self.restart(stage),
            Event::OwnerChanged => if attached {
                self.quiet(stage)
            } else {
                self.stay(Edit::Nothing)
            },
            Event::OwnersEnded => if attached {
                self.pause(false)
            } else {
                self.stay(Edit::Nothing)
            },
            _ => self.stay(Edit::Nothing),
        }
    }

    fn attaching(&mut self, e: Event) -> (r: Turn<Edit>)
        requires
            !(old(self)@.stage is Pause),
            old(self)@.stage != Stage::Serve,
        ensures
            (final(self)@, turn(r.edit@, r.handle, r.heeds_gone)) == old(self)@.next(e@),
    {
        match (self.stage, e) {
            (Stage::Connect, Event::Connected(Ok(_))) => self.quiet(Stage::Follow),
            (Stage::Connect, Event::Connected(Err(t))) => self.fail(
                LinkError::NoSessionBus(t),
                false,
                true,
            ),
            (Stage::Follow, Event::Followed(Ok(_))) => self.quiet(Stage::AskOwner),
            (Stage::Follow, Event::Followed(Err(z))) => self.fail(from_zbus(z), false, false),
            (Stage::AskOwner, Event::Owner(Ok(true))) => self.quiet(Stage::Open),
            (Stage::AskOwner, Event::Owner(Ok(false))) => {
                // Nothing to retry: the name being taken is itself the signal.
                self.stage = Stage::AwaitOwner;
                Turn {
                    edit: Edit::Down(LinkError::NotRunning),
                    handle: Handle::Drop,
                    heeds_gone: true,
                }
            },
            (Stage::AskOwner, Event::Owner(Err(z))) => self.fail(from_zbus(z), false, false),
            (Stage::AwaitOwner, Event::OwnerChanged) => self.restart(Stage::AskOwner),
            (Stage::AwaitOwner, Event::Refresh) => self.restart(Stage::AskOwner),
            (Stage::AwaitOwner, Event::OwnersEnded) => self.pause(false),
            (Stage::Open, Event::Opened(Ok(_))) => self.quiet(Stage::Subscribe),
            // The name is owned but the handshake failed: an incompatible service, or one
            // that is not answering yet. Neither is fixed by asking again at once.
            (Stage::Open, Event::Opened(Err(e))) => self.fail(e, true, true),
            (Stage::Subscribe, Event::Subscribed(Ok(_))) => self.quiet(Stage::Gather),
            (Stage::Subscribe, Event::Subscribed(Err(z))) => self.fail(from_zbus(z), true, true),
            (Stage::Gather, Event::Gathered(Ok(s))) => {
                self.stage = Stage::Serve;
                Turn { edit: Edit::Up(s), handle: Handle::Publish, heeds_gone: true }
            },
            (Stage::Gather, Event::Gathered(Err(e))) => self.fail(e, true, true),
            (Stage::Regather, Event::Gathered(Ok(s))) => {
                self.stage = Stage::Serve;
                Turn { edit: Edit::Resync(s), handle: Handle::Keep, heeds_gone: true }
            },
            (Stage::Regather, Event::Gathered(Err(e))) => self.fail(e, true, true),
            _ => self.stay(Edit::Nothing),
        }
    }

    /// Go on with what happened, and say what to change.
    pub fn step(&mut self, e: Event) -> (r: Turn<Edit>)
        ensures
            (final(self)@, turn(r.edit@, r.handle, r.heeds_gone)) == old(self)@.next(e@),
    {
        match self.stage {
            Stage::Serve => self.serving(e),
            Stage::Pause { secs: _, attached } => self.pausing(attached, e),
            _ => self.attaching(e),
        }
    }
}

/// Where a run of events takes a session and a tray, each change being made as it comes.
pub open spec fn played(events: Seq<EventModel>, v: TrayView) -> (SessionModel, TrayView)
    decreases events.len(),
{
    if events.len() == 0 {
        (SessionModel { stage: Stage::Connect, wait: Backoff::FIRST }, v)
    } else {
        let (s, t) = played(events.drop_last(), v);
        let (next, turn) = s.next(events.last());
        (next, edited(t, turn.edit))
    }
}

/// The mounts are read only once the signals are subscribed to, the signals are subscribed
/// to only once the link is open, and the link is opened only once the bus has said that
/// somebody owns the service's name. A session reads again only while it is serving.
pub proof fn the_orderings_of_a_session(s: SessionModel, e: EventModel)
    ensures
        s.next(e).0.stage == Stage::Gather && s.stage != Stage::Gather ==> s.stage
            == Stage::Subscribe && e->Subscribed_0 is Ok,
        s.next(e).0.stage == Stage::Subscribe && s.stage != Stage::Subscribe ==> s.stage
            == Stage::Open && e->Opened_0 is Ok,
        s.next(e).0.stage == Stage::Open && s.stage != Stage::Open ==> s.stage == Stage::AskOwner
            && e->Owner_0 == Ok::<bool, BusFailure<Seq<char>>>(true),
        s.next(e).0.stage == Stage::Regather && s.stage != Stage::Regather ==> s.stage
            == Stage::Serve,
        s.next(e).1.edit is Up ==> s.stage == Stage::Gather,
        s.next(e).1.handle == Handle::Publish ==> s.next(e).0.stage == Stage::Serve,
{
}

/// After every failure the tray shows no mount and holds no reading, and no action can go
/// over the link any more. A session that loses its link fails so: whatever takes it from
/// following the service, or from reading it again, to anything else, a pause in particular,
/// clears the tray. Waiting for the service to appear begins with saying that it is not
/// running.
pub proof fn a_failure_clears_the_tray(s: SessionModel, e: EventModel, v: TrayView)
    ensures
        s.next(e).1.edit is Down ==> {
            let t = edited(v, s.next(e).1.edit);
            &&& t.mounts.len() == 0
            &&& t.transfers.len() == 0
            &&& t.link is Down
            &&& s.next(e).1.handle == Handle::Drop
        },
        attached(s.stage) && !attached(s.next(e).0.stage) ==> s.next(e).1.edit is Down
            && s.next(e).1.handle == Handle::Drop,
        attached(s.stage) && s.next(e).0.stage is Pause ==> s.next(e).1.edit is Down
            && s.next(e).1.handle == Handle::Drop,
        s.next(e).0.stage == Stage::AwaitOwner && s.stage != Stage::AwaitOwner ==> s.next(e).1.edit
            is Down,
{
}

/// Whether a session is attached to the service at this stage.
pub open spec fn attached(stage: Stage) -> bool {
    stage == Stage::Serve || stage == Stage::Regather
}

/// Mounts and readings are shown only while the session is attached to the service they came
/// from: at every other moment of every run, the tray holds none.
pub proof fn rows_are_shown_only_while_attached(events: Seq<EventModel>, v: TrayView)
    requires
        v.mounts.len() == 0,
        v.transfers.len() == 0,
    ensures
        !attached(played(events, v).0.stage) ==> {
            &&& played(events, v).1.mounts.len() == 0
            &&& played(events, v).1.transfers.len() == 0
        },
    decreases events.len(),
{
    if events.len() > 0 {
        rows_are_shown_only_while_attached(events.drop_last(), v);
    }
}

/// A tray has rows only if some reading of everything succeeded.
pub proof fn rows_come_from_the_service_alone(events: Seq<EventModel>, v: TrayView)
    requires
        v.mounts.len() == 0,
        v.transfers.len() == 0,
        forall|i: int|
            0 <= i < events.len() ==> !((#[trigger] events[i]) is Gathered
                && events[i]->Gathered_0 is Ok),
    ensures
        played(events, v).1.mounts.len() == 0,
        played(events, v).1.transfers.len() == 0,
        played(events, v).0.stage != Stage::Serve,
        played(events, v).0.stage != Stage::Regather,
    decreases events.len(),
{
    if events.len() > 0 {
        let before = events.drop_last();
        assert forall|i: int| 0 <= i < before.len() implies !((#[trigger] before[i]) is Gathered
            && before[i]->Gathered_0 is Ok) by {
            assert(before[i] == events[i]);
        }
        rows_come_from_the_service_alone(before, v);
        assert(events[events.len() - 1] == events.last());
    }
}

/// However long an outage lasts, a session never waits longer than the longest wait.
pub proof fn a_session_never_waits_long(events: Seq<EventModel>, v: TrayView)
    ensures
        Backoff::FIRST <= played(events, v).0.wait <= Backoff::CEILING,
        played(events, v).0.stage matches Stage::Pause { secs, .. } ==> Backoff::FIRST <= secs
            <= Backoff::CEILING,
    decreases events.len(),
{
    if events.len() > 0 {
        a_session_never_waits_long(events.drop_last(), v);
    }
}

/// Reading again keeps what was said of the last action; a fresh attachment does not.
pub proof fn a_refresh_keeps_the_notice(s: SessionModel, e: EventModel, v: TrayView)
    ensures
        s.next(e).1.edit is Resync ==> edited(v, s.next(e).1.edit).notice == v.notice,
        s.next(e).1.edit is Up ==> edited(v, s.next(e).1.edit).notice is None,
{
    if let Edit::Resync(x) = s.next(e).1.edit {
        lemma_readings_leave_the_notice(
            v.risen(x.info, x.mounts, v.notice),
            x.transfers,
        );
    }
    if let Edit::Up(x) = s.next(e).1.edit {
        lemma_readings_leave_the_notice(v.risen(x.info, x.mounts, None), x.transfers);
    }
}

proof fn lemma_readings_leave_the_notice(v: TrayView, ts: Seq<TransferViewModel>)
    ensures
        v.with_transfers(ts).notice == v.notice,
    decreases ts.len(),
{
    if ts.len() > 0 {
        lemma_readings_leave_the_notice(v, ts.drop_last());
    }
}

} // verus!
