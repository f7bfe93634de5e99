//! What the tray knows, and the readings it takes from that.
//!
//! Everything here is a function of what the service published. The icon and the menu render
//! it, and the session with the service fills it in.

use crate::ipc::{transfer_of_view, transfer_state, MountView, TransferView, TransferViewModel};
use crate::link::LinkError;
use crate::quantity::{
    bytes_text, eta_phrase, eta_text, human_bytes, pending_phrase, pending_text,
};
use crate::registry::MountRows;
use crate::table::{row_at, row_view, row_views, with_row, without_row, Table};
use crate::text::{decimal, digits, opt_text, same_text, views};
use crate::transfer::{capped_sum, Tier, TransferModel, TransferState};
use vstd::prelude::*;
use vstd::string::*;

verus! {

/// Something the user asked for.
#[derive(Debug, Clone, PartialEq, Eq)]
pub enum Action<S = String> {
    /// Bring a configured mount up.
    Mount(S),
    /// Take one down. Never forced from the menu: forcing severs a write in flight, and the
    /// command line is where that is chosen deliberately.
    Unmount(S),
    /// Hand a mount point to the desktop's file manager.
    Open(S),
    /// Start or stop the service's user unit.
    StartService,
    StopService,
    /// Re-read everything from the service.
    Refresh,
    /// Close the icon. Mounts are unaffected.
    Quit,
}

impl View for Action {
    type V = Action<Seq<char>>;

    open spec fn view(&self) -> Action<Seq<char>> {
        match *self {
            Action::Mount(n) => Action::Mount(n@),
            Action::Unmount(n) => Action::Unmount(n@),
            Action::Open(p) => Action::Open(p@),
            Action::StartService => Action::StartService,
            Action::StopService => Action::StopService,
            Action::Refresh => Action::Refresh,
            Action::Quit => Action::Quit,
        }
    }
}

/// A link that is not usable, reduced to what the menu shows.
#[derive(Debug, Clone, PartialEq, Eq)]
pub struct Down<S = String> {
    /// The first line of the menu.
    pub headline: S,
    /// Whether starting the unit is the thing to offer. Only for a service that is simply
    /// not running: starting it fixes nothing when the bus is absent or the versions differ.
    pub offer_start: bool,
}

impl View for Down {
    type V = Down<Seq<char>>;

    open spec fn view(&self) -> Down<Seq<char>> {
        Down { headline: self.headline@, offer_start: self.offer_start }
    }
}

/// What the menu shows of a failure of the link.
pub open spec fn down_of(e: LinkError<Seq<char>>) -> Down<Seq<char>> {
    match e {
        LinkError::NotRunning => Down {
            headline: "The service is not running"@,
            offer_start: true,
        },
        LinkError::NoSessionBus(_) => Down {
            headline: "No session bus to reach"@,
            offer_start: false,
        },
        LinkError::Incompatible => Down {
            headline: "The service speaks a different interface — update both halves"@,
            offer_start: false,
        },
        LinkError::TooOld { needed, found } => Down {
            headline: "The service is too old: it offers interface "@ + digits(found as nat)
                + ", this needs "@ + digits(needed as nat),
            offer_start: false,
        },
        _ => Down { headline: e.sentence(), offer_start: false },
    }
}

impl Down {
    /// What the menu shows of a failure of the link. A refusal stands in the service's own
    /// words.
    pub fn from_error(e: &LinkError) -> (r: Down)
        ensures
            r@ == down_of(e@),
    {
        match e {
            LinkError::NotRunning => Down {
                headline: "The service is not running".to_owned(),
                offer_start: true,
            },
            LinkError::NoSessionBus(_) => Down {
                headline: "No session bus to reach".to_owned(),
                offer_start: false,
            },
            LinkError::Incompatible => Down {
                headline: "The service speaks a different interface — update both halves".to_owned(),
                offer_start: false,
            },
            LinkError::TooOld { needed, found } => {
                let mut s = "The service is too old: it offers interface ".to_owned();
                s.append(decimal(*found as u64).as_str());
                s.append(", this needs ");
                s.append(decimal(*needed as u64).as_str());
                Down { headline: s, offer_start: false }
            },
            LinkError::Refused(_) | LinkError::Transport(_) => Down {
                headline: e.message(),
                offer_start: false,
            },
        }
    }
}

/// What the service says about itself.
#[derive(Debug, Clone, PartialEq, Eq)]
pub struct ServiceInfo<S = String> {
    pub service_version: S,
    pub interface_version: u32,
    pub rclone_version: S,
    pub capability_tier: S,
}

impl View for ServiceInfo {
    type V = ServiceInfo<Seq<char>>;

    open spec fn view(&self) -> ServiceInfo<Seq<char>> {
        ServiceInfo {
            service_version: self.service_version@,
            interface_version: self.interface_version,
            rclone_version: self.rclone_version@,
            capability_tier: self.capability_tier@,
        }
    }
}

/// Whether the tray can currently see the service, and what it knows if so.
#[derive(Debug, Clone, PartialEq, Eq)]
pub enum Link<S = String> {
    /// Before the first attempt has resolved. Says nothing yet.
    Connecting,
    /// No usable link, and why.
    Down(Down<S>),
    /// Connected, and the versions agreed.
    Up(ServiceInfo<S>),
}

impl View for Link {
    type V = Link<Seq<char>>;

    open spec fn view(&self) -> Link<Seq<char>> {
        match *self {
            Link::Connecting => Link::Connecting,
            Link::Down(d) => Link::Down(d@),
            Link::Up(i) => Link::Up(i@),
        }
    }
}

/// The outcome of an action, kept until it stops being true.
#[derive(Debug, Clone, PartialEq, Eq)]
pub struct Notice<S = String> {
    /// The mount it was about, if it was about one.
    pub mount: Option<S>,
    pub text: S,
}

impl View for Notice {
    type V = Notice<Seq<char>>;

    open spec fn view(&self) -> Notice<Seq<char>> {
        Notice { mount: opt_text(self.mount), text: self.text@ }
    }
}

/// What the icon says.
///
/// Ordered by how loudly: `Disconnected` outranks everything because nothing below it can be
/// known without a link, and `Degraded` outranks `Syncing` because a figure that cannot be
/// vouched for must not be presented as progress.
#[derive(Debug, Clone, Copy, PartialEq, Eq, Structural)]
pub enum TrayState {
    /// The first attempt has not resolved.
    Connecting,
    /// The service is not reachable. Says nothing whatever about the mounts.
    Disconnected,
    /// A mount failed, uploads errored, or the cache is full. The user has to act.
    Attention,
    /// Serving, but what is outstanding cannot be established.
    Degraded,
    /// Uploads pending or in flight. Normal operation.
    Syncing,
    /// Nothing is serving.
    Offline,
    /// Everything up, nothing outstanding.
    Idle,
}

impl TrayState {
    /// The name of the icon.
    pub open spec fn icon(self) -> Seq<char> {
        match self {
            TrayState::Connecting => "image-loading"@,
            TrayState::Disconnected => "network-error"@,
            TrayState::Attention => "dialog-warning"@,
            TrayState::Degraded => "dialog-question"@,
            TrayState::Syncing => "sync-synchronizing"@,
            TrayState::Offline => "network-offline"@,
            TrayState::Idle => "folder-remote"@,
        }
    }

    /// The state in words.
    pub open spec fn words(self) -> Seq<char> {
        match self {
            TrayState::Connecting => "Connecting…"@,
            TrayState::Disconnected => "Service unreachable"@,
            TrayState::Attention => "Needs attention"@,
            TrayState::Degraded => "State partly unknown"@,
            TrayState::Syncing => "Uploading"@,
            TrayState::Offline => "Nothing mounted"@,
            TrayState::Idle => "Up to date"@,
        }
    }

    /// A name of the freedesktop icon naming specification, so that the panel resolves it in
    /// any theme.
    pub fn icon_name(self) -> (r: &'static str)
        ensures
            r@ == self.icon(),
    {
        match self {
            TrayState::Connecting => "image-loading",
            TrayState::Disconnected => "network-error",
            TrayState::Attention => "dialog-warning",
            // The state is not wrong, it is unreadable, which is what a question mark says.
            TrayState::Degraded => "dialog-question",
            TrayState::Syncing => "sync-synchronizing",
            TrayState::Offline => "network-offline",
            TrayState::Idle => "folder-remote",
        }
    }

    /// Whether the panel should emphasise the icon. Only for what the user has to act on:
    /// an icon that shouts through every large copy is one people learn to ignore.
    pub fn needs_attention(self) -> (r: bool)
        ensures
            r == (self == TrayState::Attention),
    {
        match self {
            TrayState::Attention => true,
            _ => false,
        }
    }

    /// The first line of the tooltip.
    pub fn label(self) -> (r: &'static str)
        ensures
            r@ == self.words(),
    {
        match self {
            TrayState::Connecting => "Connecting…",
            TrayState::Disconnected => "Service unreachable",
            TrayState::Attention => "Needs attention",
            TrayState::Degraded => "State partly unknown",
            TrayState::Syncing => "Uploading",
            TrayState::Offline => "Nothing mounted",
            TrayState::Idle => "Up to date",
        }
    }
}

/// The aggregate across live mounts.
#[derive(Debug, Clone, Copy, PartialEq, Eq, Structural)]
pub struct Summary {
    /// Rows the service listed, however they got there.
    pub total: usize,
    /// Of those, the ones serving.
    pub live: usize,
    /// Mounts that failed and gave up.
    pub failed: usize,
    /// Live mounts whose outstanding work cannot be vouched for.
    pub unobservable: usize,
    pub files: u64,
    pub bytes: u64,
    pub unknown_size_files: u64,
    pub errored: u64,
    pub out_of_space: bool,
    /// Summed across the mounts that report one.
    pub rate: Option<u64>,
    /// Bytes still to send, or `None` when any pending mount cannot give an honest total.
    pub remaining: Option<u64>,
    /// Whether any figure came from a cache walk rather than from rclone's queue.
    pub dirty_on_disk_only: bool,
}

impl Default for Summary {
    fn default() -> (r: Summary)
        ensures
            r == blank_summary(),
    {
        Summary {
            total: 0,
            live: 0,
            failed: 0,
            unobservable: 0,
            files: 0,
            bytes: 0,
            unknown_size_files: 0,
            errored: 0,
            out_of_space: false,
            rate: None,
            remaining: None,
            dirty_on_disk_only: false,
        }
    }
}

/// The summary of nothing.
pub open spec fn blank_summary() -> Summary {
    Summary {
        total: 0,
        live: 0,
        failed: 0,
        unobservable: 0,
        files: 0,
        bytes: 0,
        unknown_size_files: 0,
        errored: 0,
        out_of_space: false,
        rate: None,
        remaining: None,
        dirty_on_disk_only: false,
    }
}

/// Rows of readings by mount name.
pub type ReadingRows = Seq<(Seq<char>, TransferModel)>;

/// Whether a mount has failed.
pub open spec fn has_failed(m: MountView<Seq<char>>) -> bool {
    m.state == "failed"@
}

/// Whether a reading cannot be vouched for.
pub open spec fn blind(t: TransferModel) -> bool {
    t.degraded_reason is Some || !t.outstanding_known
}

/// Whether a reading's remaining bytes are all there are. One file of unknown size is enough
/// to make them useless for an estimate.
pub open spec fn vouched(t: TransferModel) -> bool {
    t.has_total() && t.outstanding_known && t.pending.unknown_size_files == 0
}

/// A number, or zero where there is none.
pub open spec fn or_zero(n: Option<u64>) -> u64 {
    match n {
        Some(v) => v,
        None => 0,
    }
}

/// A summary with one more reading of a live mount.
pub open spec fn with_reading(s: Summary, t: TransferModel) -> Summary {
    Summary {
        unobservable: if blind(t) {
            (s.unobservable + 1) as usize
        } else {
            s.unobservable
        },
        files: capped_sum(s.files, t.pending.files),
        bytes: capped_sum(s.bytes, t.pending.known_bytes),
        unknown_size_files: capped_sum(s.unknown_size_files, t.pending.unknown_size_files),
        errored: capped_sum(s.errored, or_zero(t.errored_files)),
        out_of_space: s.out_of_space || t.out_of_space == Some(true),
        rate: match t.rate_bytes_per_sec {
            Some(r) => Some(capped_sum(or_zero(s.rate), r)),
            None => s.rate,
        },
        remaining: if t.pending.files > 0 {
            match s.remaining {
                Some(acc) => if vouched(t) {
                    Some(capped_sum(acc, t.remaining()))
                } else {
                    None
                },
                None => None,
            }
        } else {
            s.remaining
        },
        dirty_on_disk_only: s.dirty_on_disk_only || t.fidelity == Some(Tier::T4),
        ..s
    }
}

/// A summary with one more mount. Outstanding work is counted over live mounts alone: one
/// that is deliberately down reports nothing, and counting that as unknown would leave the
/// tray unable to say anything about the others. A live mount without a reading counts as
/// one that cannot be seen.
pub open spec fn counted(
    s: Summary,
    m: MountView<Seq<char>>,
    reading: Option<TransferModel>,
) -> Summary {
    let s = if has_failed(m) {
        Summary { failed: (s.failed + 1) as usize, ..s }
    } else {
        s
    };
    if !m.live {
        s
    } else {
        let s = Summary { live: (s.live + 1) as usize, ..s };
        match reading {
            None => Summary { unobservable: (s.unobservable + 1) as usize, ..s },
            Some(t) => with_reading(s, t),
        }
    }
}

/// What rows amount to, before the whole is judged.
pub open spec fn tally(rows: MountRows, readings: ReadingRows) -> Summary
    decreases rows.len(),
{
    if rows.len() == 0 {
        Summary { remaining: Some(0), ..blank_summary() }
    } else {
        counted(
            tally(rows.drop_last(), readings),
            rows.last().1,
            row_at(readings, rows.last().1.name),
        )
    }
}

/// The summary of rows. What is left to send is known only where every live mount could be
/// seen.
pub open spec fn summary_of(rows: MountRows, readings: ReadingRows) -> Summary {
    let t = tally(rows, readings);
    Summary {
        total: rows.len() as usize,
        remaining: if t.unobservable == 0 {
            t.remaining
        } else {
            None
        },
        ..t
    }
}

/// Everything the tray holds, by its view.
pub struct TrayView {
    pub link: Link<Seq<char>>,
    pub mounts: MountRows,
    pub transfers: ReadingRows,
    pub notice: Option<Notice<Seq<char>>>,
}

/// What the icon says of a summary.
pub open spec fn state_of_summary(s: Summary) -> TrayState {
    if s.failed > 0 || s.errored > 0 || s.out_of_space {
        TrayState::Attention
    } else if s.unobservable > 0 {
        TrayState::Degraded
    } else if s.files > 0 {
        TrayState::Syncing
    } else if s.live == 0 {
        TrayState::Offline
    } else {
        TrayState::Idle
    }
}

impl TrayView {
    /// The summary of what the tray holds.
    pub open spec fn sum(self) -> Summary {
        summary_of(self.mounts, self.transfers)
    }

    /// What the icon says.
    pub open spec fn icon_state(self) -> TrayState {
        match self.link {
            Link::Connecting => TrayState::Connecting,
            Link::Down(_) => TrayState::Disconnected,
            Link::Up(_) => state_of_summary(self.sum()),
        }
    }

    /// The tray without anything a service told it.
    pub open spec fn fallen(self, e: LinkError<Seq<char>>) -> TrayView {
        TrayView {
            link: Link::Down(down_of(e)),
            mounts: Seq::empty(),
            transfers: Seq::empty(),
            notice: None,
        }
    }

    /// The tray with a fresh snapshot, and what it says of the last action.
    pub open spec fn risen(
        self,
        info: ServiceInfo<Seq<char>>,
        mounts: Seq<MountView<Seq<char>>>,
        notice: Option<Notice<Seq<char>>>,
    ) -> TrayView {
        TrayView {
            link: Link::Up(info),
            mounts: rows_of(mounts),
            transfers: Seq::empty(),
            notice,
        }
    }

    /// The tray with one more reading.
    pub open spec fn with_transfer(self, v: TransferViewModel) -> TrayView {
        TrayView {
            transfers: with_row(self.transfers, v.mount, transfer_of_view(v)),
            ..self
        }
    }

    /// The tray with more readings.
    pub open spec fn with_transfers(self, vs: Seq<TransferViewModel>) -> TrayView
        decreases vs.len(),
    {
        if vs.len() == 0 {
            self
        } else {
            self.with_transfers(vs.drop_last()).with_transfer(vs.last())
        }
    }

    /// Whether what the tray says of the last action is about this mount.
    pub open spec fn notes(self, name: Seq<char>) -> bool {
        self.notice matches Some(n) && n.mount == Some(name)
    }

    /// The tray with a mount as it now is. What it said of that mount before described it
    /// as it was.
    pub open spec fn with_mount(self, v: MountView<Seq<char>>) -> TrayView {
        TrayView {
            mounts: with_row(self.mounts, v.name, v),
            notice: if self.notes(v.name) {
                None
            } else {
                self.notice
            },
            ..self
        }
    }

    /// The tray without a mount.
    pub open spec fn without_mount(self, name: Seq<char>) -> TrayView {
        TrayView {
            mounts: without_row(self.mounts, name),
            transfers: without_row(self.transfers, name),
            ..self
        }
    }
}

/// Mounts as rows under their names, the last of a name counting.
pub open spec fn rows_of(mounts: Seq<MountView<Seq<char>>>) -> MountRows
    decreases mounts.len(),
{
    if mounts.len() == 0 {
        Seq::empty()
    } else {
        with_row(rows_of(mounts.drop_last()), mounts.last().name, mounts.last())
    }
}

/// What a summary leaves out of nothing: where it counts none of a thing, no live mount has
/// any of it.
spec fn accounts_for(s: Summary, m: MountView<Seq<char>>, reading: Option<TransferModel>) -> bool {
    &&& s.failed == 0 ==> !has_failed(m)
    &&& m.live ==> s.live > 0
    &&& m.live && s.unobservable == 0 ==> reading is Some && !blind(reading->0)
    &&& m.live && reading is Some ==> {
        let t = reading->0;
        &&& s.files == 0 ==> t.pending.files == 0
        &&& s.errored == 0 ==> or_zero(t.errored_files) == 0
        &&& !s.out_of_space ==> t.out_of_space != Some(true)
        &&& s.remaining is Some && t.pending.files > 0 ==> vouched(t)
        &&& !s.dirty_on_disk_only ==> t.fidelity != Some(Tier::T4)
    }
}

proof fn lemma_tally(rows: MountRows, readings: ReadingRows, k: int)
    requires
        0 <= k < rows.len() <= usize::MAX,
    ensures
        accounts_for(
            tally(rows, readings),
            rows[k].1,
            row_at(readings, rows[k].1.name),
        ),
    decreases rows.len(),
{
    lemma_tally_fits(rows, readings);
    lemma_tally_fits(rows.drop_last(), readings);
    if k < rows.len() - 1 {
        lemma_tally(rows.drop_last(), readings, k);
        assert(rows.drop_last()[k] == rows[k]);
    } else {
        assert(rows[k] == rows.last());
    }
}

proof fn lemma_tally_fits(rows: MountRows, readings: ReadingRows)
    requires
        rows.len() <= usize::MAX,
    ensures
        tally(rows, readings).live <= rows.len(),
        tally(rows, readings).failed <= rows.len(),
        tally(rows, readings).unobservable <= rows.len(),
    decreases rows.len(),
{
    if rows.len() > 0 {
        lemma_tally_fits(rows.drop_last(), readings);
    }
}

/// The icon says that everything is up to date only where something is serving, no mount
/// has failed, and every live mount has a reading that can be vouched for, with nothing
/// outstanding, nothing errored and room in its cache.
pub proof fn up_to_date_is_never_claimed_lightly(v: TrayView, k: int)
    requires
        v.icon_state() == TrayState::Idle,
        0 <= k < v.mounts.len() <= usize::MAX,
    ensures
        v.link is Up,
        v.sum().live > 0,
        !has_failed(v.mounts[k].1),
        v.mounts[k].1.live ==> {
            let reading = row_at(v.transfers, v.mounts[k].1.name);
            &&& reading is Some
            &&& reading->0.idle()
            &&& reading->0.degraded_reason is None
            &&& or_zero(reading->0.errored_files) == 0
            &&& reading->0.out_of_space != Some(true)
        },
{
    lemma_tally(v.mounts, v.transfers, k);
}

/// An estimate of what is left is given only where every live mount has a reading that can
/// be vouched for, and every one with work outstanding has an honest byte total.
pub proof fn an_estimate_is_vouched_for_by_every_mount(v: TrayView, k: int)
    requires
        v.sum().remaining is Some,
        0 <= k < v.mounts.len() <= usize::MAX,
        v.mounts[k].1.live,
    ensures
        ({
            let reading = row_at(v.transfers, v.mounts[k].1.name);
            &&& reading is Some
            &&& !blind(reading->0)
            &&& reading->0.pending.files > 0 ==> vouched(reading->0)
        }),
{
    lemma_tally(v.mounts, v.transfers, k);
}

/// Only a service that is not running is worth offering to start.
pub proof fn only_a_stopped_service_is_offered_to_be_started(e: LinkError<Seq<char>>)
    ensures
        down_of(e).offer_start <==> e is NotRunning,
{
}

/// Losing the link forgets every mount and every reading, and the icon then says nothing
/// about mounts at all.
pub proof fn a_lost_link_forgets_everything(v: TrayView, e: LinkError<Seq<char>>)
    ensures
        v.fallen(e).mounts.len() == 0,
        v.fallen(e).transfers.len() == 0,
        v.fallen(e).notice is None,
        v.fallen(e).icon_state() == TrayState::Disconnected,
        down_of(e).offer_start <==> e is NotRunning,
{
}

/// Reattaching carries nothing over from a previous lifetime of the service: the tray is
/// then the same whatever it held before.
pub proof fn nothing_is_carried_across_a_service_lifetime(
    a: TrayView,
    b: TrayView,
    info: ServiceInfo<Seq<char>>,
    mounts: Seq<MountView<Seq<char>>>,
)
    ensures
        a.risen(info, mounts, None) == b.risen(info, mounts, None),
        a.risen(info, mounts, None).transfers.len() == 0,
{
}

/// No two states share an icon, so a user can tell them apart.
pub proof fn every_state_has_its_own_icon(a: TrayState, b: TrayState)
    requires
        a != b,
    ensures
        a.icon() != b.icon(),
{
    reveal_strlit("image-loading");
    reveal_strlit("network-error");
    reveal_strlit("dialog-warning");
    reveal_strlit("dialog-question");
    reveal_strlit("sync-synchronizing");
    reveal_strlit("network-offline");
    reveal_strlit("folder-remote");
    assert("image-loading"@.len() == 13 && "network-error"@.len() == 13 && "dialog-warning"@.len()
        == 14 && "dialog-question"@.len() == 15 && "sync-synchronizing"@.len() == 18
        && "network-offline"@.len() == 15 && "folder-remote"@.len() == 13);
    assert("image-loading"@[0] != "network-error"@[0]);
    assert("image-loading"@[0] != "folder-remote"@[0]);
    assert("network-error"@[0] != "folder-remote"@[0]);
    assert("dialog-question"@[0] != "network-offline"@[0]);
}

/// Everything the tray holds.
pub struct TrayModel {
    link: Link,
    mounts: Table<MountView>,
    transfers: Table<TransferState>,
    notice: Option<Notice>,
}

impl View for TrayModel {
    type V = TrayView;

    closed spec fn view(&self) -> TrayView {
        TrayView {
            link: self.link@,
            mounts: self.mounts@,
            transfers: self.transfers@,
            notice: match self.notice {
                Some(n) => Some(n@),
                None => None,
            },
        }
    }
}

fn table_of(mounts: Vec<MountView>) -> (r: Table<MountView>)
    ensures
        r@ == rows_of(views(mounts@)),
{
    let ghost all = views(mounts@);
    let mut t: Table<MountView> = Table::new();
    let mut i: usize = 0;
    while i < mounts.len()
        invariant
            i <= mounts@.len(),
            all == views(mounts@),
            t@ == rows_of(all.take(i as int)),
        decreases mounts@.len() - i,
    {
        assert(all.take(i + 1).drop_last() == all.take(i as int));
        assert(all.take(i + 1).last() == mounts@[i as int]@);
        t.insert(mounts[i].name.clone(), mounts[i].copy());
        i = i + 1;
    }
    assert(all.take(mounts@.len() as int) == all);
    t
}

fn add_reading(s: Summary, t: &TransferState) -> (r: Summary)
    requires
        s.unobservable < usize::MAX,
    ensures
        r == with_reading(s, t@),
{
    let mut s = s;
    if t.degraded_reason.is_some() || !t.outstanding_known {
        s.unobservable = s.unobservable + 1;
    }
    // Saturating throughout: these come off the bus.
    s.files = s.files.saturating_add(t.pending.files);
    s.bytes = s.bytes.saturating_add(t.pending.known_bytes);
    s.unknown_size_files = s.unknown_size_files.saturating_add(t.pending.unknown_size_files);
    let errored: u64 = match t.errored_files {
        Some(n) => n,
        None => 0,
    };
    s.errored = s.errored.saturating_add(errored);
    if let Some(true) = t.out_of_space {
        s.out_of_space = true;
    }
    if let Some(r) = t.rate_bytes_per_sec {
        let so_far: u64 = match s.rate {
            Some(n) => n,
            None => 0,
        };
        s.rate = Some(so_far.saturating_add(r));
    }
    if t.pending.files > 0 {
        let good = t.has_byte_total() && t.outstanding_known && t.pending.unknown_size_files == 0;
        s.remaining = match s.remaining {
            Some(acc) => if good {
                Some(acc.saturating_add(t.remaining_bytes()))
            } else {
                None
            },
            None => None,
        };
    }
    if let Some(Tier::T4) = t.fidelity {
        s.dirty_on_disk_only = true;
    }
    s
}

impl TrayModel {
    /// A tray that has not looked yet.
    pub fn new() -> (r: TrayModel)
        ensures
            r@ == (TrayView {
                link: Link::Connecting,
                mounts: Seq::empty(),
                transfers: Seq::empty(),
                notice: None,
            }),
    {
        TrayModel {
            link: Link::Connecting,
            mounts: Table::new(),
            transfers: Table::new(),
            notice: None,
        }
    }

    /// Whether the service can be seen.
    pub fn link(&self) -> (r: &Link)
        ensures
            r@ == self@.link,
    {
        &self.link
    }

    /// What came of the last action, while it is still true.
    pub fn notice(&self) -> (r: Option<&Notice>)
        ensures
            match r {
                Some(n) => self@.notice == Some(n@),
                None => self@.notice is None,
            },
    {
        match &self.notice {
            Some(n) => Some(n),
            None => None,
        }
    }

    /// Note what came of an action.
    pub fn set_notice(&mut self, mount: Option<String>, text: String)
        ensures
            final(self)@ == (TrayView {
                notice: Some(Notice { mount: opt_text(mount), text: text@ }),
                ..old(self)@
            }),
    {
        self.notice = Some(Notice { mount, text });
    }

    /// Forget what came of the last action.
    pub fn clear_notice(&mut self)
        ensures
            final(self)@ == (TrayView { notice: None, ..old(self)@ }),
    {
        self.notice = None;
    }

    /// Mark the link down and forget everything it told us.
    ///
    /// Dropping the rows is the point: a stale list would be rendered as current, and the
    /// tray must never imply that it knows a mount's state when it does not.
    pub fn go_down(&mut self, e: &LinkError)
        ensures
            final(self)@ == old(self)@.fallen(e@),
    {
        self.link = Link::Down(Down::from_error(e));
        self.mounts = Table::new();
        self.transfers = Table::new();
        self.notice = None;
    }

    /// Adopt a fresh snapshot. Replaces rather than merges: nothing is carried across a
    /// service's lifetime.
    pub fn go_up(&mut self, info: ServiceInfo, mounts: Vec<MountView>)
        ensures
            final(self)@ == old(self)@.risen(info@, views(mounts@), None),
    {
        self.link = Link::Up(info);
        self.mounts = table_of(mounts);
        self.transfers = Table::new();
        self.notice = None;
    }

    /// Re-read everything from the same service. What came of the last action is kept: a
    /// user asking for a refresh is not asking to be told less.
    pub fn resync(&mut self, info: ServiceInfo, mounts: Vec<MountView>)
        ensures
            final(self)@ == old(self)@.risen(info@, views(mounts@), old(self)@.notice),
    {
        self.link = Link::Up(info);
        self.mounts = table_of(mounts);
        self.transfers = Table::new();
    }

    /// Take in one mount as it now is.
    pub fn upsert_mount(&mut self, view: MountView)
        ensures
            final(self)@ == old(self)@.with_mount(view@),
    {
        let about = match &self.notice {
            Some(n) => match &n.mount {
                Some(m) => same_text(m.as_str(), view.name.as_str()),
                None => false,
            },
            None => false,
        };
        if about {
            self.notice = None;
        }
        self.mounts.insert(view.name.clone(), view);
    }

    /// Forget a mount.
    pub fn remove_mount(&mut self, name: &str)
        ensures
            final(self)@ == old(self)@.without_mount(name@),
    {
        self.mounts.remove(name);
        self.transfers.remove(name);
    }

    /// Take in one reading.
    pub fn upsert_transfer(&mut self, view: &TransferView)
        ensures
            final(self)@ == old(self)@.with_transfer(view@),
    {
        self.transfers.insert(view.mount.clone(), transfer_state(view));
    }

    /// Take in readings.
    pub fn upsert_transfers(&mut self, vs: &Vec<TransferView>)
        ensures
            final(self)@ == old(self)@.with_transfers(views(vs@)),
    {
        let ghost start = self@;
        let ghost all = views(vs@);
        let mut i: usize = 0;
        while i < vs.len()
            invariant
                i <= vs@.len(),
                all == views(vs@),
                self@ == start.with_transfers(all.take(i as int)),
            decreases vs@.len() - i,
        {
            assert(all.take(i + 1).drop_last() == all.take(i as int));
            assert(all.take(i + 1).last() == vs@[i as int]@);
            self.upsert_transfer(&vs[i]);
            i = i + 1;
        }
        assert(all.take(vs@.len() as int) == all);
    }

    /// The mounts, in name order.
    pub fn mounts(&self) -> (r: &Vec<(String, MountView)>)
        ensures
            row_views(r@) == self@.mounts,
            crate::table::in_order(self@.mounts),
    {
        self.mounts.rows()
    }

    /// The reading of a mount, if there is one.
    pub fn transfer(&self, name: &str) -> (r: Option<&TransferState>)
        ensures
            match r {
                Some(t) => row_at(self@.transfers, name@) == Some(t@),
                None => row_at(self@.transfers, name@) is None,
            },
    {
        self.transfers.get(name)
    }

    /// Everything the menu and the tooltip summarise.
    pub fn summary(&self) -> (r: Summary)
        ensures
            r == self@.sum(),
    {
        let rows = self.mounts.rows();
        let ghost all = self@.mounts;
        let ghost readings = self@.transfers;
        let mut s = Summary::default();
        // An honest byte total needs every contributing mount to have one; one that cannot
        // give one poisons the aggregate rather than being left out of it silently.
        s.remaining = Some(0);
        let mut i: usize = 0;
        while i < rows.len()
            invariant
                i <= rows@.len(),
                row_views(rows@) == all,
                readings == self@.transfers,
                s == tally(all.take(i as int), readings),
                s.total == 0,
                s.live <= i,
                s.failed <= i,
                s.unobservable <= i,
            decreases rows@.len() - i,
        {
            assert(all.take(i + 1).drop_last() == all.take(i as int));
            assert(all.take(i + 1).last() == row_view(rows@[i as int]));
            let m = &rows[i].1;
            if same_text(m.state.as_str(), "failed") {
                s.failed = s.failed + 1;
            }
            if m.live {
                s.live = s.live + 1;
                match self.transfers.get(m.name.as_str()) {
                    None => {
                        s.unobservable = s.unobservable + 1;
                    },
                    Some(t) => {
                        s = add_reading(s, t);
                    },
                }
            }
            i = i + 1;
        }
        assert(all.take(rows@.len() as int) == all);
        s.total = rows.len();
        if s.unobservable > 0 {
            s.remaining = None;
        }
        s
    }

    /// What the icon should say.
    pub fn state(&self) -> (r: TrayState)
        ensures
            r == self@.icon_state(),
    {
        match self.link {
            Link::Connecting => {
                return TrayState::Connecting;
            },
            Link::Down(_) => {
                return TrayState::Disconnected;
            },
            Link::Up(_) => {},
        }
        let s = self.summary();
        if s.failed > 0 || s.errored > 0 || s.out_of_space {
            return TrayState::Attention;
        }
        if s.unobservable > 0 {
            return TrayState::Degraded;
        }
        if s.files > 0 {
            return TrayState::Syncing;
        }
        if s.live == 0 {
            return TrayState::Offline;
        }
        TrayState::Idle
    }
}

impl Summary {
    /// How many mounts are serving, in words.
    pub open spec fn mounted_text(self) -> Seq<char> {
        if self.total == 0 {
            "No mounts configured"@
        } else {
            digits(self.live as nat) + " of "@ + digits(self.total as nat) + " mounted"@
        }
    }

    /// What is outstanding, in words; nothing where nothing is serving.
    pub open spec fn pending_words(self) -> Option<Seq<char>> {
        if self.live == 0 {
            None
        } else if self.files == 0 {
            if self.unobservable > 0 {
                Some(
                    "Pending: unknown on "@ + digits(self.unobservable as nat) + " of "@ + digits(
                        self.live as nat,
                    ) + " mounts"@,
                )
            } else {
                Some("All synced"@)
            }
        } else {
            let line = pending_text(
                self.files as nat,
                self.bytes as nat,
                self.unknown_size_files as nat,
            );
            if self.unobservable > 0 {
                Some(
                    line + ", plus "@ + digits(self.unobservable as nat)
                        + " mount(s) unreadable"@,
                )
            } else {
                Some(line)
            }
        }
    }

    /// How fast it goes and how long is left, in words, as far as that can be said.
    pub open spec fn rate_words(self) -> Option<Seq<char>> {
        match self.rate {
            Some(rate) => if rate > 0 {
                let line = bytes_text(rate as nat) + "/s"@;
                match self.remaining {
                    Some(left) => if self.files > 0 {
                        Some(line + " · "@ + eta_text((left / rate) as nat) + " left"@)
                    } else {
                        Some(line)
                    },
                    None => Some(line),
                }
            } else {
                None
            },
            None => None,
        }
    }

    /// How many mounts are serving, which is the line everything else qualifies.
    pub fn mounted_line(&self) -> (r: String)
        ensures
            r@ == self.mounted_text(),
    {
        if self.total == 0 {
            "No mounts configured".to_owned()
        } else {
            let mut s = decimal(self.live as u64);
            s.append(" of ");
            s.append(decimal(self.total as u64).as_str());
            s.append(" mounted");
            s
        }
    }

    /// The one line that answers whether everything is uploaded. `None` when nothing is
    /// serving: there is no reading to report rather than a reading of zero.
    pub fn pending_line(&self) -> (r: Option<String>)
        ensures
            opt_text(r) == self.pending_words(),
    {
        if self.live == 0 {
            return None;
        }
        if self.files == 0 {
            if self.unobservable > 0 {
                // Nothing was counted, and nothing could have been.
                let mut s = "Pending: unknown on ".to_owned();
                s.append(decimal(self.unobservable as u64).as_str());
                s.append(" of ");
                s.append(decimal(self.live as u64).as_str());
                s.append(" mounts");
                return Some(s);
            }
            return Some("All synced".to_owned());
        }
        let mut line = pending_phrase(self.files, self.bytes, self.unknown_size_files);
        if self.unobservable > 0 {
            line.append(", plus ");
            line.append(decimal(self.unobservable as u64).as_str());
            line.append(" mount(s) unreadable");
        }
        Some(line)
    }

    /// Throughput and, only where it can be derived honestly, how long is left.
    pub fn rate_line(&self) -> (r: Option<String>)
        ensures
            opt_text(r) == self.rate_words(),
    {
        let rate: u64 = match self.rate {
            Some(n) => n,
            None => {
                return None;
            },
        };
        if rate == 0 {
            return None;
        }
        let mut line = human_bytes(rate);
        line.append("/s");
        if let Some(left) = self.remaining {
            if self.files > 0 {
                line.append(" · ");
                line.append(eta_phrase(left / rate).as_str());
                line.append(" left");
            }
        }
        Some(line)
    }
}

} // verus!
