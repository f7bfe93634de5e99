//! Asking one mount what is outstanding, one question at a time, and at a rate that matches
//! what it is doing.
//!
//! [`Polling`] decides; whoever drives it performs each [`PollAsk`] and hands the answer
//! back. The tier is resolved per mount: one may answer over rc while another can only be
//! read off the disk.

use crate::text::{any_text, decimal, digits, opt_text, texts, views};
use crate::transfer::{
    all_queued, partly, progressed_state, queue_state, scan_state, stats_state, surely_queues_all,
    unmonitored_state, CacheMode, DiskCache, Progress, QueueItem, Scan, ScanModel, Tier,
    TransferFile, TransferModel, TransferState,
};
use vstd::prelude::*;
use vstd::string::*;

verus! {

/// How often to poll, in seconds.
#[derive(Debug, Clone, Copy, PartialEq, Eq, Structural)]
pub struct Poll {
    pub active_secs: u64,
    pub idle_secs: u64,
}

/// What an rclone turned out to offer over rc.
#[derive(Debug, Clone, PartialEq, Eq)]
pub struct Capabilities<S = String, L = Vec<String>> {
    /// The commands it registers.
    pub commands: L,
    /// Why it could not be asked, where it could not.
    pub refusal: Option<S>,
}

/// Capabilities by their view.
pub type CapabilitiesModel = Capabilities<Seq<char>, Seq<Seq<char>>>;

impl View for Capabilities {
    type V = CapabilitiesModel;

    open spec fn view(&self) -> CapabilitiesModel {
        Capabilities { commands: texts(self.commands@), refusal: opt_text(self.refusal) }
    }
}

impl Capabilities<Seq<char>, Seq<Seq<char>>> {
    /// The tier that the commands allow for.
    pub open spec fn best(self) -> Tier {
        if self.commands.contains("vfs/queue"@) {
            if self.commands.contains("core/stats"@) {
                Tier::T1
            } else {
                Tier::T2
            }
        } else if self.commands.contains("vfs/stats"@) {
            Tier::T3
        } else {
            Tier::T4
        }
    }
}

impl Capabilities {
    /// What is known of an rclone that could not be asked.
    pub fn from_refusal(why: String) -> (r: Capabilities)
        ensures
            r@ == (Capabilities { commands: Seq::<Seq<char>>::empty(), refusal: Some(why@) }),
    {
        let commands: Vec<String> = Vec::new();
        assert(texts(commands@) == Seq::<Seq<char>>::empty());
        Capabilities { commands, refusal: Some(why) }
    }

    /// Whether a command is registered.
    pub fn has(&self, command: &str) -> (r: bool)
        ensures
            r == self@.commands.contains(command@),
    {
        any_text(&self.commands, command)
    }

    /// Whether nothing at all is known to be offered.
    pub fn is_empty(&self) -> (r: bool)
        ensures
            r == (self@.commands.len() == 0),
    {
        self.commands.len() == 0
    }

    /// The tier that the commands allow for. With none of them the disk is what is left.
    pub fn tier(&self) -> (r: Tier)
        ensures
            r == self@.best(),
    {
        if self.has("vfs/queue") {
            if self.has("core/stats") {
                Tier::T1
            } else {
                Tier::T2
            }
        } else if self.has("vfs/stats") {
            Tier::T3
        } else {
            Tier::T4
        }
    }
}

/// Why an rc call brought no answer. Each holds the failure in words.
#[derive(Debug, Clone, PartialEq, Eq)]
pub enum RcError<S = String> {
    /// Nobody is listening.
    Unreachable(S),
    /// rclone answered with a failure.
    Failed { status: u16, text: S },
    /// Anything else.
    Other(S),
}

impl View for RcError {
    type V = RcError<Seq<char>>;

    open spec fn view(&self) -> RcError<Seq<char>> {
        match *self {
            RcError::Unreachable(t) => RcError::Unreachable(t@),
            RcError::Failed { status, text } => RcError::Failed { status, text: text@ },
            RcError::Other(t) => RcError::Other(t@),
        }
    }
}

impl RcError<Seq<char>> {
    /// The failure in words.
    pub open spec fn words(self) -> Seq<char> {
        match self {
            RcError::Unreachable(t) => t,
            RcError::Failed { text, .. } => text,
            RcError::Other(t) => t,
        }
    }
}

impl RcError {
    fn into_words(self) -> (r: String)
        ensures
            r@ == self@.words(),
    {
        match self {
            RcError::Unreachable(t) => t,
            RcError::Failed { status: _, text } => text,
            RcError::Other(t) => t,
        }
    }
}

/// The status with which rclone denies knowing a command.
pub const NOT_FOUND: u16 = 404;

/// What `vfs/stats` said.
#[derive(Debug, Clone, PartialEq, Eq)]
pub struct VfsStats<S = String> {
    /// The cache mode, where it is one that is recognised.
    pub mode: Option<CacheMode>,
    pub disk_cache: Option<DiskCache<S>>,
}

impl View for VfsStats {
    type V = VfsStats<Seq<char>>;

    open spec fn view(&self) -> VfsStats<Seq<char>> {
        VfsStats {
            mode: self.mode,
            disk_cache: match self.disk_cache {
                Some(c) => Some(c@),
                None => None,
            },
        }
    }
}

/// What is known of a mount's write-back cache. That the cache was not asked about and that
/// there is none call for opposite handling.
#[derive(Debug, Clone, PartialEq, Eq)]
pub enum CacheProbe<S = String> {
    /// This rclone does not register `vfs/stats`.
    NotAsked,
    /// Asked, and this mount has no write-back cache.
    Absent,
    /// A cache, and its mode where rclone said which.
    Present(DiskCache<S>, Option<CacheMode>),
}

impl View for CacheProbe {
    type V = CacheProbe<Seq<char>>;

    open spec fn view(&self) -> CacheProbe<Seq<char>> {
        match *self {
            CacheProbe::NotAsked => CacheProbe::NotAsked,
            CacheProbe::Absent => CacheProbe::Absent,
            CacheProbe::Present(c, mode) => CacheProbe::Present(c@, mode),
        }
    }
}

/// What is remembered of one mount between polls.
#[derive(Debug, Clone, PartialEq, Eq)]
pub struct MountPoller<S = String, L = Vec<String>> {
    pub name: S,
    pub caps: Capabilities<S, L>,
    /// Where the cache's data lies. Tells this mount's transfers from another's.
    pub cache_path: Option<S>,
    /// Where the cache's descriptors lie. Remembered from when rclone could be asked,
    /// because the disk is read once it cannot be.
    pub meta_path: Option<S>,
    /// The cache mode that `vfs/stats` last answered with.
    pub mode: Option<CacheMode>,
}

/// A poller by its view.
pub type PollerModel = MountPoller<Seq<char>, Seq<Seq<char>>>;

impl View for MountPoller {
    type V = PollerModel;

    open spec fn view(&self) -> PollerModel {
        MountPoller {
            name: self.name@,
            caps: self.caps@,
            cache_path: opt_text(self.cache_path),
            meta_path: opt_text(self.meta_path),
            mode: self.mode,
        }
    }
}

impl MountPoller {
    /// A poller for a mount whose rclone was asked what it offers.
    pub fn connect(name: &str, probed: Result<Capabilities, String>) -> (r: MountPoller)
        ensures
            r@ == (MountPoller {
                name: name@,
                caps: probed_caps(
                    match probed {
                        Ok(c) => Ok(c@),
                        Err(why) => Err(why@),
                    },
                ),
                cache_path: None,
                meta_path: None,
                mode: None,
            }),
    {
        let caps = match probed {
            Ok(c) => c,
            Err(why) => Capabilities::from_refusal(why),
        };
        MountPoller { name: name.to_owned(), caps, cache_path: None, meta_path: None, mode: None }
    }

    /// The tier that this mount's rclone allows for.
    pub fn tier(&self) -> (r: Tier)
        ensures
            r == self@.caps.best(),
    {
        self.caps.tier()
    }

    /// Whether rclone answered the question what it offers at all. The tier alone does not
    /// say: it is the poorest both for an rclone that offers nothing and for one that could
    /// not be reached.
    pub fn rc_answered(&self) -> (r: bool)
        ensures
            r == (self@.caps.commands.len() > 0),
    {
        !self.caps.is_empty()
    }

    /// How long to wait before polling again, in seconds.
    ///
    /// Driven by whether anything is known to be outstanding, not by whether the mount is
    /// idle: one that cannot be observed has nothing to derive anew every second. A reading
    /// off the disk is always taken at the slow pace, because each is a walk of the cache.
    pub fn interval(state: &TransferState, poll: &Poll) -> (secs: u64)
        ensures
            secs == if state@.fidelity != Some(Tier::T4) && state@.pending.files > 0 {
                poll.active_secs
            } else {
                poll.idle_secs
            },
            secs == pace(state@, *poll),
    {
        let scanned = match state.fidelity {
            Some(Tier::T4) => true,
            _ => false,
        };
        if !scanned && state.pending.files > 0 {
            poll.active_secs
        } else {
            poll.idle_secs
        }
    }
}

/// How long to wait before polling again, in seconds: the short wait where something is
/// known to be outstanding, unless that was read off the disk.
pub open spec fn pace(state: TransferModel, poll: Poll) -> u64 {
    if state.fidelity != Some(Tier::T4) && state.pending.files > 0 {
        poll.active_secs
    } else {
        poll.idle_secs
    }
}

/// What asking an rclone what it offers comes to.
pub open spec fn probed_caps(probed: Result<CapabilitiesModel, Seq<char>>) -> CapabilitiesModel {
    match probed {
        Ok(c) => c,
        Err(why) => Capabilities { commands: Seq::empty(), refusal: Some(why) },
    }
}

impl MountPoller<Seq<char>, Seq<Seq<char>>> {
    /// The same poller without the cache roots a previous rclone named.
    pub open spec fn rootless(self) -> PollerModel {
        MountPoller { cache_path: None, meta_path: None, ..self }
    }

    /// What an answer of `vfs/stats` teaches. Every answer, unlike a silence, replaces what
    /// was known: the roots together or not at all, since a fresh root paired with a stale
    /// one would have another instance's emptiness reported as this mount's; and the mode
    /// even where it is not recognised.
    pub open spec fn taught(self, stats: VfsStats<Seq<char>>) -> PollerModel {
        let known = MountPoller { mode: stats.mode, ..self };
        match stats.disk_cache {
            None => known.rootless(),
            Some(c) => if c.path.len() > 0 && c.path_meta.len() > 0 {
                MountPoller {
                    cache_path: Some(c.path),
                    meta_path: Some(c.path_meta),
                    ..known
                }
            } else {
                known.rootless()
            },
        }
    }

    /// Whether both cache roots are known.
    pub open spec fn rooted(self) -> bool {
        self.cache_path is Some && self.meta_path is Some
    }
}

/// What the cache is, by an answer of `vfs/stats`.
pub open spec fn probe_of(stats: VfsStats<Seq<char>>) -> CacheProbe<Seq<char>> {
    match stats.disk_cache {
        None => CacheProbe::Absent,
        Some(c) => CacheProbe::Present(c, stats.mode),
    }
}

impl MountPoller {
    /// Take in an answer of `vfs/stats`.
    fn learn(&mut self, stats: VfsStats) -> (r: CacheProbe)
        ensures
            final(self)@ == old(self)@.taught(stats@),
            r@ == probe_of(stats@),
    {
        self.mode = stats.mode;
        match stats.disk_cache {
            None => {
                self.forget_roots();
                CacheProbe::Absent
            },
            Some(cache) => {
                if !cache.path.as_str().is_empty() && !cache.path_meta.as_str().is_empty() {
                    self.cache_path = Some(cache.path.clone());
                    self.meta_path = Some(cache.path_meta.clone());
                } else {
                    self.forget_roots();
                }
                CacheProbe::Present(cache, stats.mode)
            },
        }
    }

    /// Drop the cache roots a previous rclone named.
    fn forget_roots(&mut self)
        ensures
            final(self)@ == old(self)@.rootless(),
    {
        self.cache_path = None;
        self.meta_path = None;
    }
}

/// Where a poll has got to: what is to be asked next, and what is known so far.
pub enum PollPhase<S = String, F = Vec<TransferFile>> {
    /// What does this rclone offer?
    Probe,
    /// `vfs/stats`.
    Stats,
    /// `vfs/queue`.
    Queue(CacheProbe<S>),
    /// `core/stats`, for the progress of this reading's files.
    Progress(TransferState<S, F>),
    /// The cache on disk, since rclone cannot be asked, for this reason.
    Scan(S),
    /// How fast this reading is shrinking.
    Rate(TransferState<S, F>),
}

/// A phase by its view.
pub type PollPhaseModel = PollPhase<Seq<char>, Seq<TransferFile<Seq<char>>>>;

impl View for PollPhase {
    type V = PollPhaseModel;

    open spec fn view(&self) -> PollPhaseModel {
        match *self {
            PollPhase::Probe => PollPhase::Probe,
            PollPhase::Stats => PollPhase::Stats,
            PollPhase::Queue(c) => PollPhase::Queue(c@),
            PollPhase::Progress(t) => PollPhase::Progress(t@),
            PollPhase::Scan(why) => PollPhase::Scan(why@),
            PollPhase::Rate(t) => PollPhase::Rate(t@),
        }
    }
}

/// One poll under way.
pub struct Polling<S = String, L = Vec<String>, F = Vec<TransferFile>> {
    pub poller: MountPoller<S, L>,
    pub phase: PollPhase<S, F>,
}

/// A poll by its view.
pub type PollingModel = Polling<Seq<char>, Seq<Seq<char>>, Seq<TransferFile<Seq<char>>>>;

impl View for Polling {
    type V = PollingModel;

    open spec fn view(&self) -> PollingModel {
        Polling { poller: self.poller@, phase: self.phase@ }
    }
}

/// What to do next, and report back.
#[derive(Debug, Clone, PartialEq, Eq)]
pub enum PollAsk<S = String> {
    /// Ask rclone what it offers.
    Probe,
    /// Call `vfs/stats`.
    Stats,
    /// Call `vfs/queue`.
    Queue,
    /// Call `core/stats`, for the uploads out of the cache at this path.
    Progress(S),
    /// Walk the cache on disk: its descriptors at `meta`, its data at `data`.
    Scan { meta: S, data: S },
    /// Note this many remaining bytes, and say how fast they are shrinking.
    Rate(u64),
}

impl View for PollAsk {
    type V = PollAsk<Seq<char>>;

    open spec fn view(&self) -> PollAsk<Seq<char>> {
        match *self {
            PollAsk::Probe => PollAsk::Probe,
            PollAsk::Stats => PollAsk::Stats,
            PollAsk::Queue => PollAsk::Queue,
            PollAsk::Progress(p) => PollAsk::Progress(p@),
            PollAsk::Scan { meta, data } => PollAsk::Scan { meta: meta@, data: data@ },
            PollAsk::Rate(n) => PollAsk::Rate(n),
        }
    }
}

/// How walking a cache on disk ended.
pub enum ScanOutcome<S = String, C = Scan> {
    Found(C),
    /// The cache could not be read.
    Unreadable(S),
    /// The walk itself broke off.
    Lost(S),
}

impl View for ScanOutcome {
    type V = ScanOutcome<Seq<char>, ScanModel>;

    open spec fn view(&self) -> ScanOutcome<Seq<char>, ScanModel> {
        match *self {
            ScanOutcome::Found(c) => ScanOutcome::Found(c@),
            ScanOutcome::Unreadable(t) => ScanOutcome::Unreadable(t@),
            ScanOutcome::Lost(t) => ScanOutcome::Lost(t@),
        }
    }
}

/// What came of a [`PollAsk`].
pub enum PollAnswer<
    S = String,
    L = Vec<String>,
    Q = Vec<QueueItem>,
    P = Vec<Progress>,
    C = Scan,
> {
    Probe(Result<Capabilities<S, L>, S>),
    Stats(Result<VfsStats<S>, RcError<S>>),
    /// `None` is an answer without a queue.
    Queue(Result<Option<Q>, RcError<S>>),
    /// `None` is no answer, which costs nothing but the progress.
    Progress(Option<P>),
    Scan(ScanOutcome<S, C>),
    Rate(Option<u64>),
}

/// An answer by its view.
pub type PollAnswerModel = PollAnswer<
    Seq<char>,
    Seq<Seq<char>>,
    Seq<QueueItem<Seq<char>>>,
    Seq<Progress<Seq<char>>>,
    ScanModel,
>;

impl View for PollAnswer {
    type V = PollAnswerModel;

    open spec fn view(&self) -> PollAnswerModel {
        match *self {
            PollAnswer::Probe(r) => PollAnswer::Probe(
                match r {
                    Ok(c) => Ok(c@),
                    Err(why) => Err(why@),
                },
            ),
            PollAnswer::Stats(r) => PollAnswer::Stats(
                match r {
                    Ok(s) => Ok(s@),
                    Err(e) => Err(e@),
                },
            ),
            PollAnswer::Queue(r) => PollAnswer::Queue(queue_reply(r)),
            PollAnswer::Progress(p) => PollAnswer::Progress(
                match p {
                    Some(v) => Some(views(v@)),
                    None => None,
                },
            ),
            PollAnswer::Scan(o) => PollAnswer::Scan(o@),
            PollAnswer::Rate(r) => PollAnswer::Rate(r),
        }
    }
}

/// A reply of `vfs/queue` by its view.
pub open spec fn queue_reply(r: Result<Option<Vec<QueueItem>>, RcError>) -> Result<
    Option<Seq<QueueItem<Seq<char>>>>,
    RcError<Seq<char>>,
> {
    match r {
        Ok(Some(v)) => Ok(Some(views(v@))),
        Ok(None) => Ok(None),
        Err(e) => Err(e@),
    }
}

/// A poll that is over.
pub struct Polled<S = String, L = Vec<String>, F = Vec<TransferFile>> {
    pub poller: MountPoller<S, L>,
    pub state: TransferState<S, F>,
    /// Whether what was noted for the rate so far no longer counts.
    pub reset_rate: bool,
}

/// A finished poll by its view.
pub type PolledModel = Polled<Seq<char>, Seq<Seq<char>>, Seq<TransferFile<Seq<char>>>>;

impl View for Polled {
    type V = PolledModel;

    open spec fn view(&self) -> PolledModel {
        Polled { poller: self.poller@, state: self.state@, reset_rate: self.reset_rate }
    }
}

/// Whether a poll goes on, and what it found if not.
pub enum PollStep<S = String, L = Vec<String>, F = Vec<TransferFile>> {
    Go(Polling<S, L, F>),
    Finished(Polled<S, L, F>),
}

/// A step by its view.
pub type PollStepModel = PollStep<Seq<char>, Seq<Seq<char>>, Seq<TransferFile<Seq<char>>>>;

impl View for PollStep {
    type V = PollStepModel;

    open spec fn view(&self) -> PollStepModel {
        match *self {
            PollStep::Go(p) => PollStep::Go(p@),
            PollStep::Finished(d) => PollStep::Finished(d@),
        }
    }
}

/// Why a queue is not the whole story under this mode.
pub open spec fn mode_reason(mode: Option<CacheMode>) -> Seq<char> {
    match mode {
        Some(CacheMode::Minimal) =>
            "this mount's cache mode is minimal, so a file opened write-only streams straight to the remote without entering the queue"@,
        Some(_) =>
            "this mount's cache mode does not put every write through the queue, so some may not be visible here"@,
        None =>
            "this rclone did not report a recognised cache mode, so whether every write reaches the queue is unknown"@,
    }
}

/// A reading made over rc, with what is known of the cache. The endpoint that answered is
/// believed, and anything that keeps the queue from being the whole story makes it a floor.
pub open spec fn weighed(state: TransferModel, cache: CacheProbe<Seq<char>>) -> TransferModel {
    match cache {
        CacheProbe::Present(c, mode) => {
            let checked = TransferState {
                errored_files: Some(c.errored_files),
                out_of_space: Some(c.out_of_space),
                ..state
            };
            if surely_queues_all(mode) {
                checked
            } else {
                partly(checked, mode_reason(mode))
            }
        },
        CacheProbe::Absent => partly(
            state,
            "this rclone reports a write-back queue but no cache to hold it, so what is queued is a floor rather than the whole story"@,
        ),
        CacheProbe::NotAsked => partly(
            state,
            "this rclone registers no vfs/stats, so cache errors, a full cache and whether every write reaches the queue cannot be reported"@,
        ),
    }
}

/// What is left to say where there is no queue: counts, if there is a cache after all.
pub open spec fn queueless(
    name: Seq<char>,
    state: TransferModel,
    cache: CacheProbe<Seq<char>>,
) -> TransferModel {
    match cache {
        CacheProbe::Present(c, _) => partly(
            stats_state(name, c),
            "this rclone reports a write-back cache but no queue, so only its counts can be read"@,
        ),
        _ => state,
    }
}

/// Why nothing can be observed over rc where `vfs/queue` is not registered.
pub open spec fn blind_reason(cache: CacheProbe<Seq<char>>) -> Seq<char> {
    match cache {
        CacheProbe::Absent =>
            "this rclone registers no vfs/queue and this mount has no write-back cache, so nothing outstanding can be observed"@,
        _ =>
            "this rclone registers neither vfs/queue nor vfs/stats, so nothing outstanding can be observed over rc"@,
    }
}

/// What is said of a reading off the disk.
pub open spec fn scan_reason(
    why: Seq<char>,
    found: ScanModel,
    mode: Option<CacheMode>,
) -> Seq<char> {
    let read = why + "; read "@ + digits(found.files.len())
        + " pending file(s) from the cache on disk instead"@;
    let missed = if found.unreadable > 0 {
        read + "; "@ + digits(found.unreadable as nat) + " entries there could not be read"@
    } else {
        read
    };
    let walked = if found.truncated {
        missed + "; and the cache was too large to finish walking"@
    } else {
        missed
    };
    if surely_queues_all(mode) {
        walked
    } else if mode is Some {
        walked
            + "; and this mount's cache mode does not put every write through the cache, so what is on disk is a floor"@
    } else {
        walked
            + "; and this rclone never reported a recognised cache mode, so whether every write reaches the cache is unknown"@
    }
}

/// What reading the disk comes to where rclone could not be asked, for the reason `why`. A
/// cache directory that disappeared is no evidence that the queue drained.
pub open spec fn scan_reading(
    name: Seq<char>,
    mode: Option<CacheMode>,
    why: Seq<char>,
    outcome: ScanOutcome<Seq<char>, ScanModel>,
) -> TransferModel {
    match outcome {
        ScanOutcome::Found(found) => if !found.root_present {
            unmonitored_state(name, why + "; and the cache it reported is no longer on disk"@)
        } else if surely_queues_all(mode) {
            TransferState {
                degraded_reason: Some(scan_reason(why, found, mode)),
                ..scan_state(name, found)
            }
        } else {
            partly(scan_state(name, found), scan_reason(why, found, mode))
        },
        ScanOutcome::Unreadable(err) => unmonitored_state(
            name,
            why + "; and its cache could not be read either: "@ + err,
        ),
        ScanOutcome::Lost(err) => unmonitored_state(name, why + "; "@ + err),
    }
}

/// The rate to show. Zero asserts that nothing moves; while something is in flight the truth
/// is that it moves without being measurable.
pub open spec fn shown_rate(state: TransferModel, rate: Option<u64>) -> Option<u64> {
    match rate {
        Some(r) => if r > 0 || state.uploading == Some(0u64) {
            Some(r)
        } else {
            None
        },
        None => None,
    }
}

impl MountPoller<Seq<char>, Seq<Seq<char>>> {
    /// A poll of this mount that is over.
    pub open spec fn over(self, state: TransferModel, reset_rate: bool) -> PollStepModel {
        PollStep::Finished(Polled { poller: self, state, reset_rate })
    }

    /// A poll of this mount in a phase.
    pub open spec fn at(self, phase: PollPhaseModel) -> PollStepModel {
        PollStep::Go(Polling { poller: self, phase })
    }

    /// How a poll of this mount begins. Where nothing is known to be offered that is asked
    /// again, or a mount that was down at first would stay unobservable for good.
    pub open spec fn first(self) -> PollStepModel {
        if self.caps.commands.len() == 0 {
            self.at(PollPhase::Probe)
        } else {
            self.known()
        }
    }

    /// How a poll goes on once it is known what rclone offers.
    pub open spec fn known(self) -> PollStepModel {
        if self.caps.commands.contains("vfs/stats"@) {
            self.at(PollPhase::Stats)
        } else {
            self.cached(CacheProbe::NotAsked)
        }
    }

    /// How a poll goes on once the cache was asked about.
    pub open spec fn cached(self, cache: CacheProbe<Seq<char>>) -> PollStepModel {
        if self.caps.commands.contains("vfs/queue"@) {
            self.at(PollPhase::Queue(cache))
        } else {
            self.unqueued(cache)
        }
    }

    /// How a poll goes on where rclone does not register `vfs/queue`: counts are all there
    /// is over rc.
    pub open spec fn unqueued(self, cache: CacheProbe<Seq<char>>) -> PollStepModel {
        match cache {
            CacheProbe::Present(c, _) => self.queued(cache, stats_state(self.name, c)),
            _ => self.over(unmonitored_state(self.name, blind_reason(cache)), false),
        }
    }

    /// How a poll goes on with a first reading.
    pub open spec fn queued(
        self,
        cache: CacheProbe<Seq<char>>,
        state: TransferModel,
    ) -> PollStepModel {
        if !state.outstanding_known {
            self.over(queueless(self.name, state, cache), true)
        } else {
            let state = weighed(state, cache);
            if self.caps.commands.contains("core/stats"@) && state.fidelity == Some(Tier::T2)
                && self.cache_path is Some {
                self.at(PollPhase::Progress(state))
            } else {
                self.measured(state)
            }
        }
    }

    /// How a poll goes on with everything but the rate.
    pub open spec fn measured(self, state: TransferModel) -> PollStepModel {
        if state.pending.files == 0 || !state.has_total() {
            self.over(TransferState { rate_bytes_per_sec: None, ..state }, true)
        } else {
            self.at(PollPhase::Rate(state))
        }
    }

    /// How a poll goes on where nobody answers. The disk still has the answer, if it is
    /// known where to look: what is waiting outlives the process that queued it.
    pub open spec fn unanswered(self, why: Seq<char>) -> PollStepModel {
        if self.rooted() {
            self.at(PollPhase::Scan(why))
        } else {
            self.over(unmonitored_state(self.name, why), true)
        }
    }

    /// How a poll goes on where a call failed.
    pub open spec fn failing(self, e: RcError<Seq<char>>) -> PollStepModel {
        match e {
            RcError::Unreachable(why) => self.unanswered(why),
            _ => self.over(unmonitored_state(self.name, e.words()), true),
        }
    }
}

/// Whether rclone does not know the command.
pub open spec fn not_registered(e: RcError<Seq<char>>) -> bool {
    e matches RcError::Failed { status, .. } && status == NOT_FOUND
}

impl Polling<Seq<char>, Seq<Seq<char>>, Seq<TransferFile<Seq<char>>>> {
    /// What is to be asked in this phase.
    pub open spec fn asks(self) -> PollAsk<Seq<char>> {
        let none = Seq::<char>::empty();
        match self.phase {
            PollPhase::Probe => PollAsk::Probe,
            PollPhase::Stats => PollAsk::Stats,
            PollPhase::Queue(_) => PollAsk::Queue,
            PollPhase::Progress(_) => PollAsk::Progress(
                match self.poller.cache_path {
                    Some(p) => p,
                    None => none,
                },
            ),
            PollPhase::Scan(_) => PollAsk::Scan {
                meta: match self.poller.meta_path {
                    Some(p) => p,
                    None => none,
                },
                data: match self.poller.cache_path {
                    Some(p) => p,
                    None => none,
                },
            },
            PollPhase::Rate(state) => PollAsk::Rate(state.remaining()),
        }
    }

    /// Whether an answer is one to what is asked.
    pub open spec fn fits(self, a: PollAnswerModel) -> bool {
        match self.phase {
            PollPhase::Probe => a is Probe,
            PollPhase::Stats => a is Stats,
            PollPhase::Queue(_) => a is Queue,
            PollPhase::Progress(_) => a is Progress,
            PollPhase::Scan(_) => a is Scan,
            PollPhase::Rate(_) => a is Rate,
        }
    }

    /// What an answer leads to.
    pub open spec fn next(self, a: PollAnswerModel) -> PollStepModel {
        let p = self.poller;
        match (self.phase, a) {
            (PollPhase::Probe, PollAnswer::Probe(r)) => {
                let caps = probed_caps(r);
                let known = MountPoller { caps, ..p };
                if caps.commands.len() > 0 {
                    known.known()
                } else {
                    known.over(
                        unmonitored_state(
                            p.name,
                            match caps.refusal {
                                Some(why) => why,
                                None => "rclone reported no rc commands"@,
                            },
                        ),
                        false,
                    )
                }
            },
            (PollPhase::Stats, PollAnswer::Stats(Ok(stats))) => p.taught(stats).cached(
                probe_of(stats),
            ),
            (PollPhase::Stats, PollAnswer::Stats(Err(e))) => if not_registered(e) {
                MountPoller { mode: None, ..p.rootless() }.cached(CacheProbe::NotAsked)
            } else {
                p.failing(e)
            },
            (PollPhase::Queue(cache), PollAnswer::Queue(Ok(q))) => p.queued(
                cache,
                queue_state(p.name, q),
            ),
            (PollPhase::Queue(cache), PollAnswer::Queue(Err(e))) => if not_registered(e) {
                p.unqueued(cache)
            } else {
                p.failing(e)
            },
            (PollPhase::Progress(state), PollAnswer::Progress(ps)) => p.measured(
                match ps {
                    Some(ps) => progressed_state(state, ps),
                    None => state,
                },
            ),
            (PollPhase::Scan(why), PollAnswer::Scan(outcome)) => p.over(
                scan_reading(p.name, p.mode, why, outcome),
                true,
            ),
            (PollPhase::Rate(state), PollAnswer::Rate(rate)) => p.over(
                TransferState { rate_bytes_per_sec: shown_rate(state, rate), ..state },
                false,
            ),
            _ => PollStep::Go(self),
        }
    }
}

/// Where a run of answers takes a poll.
pub open spec fn poll_after(p: PollerModel, answers: Seq<PollAnswerModel>) -> PollStepModel
    decreases answers.len(),
{
    if answers.len() == 0 {
        p.first()
    } else {
        match poll_after(p, answers.drop_last()) {
            PollStep::Go(q) => q.next(answers.last()),
            PollStep::Finished(d) => PollStep::Finished(d),
        }
    }
}

/// How far along a phase is.
pub open spec fn poll_rank(phase: PollPhaseModel) -> int {
    match phase {
        PollPhase::Probe => 0,
        PollPhase::Stats => 1,
        PollPhase::Queue(_) => 2,
        PollPhase::Progress(_) => 3,
        PollPhase::Scan(_) => 4,
        PollPhase::Rate(_) => 5,
    }
}

/// Every answer that fits takes a poll further along or ends it, so it ends after at most
/// six of them.
pub proof fn a_poll_ends(q: PollingModel, a: PollAnswerModel)
    requires
        q.fits(a),
    ensures
        q.next(a) matches PollStep::Go(r) ==> poll_rank(q.phase) < poll_rank(r.phase) < 6,
{
}

/// What holds of a reading under a mode: it is told apart from a floor only where every
/// write goes through the queue, and a floor comes with its reason.
spec fn honest(state: TransferModel, mode: Option<CacheMode>) -> bool {
    &&& state.outstanding_known ==> surely_queues_all(mode)
    &&& !state.outstanding_known ==> state.degraded_reason is Some
}

/// What holds of a mount's poll at every moment.
spec fn polls_soundly(q: PollingModel, name: Seq<char>) -> bool {
    &&& q.poller.name == name
    &&& q.poller.cache_path is Some <==> q.poller.meta_path is Some
    &&& match q.phase {
        PollPhase::Queue(cache) => match cache {
            CacheProbe::Present(_, mode) => mode == q.poller.mode,
            _ => true,
        },
        PollPhase::Progress(state) => state.mount == name && honest(state, q.poller.mode),
        PollPhase::Rate(state) => state.mount == name && honest(state, q.poller.mode),
        _ => true,
    }
}

/// What holds of what a poll found.
spec fn found_soundly(d: PolledModel, name: Seq<char>) -> bool {
    &&& d.poller.name == name
    &&& d.state.mount == name
    &&& d.poller.cache_path is Some <==> d.poller.meta_path is Some
    &&& honest(d.state, d.poller.mode)
}

spec fn steps_soundly(s: PollStepModel, name: Seq<char>) -> bool {
    match s {
        PollStep::Go(q) => polls_soundly(q, name),
        PollStep::Finished(d) => found_soundly(d, name),
    }
}

proof fn lemma_queued_soundly(p: PollerModel, cache: CacheProbe<Seq<char>>, state: TransferModel)
    requires
        p.cache_path is Some <==> p.meta_path is Some,
        state.mount == p.name,
        cache matches CacheProbe::Present(_, mode) ==> mode == p.mode,
        !state.outstanding_known ==> state.degraded_reason is Some,
    ensures
        steps_soundly(p.queued(cache, state), p.name),
{
}

proof fn lemma_cached_soundly(p: PollerModel, cache: CacheProbe<Seq<char>>)
    requires
        p.cache_path is Some <==> p.meta_path is Some,
        cache matches CacheProbe::Present(_, mode) ==> mode == p.mode,
    ensures
        steps_soundly(p.cached(cache), p.name),
        steps_soundly(p.unqueued(cache), p.name),
{
    if let CacheProbe::Present(c, _) = cache {
        lemma_queued_soundly(p, cache, stats_state(p.name, c));
    }
}

proof fn lemma_next_soundly(q: PollingModel, a: PollAnswerModel)
    requires
        polls_soundly(q, q.poller.name),
    ensures
        steps_soundly(q.next(a), q.poller.name),
{
    let p = q.poller;
    match (q.phase, a) {
        (PollPhase::Probe, PollAnswer::Probe(r)) => {
            let known = MountPoller { caps: probed_caps(r), ..p };
            lemma_cached_soundly(known, CacheProbe::NotAsked);
        },
        (PollPhase::Stats, PollAnswer::Stats(Ok(stats))) => {
            lemma_cached_soundly(p.taught(stats), probe_of(stats));
        },
        (PollPhase::Stats, PollAnswer::Stats(Err(e))) => {
            lemma_cached_soundly(
                MountPoller { mode: None, ..p.rootless() },
                CacheProbe::NotAsked,
            );
        },
        (PollPhase::Queue(cache), PollAnswer::Queue(Ok(r))) => {
            lemma_queued_soundly(p, cache, queue_state(p.name, r));
        },
        (PollPhase::Queue(cache), PollAnswer::Queue(Err(e))) => {
            lemma_cached_soundly(p, cache);
        },
        _ => {},
    }
}

proof fn lemma_after_soundly(p: PollerModel, answers: Seq<PollAnswerModel>)
    requires
        p.cache_path is Some <==> p.meta_path is Some,
    ensures
        steps_soundly(poll_after(p, answers), p.name),
    decreases answers.len(),
{
    if answers.len() == 0 {
        lemma_cached_soundly(p, CacheProbe::NotAsked);
    } else {
        lemma_after_soundly(p, answers.drop_last());
        if let PollStep::Go(q) = poll_after(p, answers.drop_last()) {
            lemma_next_soundly(q, answers.last());
        }
    }
}

/// Whatever rclone and the disk answer, figures are reported as all there is only for a
/// mount whose cache mode, as it was last reported, puts every write through the queue. So
/// a mount is never called idle, nor safe to unmount, under a mode that lets writes stream
/// past what was read, or under a mode that is not known.
pub proof fn figures_are_trusted_only_where_every_write_is_queued(
    p: PollerModel,
    answers: Seq<PollAnswerModel>,
)
    requires
        p.cache_path is Some <==> p.meta_path is Some,
    ensures
        poll_after(p, answers) matches PollStep::Finished(d) ==> {
            &&& d.state.outstanding_known ==> surely_queues_all(d.poller.mode)
            &&& d.state.idle() ==> surely_queues_all(d.poller.mode)
            &&& d.state.safe() ==> surely_queues_all(d.poller.mode)
        },
{
    lemma_after_soundly(p, answers);
}

/// Whatever is answered, a reading that is not all there is says why, and every reading is
/// about the mount that was polled.
pub proof fn a_reading_that_falls_short_says_why(p: PollerModel, answers: Seq<PollAnswerModel>)
    requires
        p.cache_path is Some <==> p.meta_path is Some,
    ensures
        poll_after(p, answers) matches PollStep::Finished(d) ==> {
            &&& d.state.mount == p.name
            &&& d.poller.name == p.name
            &&& !d.state.outstanding_known ==> d.state.degraded_reason is Some
        },
{
    lemma_after_soundly(p, answers);
}

/// The two cache roots are remembered together or not at all, at every moment of every
/// poll. A poller starts with neither.
pub proof fn the_cache_roots_are_latched_together(p: PollerModel, answers: Seq<PollAnswerModel>)
    requires
        p.cache_path is Some <==> p.meta_path is Some,
    ensures
        match poll_after(p, answers) {
            PollStep::Go(q) => q.poller.cache_path is Some <==> q.poller.meta_path is Some,
            PollStep::Finished(d) => d.poller.cache_path is Some <==> d.poller.meta_path is Some,
        },
{
    lemma_after_soundly(p, answers);
}

/// A silence keeps what was learned from an answer, and every answer of `vfs/stats`
/// replaces it: after one that names no cache, or that is not there at all, no disk is
/// read until another names one.
pub proof fn an_answer_replaces_the_roots_and_a_silence_keeps_them(
    p: PollerModel,
    stats: VfsStats<Seq<char>>,
    why: Seq<char>,
)
    ensures
        stats.disk_cache is None ==> !p.taught(stats).rooted(),
        p.taught(stats).mode == stats.mode,
        match p.unanswered(why) {
            PollStep::Go(q) => q.poller == p && p.rooted(),
            PollStep::Finished(d) => d.poller == p && !p.rooted() && d.state
                == unmonitored_state(p.name, why),
        },
{
}

fn over(poller: MountPoller, state: TransferState, reset_rate: bool) -> (r: PollStep)
    ensures
        r@ == poller@.over(state@, reset_rate),
{
    PollStep::Finished(Polled { poller, state, reset_rate })
}

fn unmonitored(poller: MountPoller, why: String, reset_rate: bool) -> (r: PollStep)
    ensures
        r@ == poller@.over(unmonitored_state(poller@.name, why@), reset_rate),
{
    let state = TransferState::unmonitored(poller.name.as_str(), why);
    over(poller, state, reset_rate)
}

fn weigh(state: TransferState, cache: &CacheProbe) -> (r: TransferState)
    ensures
        r@ == weighed(state@, cache@),
{
    match cache {
        CacheProbe::Present(c, mode) => {
            let checked = state.with_cache_health(c);
            if all_queued(*mode) {
                return checked;
            }
            // Fails closed: an unrecognised mode takes the same branch, so a renamed
            // setting upstream cannot silently make an empty queue mean idle.
            let why = match mode {
                Some(CacheMode::Minimal) =>
                    "this mount's cache mode is minimal, so a file opened write-only streams straight to the remote without entering the queue",
                Some(_) =>
                    "this mount's cache mode does not put every write through the queue, so some may not be visible here",
                None =>
                    "this rclone did not report a recognised cache mode, so whether every write reaches the queue is unknown",
            };
            checked.partially_observed(why.to_owned())
        },
        CacheProbe::Absent => state.partially_observed(
            "this rclone reports a write-back queue but no cache to hold it, so what is queued is a floor rather than the whole story".to_owned(),
        ),
        CacheProbe::NotAsked => state.partially_observed(
            "this rclone registers no vfs/stats, so cache errors, a full cache and whether every write reaches the queue cannot be reported".to_owned(),
        ),
    }
}

fn scan_words(why: String, found: &Scan, mode: Option<CacheMode>) -> (r: String)
    ensures
        r@ == scan_reason(why@, found@, mode),
{
    let mut s = why;
    s.append("; read ");
    s.append(decimal(found.files.len() as u64).as_str());
    s.append(" pending file(s) from the cache on disk instead");
    if found.unreadable > 0 {
        s.append("; ");
        s.append(decimal(found.unreadable).as_str());
        s.append(" entries there could not be read");
    }
    if found.truncated {
        s.append("; and the cache was too large to finish walking");
    }
    if !all_queued(mode) {
        match mode {
            Some(_) => {
                s.append(
                    "; and this mount's cache mode does not put every write through the cache, so what is on disk is a floor",
                );
            },
            None => {
                s.append(
                    "; and this rclone never reported a recognised cache mode, so whether every write reaches the cache is unknown",
                );
            },
        }
    }
    s
}

/// The reading off the disk where rclone could not be asked, for the reason `why`. That the
/// disk could not be read either is said besides, since it is a different thing to go and
/// look at.
pub fn unreachable(name: &str, mode: Option<CacheMode>, why: String, outcome: ScanOutcome) -> (r:
    TransferState)
    ensures
        r@ == scan_reading(name@, mode, why@, outcome@),
{
    let mut s = why;
    match outcome {
        ScanOutcome::Found(found) => {
            if !found.root_present {
                s.append("; and the cache it reported is no longer on disk");
                return TransferState::unmonitored(name, s);
            }
            let said = scan_words(s, &found, mode);
            let state = TransferState::from_scan(name, &found);
            if all_queued(mode) {
                state.degraded(said)
            } else {
                state.partially_observed(said)
            }
        },
        ScanOutcome::Unreadable(err) => {
            s.append("; and its cache could not be read either: ");
            s.append(err.as_str());
            TransferState::unmonitored(name, s)
        },
        ScanOutcome::Lost(err) => {
            s.append("; ");
            s.append(err.as_str());
            TransferState::unmonitored(name, s)
        },
    }
}

impl MountPoller {
    fn at_phase(self, phase: PollPhase) -> (r: PollStep)
        ensures
            r@ == self@.at(phase@),
    {
        PollStep::Go(Polling { poller: self, phase })
    }

    fn go_on(self) -> (r: PollStep)
        ensures
            r@ == self@.known(),
    {
        if self.caps.has("vfs/stats") {
            self.at_phase(PollPhase::Stats)
        } else {
            self.with_cache(CacheProbe::NotAsked)
        }
    }

    fn with_cache(self, cache: CacheProbe) -> (r: PollStep)
        ensures
            r@ == self@.cached(cache@),
    {
        if self.caps.has("vfs/queue") {
            self.at_phase(PollPhase::Queue(cache))
        } else {
            self.without_queue(cache)
        }
    }

    fn without_queue(self, cache: CacheProbe) -> (r: PollStep)
        ensures
            r@ == self@.unqueued(cache@),
    {
        match &cache {
            CacheProbe::Present(c, _) => {
                let state = TransferState::from_stats(self.name.as_str(), c);
                self.with_reading(&cache, state)
            },
            CacheProbe::Absent => unmonitored(
                self,
                "this rclone registers no vfs/queue and this mount has no write-back cache, so nothing outstanding can be observed".to_owned(),
                false,
            ),
            CacheProbe::NotAsked => unmonitored(
                self,
                "this rclone registers neither vfs/queue nor vfs/stats, so nothing outstanding can be observed over rc".to_owned(),
                false,
            ),
        }
    }

    fn with_reading(self, cache: &CacheProbe, state: TransferState) -> (r: PollStep)
        ensures
            r@ == self@.queued(cache@, state@),
    {
        if !state.outstanding_known {
            let said = match cache {
                CacheProbe::Present(c, _) => TransferState::from_stats(
                    self.name.as_str(),
                    c,
                ).partially_observed(
                    "this rclone reports a write-back cache but no queue, so only its counts can be read".to_owned(),
                ),
                _ => state,
            };
            return over(self, said, true);
        }
        let state = weigh(state, cache);
        // Without the cache path a transfer cannot be told from another mount's, so asking
        // for progress would be a guess.
        let queued = match state.fidelity {
            Some(Tier::T2) => true,
            _ => false,
        };
        if self.caps.has("core/stats") && queued && self.cache_path.is_some() {
            self.at_phase(PollPhase::Progress(state))
        } else {
            self.measure(state)
        }
    }

    fn measure(self, state: TransferState) -> (r: PollStep)
        ensures
            r@ == self@.measured(state@),
    {
        if state.pending.files == 0 || !state.has_byte_total() {
            // Nothing moving, or no byte total to compare with the last one.
            let quiet = state.with_rate(None);
            over(self, quiet, true)
        } else {
            self.at_phase(PollPhase::Rate(state))
        }
    }

    fn failed(self, e: RcError) -> (r: PollStep)
        ensures
            r@ == self@.failing(e@),
    {
        match e {
            RcError::Unreachable(why) => if self.cache_path.is_some() && self.meta_path.is_some() {
                self.at_phase(PollPhase::Scan(why))
            } else {
                // A mount that never answered has nowhere to look, and an empty scan there
                // would be a claim.
                unmonitored(self, why, true)
            },
            other => unmonitored(self, other.into_words(), true),
        }
    }

    /// Begin to poll this mount. A poll cannot fail: a mount that produces no reading at all
    /// would vanish from the report, which is worse than one that says why it cannot tell.
    pub fn poll(self) -> (r: PollStep)
        ensures
            r@ == self@.first(),
    {
        if self.caps.is_empty() {
            self.at_phase(PollPhase::Probe)
        } else {
            self.go_on()
        }
    }
}

fn is_not_registered(e: &RcError) -> (r: bool)
    ensures
        r == not_registered(e@),
{
    match e {
        RcError::Failed { status, text: _ } => *status == NOT_FOUND,
        _ => false,
    }
}

fn path_or_empty(p: &Option<String>) -> (r: String)
    ensures
        r@ == match opt_text(*p) {
            Some(t) => t,
            None => Seq::<char>::empty(),
        },
{
    match p {
        Some(t) => t.clone(),
        None => String::new(),
    }
}

impl Polling {
    /// What to do next.
    pub fn ask(&self) -> (r: PollAsk)
        ensures
            r@ == self@.asks(),
    {
        match &self.phase {
            PollPhase::Probe => PollAsk::Probe,
            PollPhase::Stats => PollAsk::Stats,
            PollPhase::Queue(_) => PollAsk::Queue,
            PollPhase::Progress(_) => PollAsk::Progress(path_or_empty(&self.poller.cache_path)),
            PollPhase::Scan(_) => PollAsk::Scan {
                meta: path_or_empty(&self.poller.meta_path),
                data: path_or_empty(&self.poller.cache_path),
            },
            PollPhase::Rate(state) => PollAsk::Rate(state.remaining_bytes()),
        }
    }

    fn on_probe(poller: MountPoller, probed: Result<Capabilities, String>) -> (r: PollStep)
        ensures
            r@ == (Polling { poller: poller@, phase: PollPhaseModel::Probe }).next(
                PollAnswer::Probe(probed)@,
            ),
    {
        let mut p = poller;
        // Whatever the probe learned is kept, a new refusal included: an old reason must
        // not outlive what caused it.
        p.caps = match probed {
            Ok(c) => c,
            Err(why) => Capabilities::from_refusal(why),
        };
        if !p.caps.is_empty() {
            return p.go_on();
        }
        let why = match &p.caps.refusal {
            Some(why) => why.clone(),
            None => "rclone reported no rc commands".to_owned(),
        };
        unmonitored(p, why, false)
    }

    fn on_stats(poller: MountPoller, reply: Result<VfsStats, RcError>) -> (r: PollStep)
        ensures
            r@ == (Polling { poller: poller@, phase: PollPhaseModel::Stats }).next(
                PollAnswer::Stats(reply)@,
            ),
    {
        let mut p = poller;
        match reply {
            Ok(stats) => {
                let cache = p.learn(stats);
                p.with_cache(cache)
            },
            Err(e) => {
                if is_not_registered(&e) {
                    // An answer, not a silence: nothing this rclone says describes the
                    // cache that a previous one named.
                    p.forget_roots();
                    p.mode = None;
                    p.with_cache(CacheProbe::NotAsked)
                } else {
                    p.failed(e)
                }
            },
        }
    }

    fn on_queue(
        poller: MountPoller,
        cache: CacheProbe,
        reply: Result<Option<Vec<QueueItem>>, RcError>,
    ) -> (r: PollStep)
        ensures
            r@ == (Polling { poller: poller@, phase: PollPhaseModel::Queue(cache@) }).next(
                PollAnswer::Queue(reply)@,
            ),
    {
        match reply {
            Ok(q) => {
                let state = TransferState::from_queue(poller.name.as_str(), &q);
                poller.with_reading(&cache, state)
            },
            Err(e) => if is_not_registered(&e) {
                poller.without_queue(cache)
            } else {
                poller.failed(e)
            },
        }
    }

    fn on_rate(poller: MountPoller, state: TransferState, rate: Option<u64>) -> (r: PollStep)
        ensures
            r@ == (Polling { poller: poller@, phase: PollPhaseModel::Rate(state@) }).next(
                PollAnswerModel::Rate(rate),
            ),
    {
        let shown = match rate {
            Some(n) => {
                let still = match state.uploading {
                    Some(u) => u == 0,
                    None => false,
                };
                if n > 0 || still {
                    Some(n)
                } else {
                    None
                }
            },
            None => None,
        };
        let state = state.with_rate(shown);
        over(poller, state, false)
    }

    /// Go on with the answer to what was asked.
    pub fn step(self, answer: PollAnswer) -> (r: PollStep)
        ensures
            r@ == self@.next(answer@),
    {
        let Polling { poller, phase } = self;
        match (phase, answer) {
            (PollPhase::Probe, PollAnswer::Probe(r)) => Polling::on_probe(poller, r),
            (PollPhase::Stats, PollAnswer::Stats(r)) => Polling::on_stats(poller, r),
            (PollPhase::Queue(cache), PollAnswer::Queue(r)) => Polling::on_queue(
                poller,
                cache,
                r,
            ),
            (PollPhase::Progress(state), PollAnswer::Progress(ps)) => {
                let state = match ps {
                    Some(ps) => state.with_progress(&ps),
                    None => state,
                };
                poller.measure(state)
            },
            (PollPhase::Scan(why), PollAnswer::Scan(outcome)) => {
                let state = unreachable(poller.name.as_str(), poller.mode, why, outcome);
                over(poller, state, true)
            },
            (PollPhase::Rate(state), PollAnswer::Rate(rate)) => Polling::on_rate(
                poller,
                state,
                rate,
            ),
            (phase, _) => PollStep::Go(Polling { poller, phase }),
        }
    }
}

} // verus!
