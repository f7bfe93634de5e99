//! What a poll concludes from what rclone and the disk answer.

use vfsmount_tray::poller::{
    Capabilities, MountPoller, Poll, PollAnswer, PollAsk, PollStep, RcError, ScanOutcome, VfsStats,
};
use vfsmount_tray::rate::RateEstimator;
use vfsmount_tray::transfer::{
    CacheMode, DiskCache, Progress, QueueItem, Scan, ScanFile, Tier, TransferState,
};

const ALL: [&str; 3] = ["rc/list", "vfs/queue", "vfs/stats"];
const POLL: Poll = Poll {
    active_secs: 1,
    idle_secs: 30,
};

/// An rclone that answers from canned replies, and the disk under it.
struct FakeRc {
    alive: bool,
    /// `None` where it does not say which commands it has.
    commands: Option<Vec<String>>,
    /// `None` where there is no such endpoint.
    queue: Option<Option<Vec<QueueItem>>>,
    stats: Option<VfsStats>,
    progress: Option<Vec<Progress>>,
    /// `None` where the walk fails.
    disk: Option<Scan>,
    scanned: Vec<(String, String)>,
    rate: RateEstimator,
    now: u64,
}

fn item(name: &str, size: u64, uploading: bool) -> QueueItem {
    QueueItem {
        name: name.into(),
        size: Some(size),
        tries: 0,
        uploading,
    }
}

fn cache() -> DiskCache {
    DiskCache {
        path: "/cache/vfs".into(),
        path_meta: "/cache/vfsMeta".into(),
        uploads_queued: 0,
        uploads_in_progress: 1,
        errored_files: 0,
        out_of_space: false,
    }
}

fn stats(mode: Option<CacheMode>, disk_cache: Option<DiskCache>) -> Option<VfsStats> {
    Some(VfsStats { mode, disk_cache })
}

fn two_items() -> Vec<QueueItem> {
    vec![
        item("one.bin", 262_144, false),
        item("two.bin", 131_072, false),
    ]
}

fn scan(files: &[(&str, u64)]) -> Scan {
    Scan {
        root_present: true,
        files: files
            .iter()
            .map(|(name, size)| ScanFile {
                name: name.to_string(),
                size: Some(*size),
            })
            .collect(),
        unreadable: 0,
        truncated: false,
    }
}

fn fake(commands: &[&str], queue: Option<Vec<QueueItem>>, stats: Option<VfsStats>) -> FakeRc {
    FakeRc {
        alive: true,
        commands: Some(commands.iter().map(|c| c.to_string()).collect()),
        queue: Some(queue),
        stats,
        progress: None,
        disk: Some(scan(&[])),
        scanned: Vec::new(),
        rate: RateEstimator::new(),
        now: 0,
    }
}

fn uploading() -> Vec<QueueItem> {
    vec![item("upload.bin", 100_000_000, true)]
}

fn ordinary() -> FakeRc {
    fake(
        &ALL,
        Some(uploading()),
        stats(Some(CacheMode::Writes), Some(cache())),
    )
}

impl FakeRc {
    fn probe(&self) -> Result<Capabilities, String> {
        if !self.alive {
            return Err("rclone is not reachable: no such socket".to_string());
        }
        match &self.commands {
            Some(commands) => Ok(Capabilities {
                commands: commands.clone(),
                refusal: None,
            }),
            None => Ok(Capabilities {
                commands: Vec::new(),
                refusal: Some("rc/list was refused".to_string()),
            }),
        }
    }

    fn answered<T: Clone>(&self, reply: &Option<T>) -> Result<T, RcError> {
        if !self.alive {
            return Err(RcError::Unreachable("the socket is gone".to_string()));
        }
        match reply {
            Some(r) => Ok(r.clone()),
            None => Err(RcError::Failed {
                status: 404,
                text: "command not found".to_string(),
            }),
        }
    }

    fn connect(&self) -> MountPoller {
        MountPoller::connect("backup", self.probe())
    }

    /// One poll, a second after the one before.
    fn poll(&mut self, p: &mut MountPoller) -> TransferState {
        self.now += 1000;
        let mut step = p.clone().poll();
        for _ in 0..20 {
            let polling = match step {
                PollStep::Go(polling) => polling,
                PollStep::Finished(done) => {
                    if done.reset_rate {
                        self.rate.reset();
                    }
                    *p = done.poller;
                    return done.state;
                }
            };
            let answer = match polling.ask() {
                PollAsk::Probe => PollAnswer::Probe(self.probe()),
                PollAsk::Stats => PollAnswer::Stats(self.answered(&self.stats)),
                PollAsk::Queue => PollAnswer::Queue(self.answered(&self.queue)),
                PollAsk::Progress(_) => PollAnswer::Progress(self.progress.clone()),
                PollAsk::Scan { meta, data } => {
                    self.scanned.push((meta, data));
                    PollAnswer::Scan(match &self.disk {
                        Some(s) => ScanOutcome::Found(s.clone()),
                        None => ScanOutcome::Unreadable("permission denied".to_string()),
                    })
                }
                PollAsk::Rate(bytes) => PollAnswer::Rate(self.rate.sample(self.now, bytes)),
            };
            step = polling.step(answer);
        }
        panic!("the poll never ended")
    }
}

fn why(s: &TransferState) -> String {
    s.degraded_reason.clone().expect("the user has to be told why")
}

#[test]
fn a_full_rclone_reports_the_queue_with_sizes_and_in_flight() {
    let mut rc = ordinary();
    let mut p = rc.connect();
    let s = rc.poll(&mut p);
    assert_eq!(s.fidelity, Some(Tier::T2));
    assert!(s.pending.known_bytes > 0, "the queue carries a byte total");
    assert_eq!(s.uploading, Some(1));
    assert!(s.degraded_reason.is_none());
}

#[test]
fn a_minimal_cache_mode_mount_is_never_reported_idle() {
    let mut rc = fake(
        &ALL,
        Some(vec![]),
        stats(Some(CacheMode::Minimal), Some(cache())),
    );
    let mut p = rc.connect();
    let s = rc.poll(&mut p);
    assert!(
        !s.is_idle(),
        "an empty queue on a minimal mount is not proof the mount is idle"
    );
    assert!(!s.outstanding_known);
    assert!(why(&s).contains("minimal"), "{}", why(&s));
}

#[test]
fn a_cache_mode_rclone_did_not_name_is_not_assumed_safe() {
    let mut rc = fake(&ALL, Some(vec![]), stats(None, Some(cache())));
    let mut p = rc.connect();
    let s = rc.poll(&mut p);
    assert!(
        !s.outstanding_known,
        "an unparseable cache mode must fail closed, not open"
    );
    assert!(!s.is_idle());
    assert!(s.degraded_reason.is_some());
}

#[test]
fn a_writes_cache_mode_mount_with_an_empty_queue_is_trusted() {
    let mut rc = fake(
        &ALL,
        Some(vec![]),
        stats(Some(CacheMode::Writes), Some(cache())),
    );
    let mut p = rc.connect();
    let s = rc.poll(&mut p);
    assert!(s.outstanding_known, "every closed write reaches this queue");
    assert!(s.is_idle());
    assert!(s.safe_to_unmount());
    assert!(s.degraded_reason.is_none());
}

#[test]
fn a_cache_without_a_queue_keeps_its_counts() {
    let mut c = cache();
    c.uploads_queued = 5;
    let mut rc = fake(&ALL, None, stats(Some(CacheMode::Writes), Some(c)));
    let mut p = rc.connect();
    let s = rc.poll(&mut p);
    assert_eq!(s.fidelity, Some(Tier::T3), "the counts are what is left");
    assert_eq!(s.pending.files, 6, "5 queued plus the 1 in progress");
    assert!(!s.outstanding_known);
    let why = why(&s);
    assert!(
        !why.contains("cache-mode off") && !why.contains("--vfs-cache-mode off"),
        "vfs/stats just reported a cache; blaming the cache mode is a wrong lead: {why}"
    );
}

#[test]
fn a_queue_without_a_cache_keeps_its_entries() {
    let mut rc = fake(&ALL, Some(two_items()), stats(None, None));
    let mut p = rc.connect();
    let s = rc.poll(&mut p);
    assert_eq!(s.pending.files, 2, "the queue answered; keep what it said");
    assert_eq!(s.pending.known_bytes, 393_216);
    assert!(
        !s.outstanding_known,
        "but a queue with no cache is not a total"
    );
    assert!(s.degraded_reason.is_some());
}

#[test]
fn a_read_mostly_full_mount_is_trusted_too() {
    let mut rc = fake(
        &ALL,
        Some(vec![]),
        stats(Some(CacheMode::Full), Some(cache())),
    );
    let mut p = rc.connect();
    let s = rc.poll(&mut p);
    assert!(
        s.safe_to_unmount(),
        "400 read-cached files are not outstanding work: {:?}",
        s.degraded_reason
    );
    assert!(s.degraded_reason.is_none());
}

#[test]
fn a_partially_observed_mount_still_reports_a_rate() {
    let mut rc = fake(
        &ALL,
        Some(two_items()),
        stats(Some(CacheMode::Minimal), Some(cache())),
    );
    let mut p = rc.connect();
    let first = rc.poll(&mut p);
    assert!(!first.outstanding_known, "minimal is never the whole story");
    assert!(first.pending.files > 0, "but its entries are real");

    rc.queue = Some(Some(vec![item("two.bin", 131_072, false)]));
    let second = rc.poll(&mut p);
    assert!(
        second.rate_bytes_per_sec.is_some_and(|r| r > 0),
        "256KB left the queue, got {:?}",
        second.rate_bytes_per_sec
    );
    assert_eq!(second.rate_bytes_per_sec, Some(262_144));
}

#[test]
fn the_actionable_flags_come_from_stats_without_losing_the_queue_total() {
    let mut c = cache();
    c.out_of_space = true;
    c.errored_files = 3;
    let mut rc = fake(
        &ALL,
        Some(uploading()),
        stats(Some(CacheMode::Writes), Some(c)),
    );
    let mut p = rc.connect();
    let s = rc.poll(&mut p);
    assert!(s.pending.known_bytes > 0, "the queue total survived");
    assert_eq!(
        s.out_of_space,
        Some(true),
        "the cache is full and the user must be told"
    );
    assert_eq!(s.errored_files, Some(3));
}

#[test]
fn a_build_without_vfs_stats_keeps_the_queue_answer() {
    let mut rc = fake(&["rc/list", "vfs/queue"], Some(two_items()), None);
    let mut p = rc.connect();
    let s = rc.poll(&mut p);
    assert_eq!(s.fidelity, Some(Tier::T2));
    assert_eq!(s.pending.files, 2, "the queue's entries survived");
    assert_eq!(s.pending.known_bytes, 393_216);
    assert_eq!(s.files.len(), 2);
    assert!(!s.outstanding_known);
    assert!(
        s.degraded_reason
            .as_deref()
            .is_some_and(|r| r.contains("vfs/stats")),
        "the reason must name the endpoint that is missing, got {:?}",
        s.degraded_reason
    );
}

#[test]
fn a_vfs_stats_that_stops_answering_does_not_fault_the_whole_poll() {
    let mut rc = fake(&ALL, Some(two_items()), None);
    let mut p = rc.connect();
    let s = rc.poll(&mut p);
    assert_eq!(s.fidelity, Some(Tier::T2));
    assert_eq!(s.pending.files, 2, "the queue still answered");
    assert_eq!(s.pending.known_bytes, 393_216);
}

#[test]
fn a_build_without_vfs_queue_falls_to_counts_rather_than_failing() {
    let mut rc = fake(
        &["rc/list", "vfs/stats"],
        None,
        stats(Some(CacheMode::Writes), Some(cache())),
    );
    rc.queue = None;
    let mut p = rc.connect();
    let s = rc.poll(&mut p);
    assert_eq!(s.fidelity, Some(Tier::T3));
    assert_eq!(
        s.pending.known_bytes, 0,
        "there is no honest byte total without the queue"
    );
    assert!(s.files.is_empty());
}

#[test]
fn an_rclone_that_has_gone_away_degrades_and_says_why() {
    let mut rc = ordinary();
    rc.alive = false;
    let mut p = rc.connect();
    assert_eq!(p.tier(), Tier::T4);

    let s = rc.poll(&mut p);
    assert!(!s.outstanding_known);
    assert_eq!(s.fidelity, None);
    assert!(
        !s.fidelity.is_some_and(Tier::meets_the_bar),
        "an unobserved mount must never claim it meets the bar"
    );
    assert!(
        s.degraded_reason.is_some(),
        "the UI has to be able to say why it lost precision"
    );
}

#[test]
fn polling_slows_down_when_nothing_is_outstanding() {
    let mut rc = fake(
        &ALL,
        Some(vec![item("queued.bin", 10, false)]),
        stats(Some(CacheMode::Writes), Some(cache())),
    );
    let mut p = rc.connect();
    let busy = rc.poll(&mut p);
    assert!(!busy.is_idle(), "the capture has a queued file");
    assert_eq!(MountPoller::interval(&busy, &POLL), POLL.active_secs);

    // An empty queue that rclone reported.
    let empty = TransferState::from_queue("backup", &Some(vec![]));
    assert!(empty.is_idle());
    assert_eq!(
        MountPoller::interval(&empty, &POLL),
        POLL.idle_secs,
        "an idle mount must not be polled every second"
    );

    let unreported = TransferState::from_queue("backup", &None);
    assert!(
        !unreported.is_idle(),
        "no queue key means no queue, which is the opposite of an empty one"
    );
}

#[test]
fn the_cadence_is_the_one_the_config_asked_for() {
    let poll = Poll {
        active_secs: 3,
        idle_secs: 600,
    };
    let empty = TransferState::from_queue("backup", &Some(vec![]));
    assert_eq!(MountPoller::interval(&empty, &poll), 600);

    let mut busy = empty.clone();
    busy.pending.files = 1;
    assert_eq!(MountPoller::interval(&busy, &poll), 3);

    // A walk of the cache is expensive and its answer moves slowly.
    busy.fidelity = Some(Tier::T4);
    assert_eq!(MountPoller::interval(&busy, &poll), 600);
}

#[test]
fn a_stalled_looking_poll_reports_no_rate_rather_than_zero() {
    let mut rc = ordinary();
    let mut p = rc.connect();
    let first = rc.poll(&mut p);
    assert_eq!(
        first.rate_bytes_per_sec, None,
        "one sample cannot be a rate"
    );
    assert_eq!(first.uploading, Some(1), "the capture has a file in flight");

    let second = rc.poll(&mut p);
    assert_eq!(
        second.rate_bytes_per_sec, None,
        "nothing left the queue and a file is uploading, so 0 B/s would read as \
         stalled when the transfer is in fact moving"
    );
}

#[test]
fn a_mount_with_no_write_back_cache_is_unmonitored_not_idle() {
    let mut rc = fake(&["rc/list", "vfs/queue"], None, None);
    let mut p = rc.connect();
    let s = rc.poll(&mut p);
    assert!(
        !s.outstanding_known,
        "nothing can be observed here, so the figures must not be presented as fact"
    );
    assert!(
        !s.is_idle(),
        "an unobservable mount is not an idle one — an unmount check reads this"
    );
    let why = why(&s);
    assert!(why.contains("vfs-cache-mode off"), "{why}");
    assert_eq!(
        MountPoller::interval(&s, &POLL),
        POLL.idle_secs,
        "re-deriving 'still cannot see it' every second is a busy loop over a fact \
         that cannot change until the mount is restarted"
    );
}

#[test]
fn the_rate_tracks_bytes_in_flight_not_departures_from_the_queue() {
    let sent = |bytes: u64| {
        Some(vec![Progress {
            name: "upload.bin".to_string(),
            bytes,
        }])
    };
    let mut rc = fake(
        &["rc/list", "vfs/queue", "vfs/stats", "core/stats"],
        Some(uploading()),
        stats(Some(CacheMode::Writes), Some(cache())),
    );
    rc.progress = sent(20_000_000);
    let mut p = rc.connect();
    let first = rc.poll(&mut p);
    assert!(first.has_progress, "core/stats reached the state");
    assert_eq!(
        first.rate_bytes_per_sec, None,
        "one sample is not a rate yet"
    );

    rc.progress = sent(60_000_000);
    let second = rc.poll(&mut p);
    assert_eq!(second.pending.known_bytes, first.pending.known_bytes);
    assert!(
        second.rate_bytes_per_sec.is_some_and(|r| r > 0),
        "40MB moved between polls, got {:?}",
        second.rate_bytes_per_sec
    );
    assert_eq!(second.rate_bytes_per_sec, Some(40_000_000));
    assert_eq!(second.remaining_bytes(), 40_000_000);
}

#[test]
fn a_reason_latched_at_connect_does_not_outlive_what_caused_it() {
    let mut rc = ordinary();
    rc.alive = false;
    rc.commands = None;
    let mut p = rc.connect();
    let before = rc.poll(&mut p);
    let first = why(&before);

    rc.alive = true;
    let after = rc.poll(&mut p);
    let second = why(&after);
    assert_ne!(
        second, first,
        "the socket exists and answers now, so a reason naming its absence is stale"
    );
}

#[test]
fn a_mount_that_starts_after_the_service_recovers() {
    let mut rc = ordinary();
    rc.alive = false;
    let mut p = rc.connect();
    let before = rc.poll(&mut p);
    assert!(!before.outstanding_known, "nothing to see yet");
    assert!(!p.rc_answered());

    rc.alive = true;
    let after = rc.poll(&mut p);
    assert!(
        after.outstanding_known,
        "the poller must re-probe rather than stay blind for the session"
    );
    assert_eq!(after.fidelity, Some(Tier::T2));
    assert!(after.pending.files > 0);
    assert!(p.rc_answered());
}

#[test]
fn an_rclone_that_dies_after_connecting_falls_to_the_disk() {
    let mut rc = ordinary();
    rc.disk = Some(scan(&[("left-behind.bin", 4096)]));
    let mut p = rc.connect();
    let before = rc.poll(&mut p);
    assert!(before.outstanding_known && !before.is_idle());

    rc.alive = false;
    let after = rc.poll(&mut p);
    assert_eq!(
        rc.scanned,
        [("/cache/vfsMeta".to_string(), "/cache/vfs".to_string())]
    );
    assert_eq!(after.fidelity, Some(Tier::T4), "read off disk, not over rc");
    assert_eq!(after.pending.files, 1, "the backlog is still there");
    assert_eq!(after.pending.known_bytes, 4096);
    assert!(!after.is_idle());
    assert!(
        after.degraded_reason.is_some(),
        "this is a fallback, and the user should be told which one"
    );
    assert_eq!(
        MountPoller::interval(&after, &POLL),
        POLL.idle_secs,
        "a disk-derived state has files outstanding but must not drive the 1s cadence \
         — each poll behind it is a full walk of the metadata tree"
    );
}

#[test]
fn a_minimal_mount_is_not_trusted_just_because_the_disk_was_readable() {
    let mut rc = fake(
        &ALL,
        Some(vec![]),
        stats(Some(CacheMode::Minimal), Some(cache())),
    );
    let mut p = rc.connect();
    let _ = rc.poll(&mut p);

    rc.alive = false;
    let after = rc.poll(&mut p);
    assert!(
        !after.safe_to_unmount(),
        "an empty cache on a minimal mount says nothing about a streaming write"
    );
    assert!(!after.outstanding_known);
    let why = why(&after);
    assert!(
        why.contains("does not put every write through the cache"),
        "the mode was reported and is known to stream, which is a different thing to \
         say than 'unknown': {why}"
    );
}

#[test]
fn a_writes_mount_falling_to_disk_is_still_trusted() {
    let mut rc = fake(
        &ALL,
        Some(vec![]),
        stats(Some(CacheMode::Writes), Some(cache())),
    );
    let mut p = rc.connect();
    let _ = rc.poll(&mut p);

    rc.alive = false;
    let after = rc.poll(&mut p);
    assert!(
        after.safe_to_unmount(),
        "the cache is present, readable and empty on a mode that queues every write: \
         {:?}",
        after.degraded_reason
    );
    assert_eq!(after.fidelity, Some(Tier::T4));
}

#[test]
fn a_cache_mode_that_stops_being_recognised_clears_the_latched_one() {
    let mut rc = fake(
        &ALL,
        Some(vec![]),
        stats(Some(CacheMode::Writes), Some(cache())),
    );
    let mut p = rc.connect();
    assert!(rc.poll(&mut p).safe_to_unmount(), "a writes mount, latched");

    rc.stats = stats(None, Some(cache()));
    let live = rc.poll(&mut p);
    assert!(!live.outstanding_known, "the live path fails closed on it");

    rc.alive = false;
    let after = rc.poll(&mut p);
    assert!(
        !after.safe_to_unmount(),
        "and so must the fallback — the stale Writes would have said yes"
    );
    let why = why(&after);
    assert!(
        why.contains("recognised cache mode"),
        "an unknown mode is not the same claim as a known non-queueing one: {why}"
    );
}

#[test]
fn the_two_cache_roots_are_latched_together_or_not_at_all() {
    let mut rc = fake(
        &ALL,
        Some(vec![]),
        stats(Some(CacheMode::Writes), Some(cache())),
    );
    rc.disk = Some(scan(&[("waiting.bin", 2048)]));
    let mut p = rc.connect();
    let _ = rc.poll(&mut p);

    let mut half = cache();
    half.path = "/other/vfs".into();
    half.path_meta = String::new();
    rc.stats = stats(Some(CacheMode::Writes), Some(half));
    let live = rc.poll(&mut p);
    if let Some(why) = live.degraded_reason.clone() {
        assert!(
            !why.contains("recognised cache mode"),
            "rclone did report a mode; only its roots were unusable: {why}"
        );
    }

    rc.alive = false;
    let after = rc.poll(&mut p);
    assert_eq!(
        after.fidelity, None,
        "a cache reported but not named leaves this mount's roots unknown, and the \
         previous instance's tree is not an answer about this one"
    );
    assert!(!after.safe_to_unmount());
    assert!(rc.scanned.is_empty());
}

#[test]
fn an_rclone_without_vfs_stats_clears_the_roots_a_previous_one_named() {
    let mut rc = fake(
        &ALL,
        Some(vec![]),
        stats(Some(CacheMode::Writes), Some(cache())),
    );
    let mut p = rc.connect();
    assert!(
        rc.poll(&mut p).safe_to_unmount(),
        "roots latched from a cache"
    );

    rc.stats = None;
    let _ = rc.poll(&mut p);

    rc.alive = false;
    let after = rc.poll(&mut p);
    assert_eq!(
        after.fidelity, None,
        "no cache of this mount's was ever named, so no tier produced this"
    );
    assert!(!after.safe_to_unmount());
}

#[test]
fn a_cache_that_stops_being_reported_clears_the_latched_roots() {
    let mut rc = fake(
        &ALL,
        Some(vec![]),
        stats(Some(CacheMode::Writes), Some(cache())),
    );
    let mut p = rc.connect();
    assert!(
        rc.poll(&mut p).safe_to_unmount(),
        "roots latched from a cache"
    );

    rc.stats = stats(Some(CacheMode::Writes), None);
    let _ = rc.poll(&mut p);

    rc.alive = false;
    let after = rc.poll(&mut p);
    assert_eq!(
        after.fidelity, None,
        "there is no cache of this mount's to scan, so no tier produced this"
    );
    assert!(!after.safe_to_unmount());
}

#[test]
fn a_cache_that_cannot_be_read_is_named_separately_from_the_rc_failure() {
    let mut rc = ordinary();
    let mut p = rc.connect();
    let _ = rc.poll(&mut p);

    rc.alive = false;
    rc.disk = None;
    let after = rc.poll(&mut p);
    assert!(!after.outstanding_known);
    let why = why(&after);
    assert!(
        why.contains("could not be read"),
        "the cache failing to read is a different thing to go and look at than rclone \
         being unreachable: {why}"
    );
}

#[test]
fn a_fallback_that_could_not_read_everything_says_which_part_it_missed() {
    let mut rc = ordinary();
    let mut partial = scan(&[("readable.bin", 32)]);
    partial.unreadable = 1;
    rc.disk = Some(partial);
    let mut p = rc.connect();
    let _ = rc.poll(&mut p);

    rc.alive = false;
    let after = rc.poll(&mut p);
    assert!(!after.outstanding_known, "one entry went unread");
    let why = why(&after);
    assert!(
        why.contains("could not be read"),
        "the reason has to name the unread entries, not just the rc failure: {why}"
    );
}

#[test]
fn an_rclone_that_dies_with_its_cache_gone_reports_unknown_not_zero() {
    let mut rc = ordinary();
    let mut gone = scan(&[]);
    gone.root_present = false;
    rc.disk = Some(gone);
    let mut p = rc.connect();
    let _ = rc.poll(&mut p);

    rc.alive = false;
    let after = rc.poll(&mut p);
    assert!(
        !after.outstanding_known,
        "the queue did not empty — the cache we were told about is simply not there"
    );
    assert!(!after.is_idle());
    assert_eq!(after.pending.files, 0);
    assert_eq!(after.rate_bytes_per_sec, None);
    assert_eq!(
        after.fidelity, None,
        "there was no cache to scan, so no tier produced this"
    );
    let why = why(&after);
    assert!(
        why.contains("no longer on disk"),
        "'read 0 pending files from the cache' would be a claim about a cache that \
         is not there: {why}"
    );
}

#[test]
fn a_walk_that_was_lost_is_no_reading() {
    let s = vfsmount_tray::poller::unreachable(
        "backup",
        Some(CacheMode::Writes),
        "rclone is gone".to_string(),
        ScanOutcome::Lost("the walk was cancelled".to_string()),
    );
    assert_eq!(s.fidelity, None);
    assert!(!s.outstanding_known);
    assert!(why(&s).contains("rclone is gone"), "{}", why(&s));
}

#[test]
fn the_tier_follows_from_the_commands() {
    for (commands, tier) in [
        (&["vfs/queue", "core/stats"][..], Tier::T1),
        (&["vfs/queue"][..], Tier::T2),
        (&["vfs/stats"][..], Tier::T3),
        (&["core/version"][..], Tier::T4),
    ] {
        let rc = fake(commands, None, None);
        assert_eq!(rc.connect().tier(), tier, "{commands:?}");
    }
    let bar = |t: Tier| t.meets_the_bar();
    assert!(bar(Tier::T1) && bar(Tier::T2) && !bar(Tier::T3) && bar(Tier::T4));
}
