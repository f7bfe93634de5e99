//! What is outstanding on a mount, and how well it is known.

use crate::text::{opt_text, same_text, views};
use vstd::prelude::*;
use vstd::string::*;

verus! {

/// How much detail a reading has, the richest first.
#[derive(Debug, Clone, Copy, PartialEq, Eq, Structural)]
pub enum Tier {
    /// The queue, with progress per file.
    T1,
    /// The queue, with sizes.
    T2,
    /// Counts alone.
    T3,
    /// The cache, read off the disk.
    T4,
}

impl Tier {
    /// The place of a tier, the richest being first.
    pub open spec fn place(self) -> int {
        match self {
            Tier::T1 => 1,
            Tier::T2 => 2,
            Tier::T3 => 3,
            Tier::T4 => 4,
        }
    }

    /// The name that a tier goes by.
    pub open spec fn named(self) -> Seq<char> {
        match self {
            Tier::T1 => "T1"@,
            Tier::T2 => "T2"@,
            Tier::T3 => "T3"@,
            Tier::T4 => "T4"@,
        }
    }

    /// Whether a tier carries sizes.
    pub open spec fn sized(self) -> bool {
        self != Tier::T3
    }

    /// Whether readings of this tier are good enough to decide on: all but counts alone.
    pub fn meets_the_bar(self) -> (r: bool)
        ensures
            r == self.sized(),
    {
        match self {
            Tier::T3 => false,
            _ => true,
        }
    }

    /// The richer of two tiers.
    pub fn richer(self, other: Tier) -> (r: Tier)
        ensures
            r == if other.place() < self.place() {
                other
            } else {
                self
            },
    {
        match (self, other) {
            (Tier::T1, _) | (_, Tier::T1) => Tier::T1,
            (Tier::T2, _) | (_, Tier::T2) => Tier::T2,
            (Tier::T3, _) | (_, Tier::T3) => Tier::T3,
            _ => Tier::T4,
        }
    }
}

/// The name that a tier goes by on the bus.
pub fn tier_name(t: Tier) -> (r: String)
    ensures
        r@ == t.named(),
{
    match t {
        Tier::T1 => "T1".to_owned(),
        Tier::T2 => "T2".to_owned(),
        Tier::T3 => "T3".to_owned(),
        Tier::T4 => "T4".to_owned(),
    }
}

/// The tier of a name, if it names one.
pub open spec fn tier_of_name(name: Seq<char>) -> Option<Tier> {
    if name == "T1"@ {
        Some(Tier::T1)
    } else if name == "T2"@ {
        Some(Tier::T2)
    } else if name == "T3"@ {
        Some(Tier::T3)
    } else if name == "T4"@ {
        Some(Tier::T4)
    } else {
        None
    }
}

/// The tier of a name, if it names one.
pub fn tier_from_name(name: &str) -> (r: Option<Tier>)
    ensures
        r == tier_of_name(name@),
{
    if same_text(name, "T1") {
        Some(Tier::T1)
    } else if same_text(name, "T2") {
        Some(Tier::T2)
    } else if same_text(name, "T3") {
        Some(Tier::T3)
    } else if same_text(name, "T4") {
        Some(Tier::T4)
    } else {
        None
    }
}

/// Every tier is found again under its own name.
pub proof fn a_tier_is_found_under_its_name(t: Tier)
    ensures
        tier_of_name(t.named()) == Some(t),
{
    reveal_strlit("T1");
    reveal_strlit("T2");
    reveal_strlit("T3");
    reveal_strlit("T4");
    assert("T1"@[1] != "T2"@[1] && "T1"@[1] != "T3"@[1] && "T1"@[1] != "T4"@[1]);
    assert("T2"@[1] != "T3"@[1] && "T2"@[1] != "T4"@[1]);
    assert("T3"@[1] != "T4"@[1]);
}

/// The write-back mode of a mount's cache.
#[derive(Debug, Clone, Copy, PartialEq, Eq, Structural)]
pub enum CacheMode {
    Off,
    Minimal,
    Writes,
    Full,
}

impl CacheMode {
    /// Whether every write goes through the queue in this mode.
    pub open spec fn queues_all(self) -> bool {
        self == CacheMode::Writes || self == CacheMode::Full
    }

    /// Whether every write goes through the queue in this mode. Under `Minimal` a file
    /// opened for writing only streams past it.
    pub fn all_writes_queued(self) -> (r: bool)
        ensures
            r == self.queues_all(),
    {
        match self {
            CacheMode::Writes | CacheMode::Full => true,
            CacheMode::Off | CacheMode::Minimal => false,
        }
    }
}

/// Whether a mode is known, and every write goes through the queue in it. An unknown mode
/// is not assumed to be safe.
pub open spec fn surely_queues_all(mode: Option<CacheMode>) -> bool {
    mode matches Some(m) && m.queues_all()
}

/// Whether a mode is known, and every write goes through the queue in it.
pub fn all_queued(mode: Option<CacheMode>) -> (r: bool)
    ensures
        r == surely_queues_all(mode),
{
    match mode {
        Some(m) => m.all_writes_queued(),
        None => false,
    }
}

/// One file that has not been uploaded yet. What is not known is `None`.
#[derive(Debug, Clone, PartialEq, Eq)]
pub struct TransferFile<S = String> {
    pub name: S,
    pub size: Option<u64>,
    pub in_flight: Option<bool>,
    pub tries: Option<u64>,
    pub bytes_sent: Option<u64>,
}

impl View for TransferFile {
    type V = TransferFile<Seq<char>>;

    open spec fn view(&self) -> TransferFile<Seq<char>> {
        TransferFile {
            name: self.name@,
            size: self.size,
            in_flight: self.in_flight,
            tries: self.tries,
            bytes_sent: self.bytes_sent,
        }
    }
}

impl TransferFile {
    /// The same file again.
    pub fn copy(&self) -> (r: TransferFile)
        ensures
            r@ == self@,
    {
        TransferFile {
            name: self.name.clone(),
            size: self.size,
            in_flight: self.in_flight,
            tries: self.tries,
            bytes_sent: self.bytes_sent,
        }
    }
}

/// The same files again.
pub fn copy_files(v: &Vec<TransferFile>) -> (r: Vec<TransferFile>)
    ensures
        views(r@) == views(v@),
{
    let mut r: Vec<TransferFile> = Vec::new();
    let mut i: usize = 0;
    while i < v.len()
        invariant
            i <= v@.len(),
            views(r@) == views(v@).take(i as int),
        decreases v@.len() - i,
    {
        let ghost before = r@;
        let f = v[i].copy();
        r.push(f);
        assert(views(r@) == views(before).push(f@));
        assert(views(v@).take(i + 1) == views(v@).take(i as int).push(f@));
        i = i + 1;
    }
    assert(views(v@).take(v@.len() as int) == views(v@));
    r
}

/// How much is outstanding.
#[derive(Debug, Clone, Copy, PartialEq, Eq, Structural)]
pub struct Pending {
    pub files: u64,
    /// The bytes of the files whose size is known.
    pub known_bytes: u64,
    /// The files whose size is not.
    pub unknown_size_files: u64,
}

/// What is outstanding on one mount.
#[derive(Debug, Clone, PartialEq, Eq)]
pub struct TransferState<S = String, F = Vec<TransferFile>> {
    pub mount: S,
    /// What produced the reading; `None` where nothing did.
    pub fidelity: Option<Tier>,
    /// Whether the figures are all there is, rather than a floor or nothing at all.
    pub outstanding_known: bool,
    /// Whether the files carry how much of them was sent.
    pub has_progress: bool,
    pub pending: Pending,
    /// How many files are being uploaded right now.
    pub uploading: Option<u64>,
    pub errored_files: Option<u64>,
    pub out_of_space: Option<bool>,
    pub rate_bytes_per_sec: Option<u64>,
    pub files: F,
    /// Why the reading says less than it could.
    pub degraded_reason: Option<S>,
}

/// A transfer state by its view.
pub type TransferModel = TransferState<Seq<char>, Seq<TransferFile<Seq<char>>>>;

impl View for TransferState {
    type V = TransferModel;

    open spec fn view(&self) -> TransferModel {
        TransferState {
            mount: self.mount@,
            fidelity: self.fidelity,
            outstanding_known: self.outstanding_known,
            has_progress: self.has_progress,
            pending: self.pending,
            uploading: self.uploading,
            errored_files: self.errored_files,
            out_of_space: self.out_of_space,
            rate_bytes_per_sec: self.rate_bytes_per_sec,
            files: views(self.files@),
            degraded_reason: opt_text(self.degraded_reason),
        }
    }
}

/// A sum that stays at the largest number rather than running over.
pub open spec fn capped_sum(a: u64, b: u64) -> u64 {
    if a + b > u64::MAX {
        u64::MAX
    } else {
        (a + b) as u64
    }
}

/// The bytes of the files whose size is known.
pub open spec fn known_bytes(files: Seq<TransferFile<Seq<char>>>) -> u64
    decreases files.len(),
{
    if files.len() == 0 {
        0
    } else {
        match files.last().size {
            Some(n) => capped_sum(known_bytes(files.drop_last()), n),
            None => known_bytes(files.drop_last()),
        }
    }
}

/// How many files there are whose size is not known.
pub open spec fn unsized_files(files: Seq<TransferFile<Seq<char>>>) -> nat
    decreases files.len(),
{
    if files.len() == 0 {
        0
    } else {
        unsized_files(files.drop_last()) + if files.last().size is None {
            1nat
        } else {
            0nat
        }
    }
}

/// How many files are being uploaded.
pub open spec fn files_in_flight(files: Seq<TransferFile<Seq<char>>>) -> nat
    decreases files.len(),
{
    if files.len() == 0 {
        0
    } else {
        files_in_flight(files.drop_last()) + if files.last().in_flight == Some(true) {
            1nat
        } else {
            0nat
        }
    }
}

/// What a list of files amounts to.
pub open spec fn pending_of(files: Seq<TransferFile<Seq<char>>>) -> Pending {
    Pending {
        files: files.len() as u64,
        known_bytes: known_bytes(files),
        unknown_size_files: unsized_files(files) as u64,
    }
}

/// The bytes of one file, of those whose size is known, that were sent already.
pub open spec fn sent_of(f: TransferFile<Seq<char>>) -> u64 {
    match (f.size, f.bytes_sent) {
        (Some(size), Some(sent)) => if sent < size {
            sent
        } else {
            size
        },
        _ => 0,
    }
}

/// The bytes of the files whose size is known that were sent already.
pub open spec fn sent_bytes(files: Seq<TransferFile<Seq<char>>>) -> u64
    decreases files.len(),
{
    if files.len() == 0 {
        0
    } else {
        capped_sum(sent_bytes(files.drop_last()), sent_of(files.last()))
    }
}

/// What is outstanding where nothing can be observed: no figure, and the reason.
pub open spec fn unmonitored_state(mount: Seq<char>, why: Seq<char>) -> TransferModel {
    TransferState {
        mount,
        fidelity: None,
        outstanding_known: false,
        has_progress: false,
        pending: Pending { files: 0, known_bytes: 0, unknown_size_files: 0 },
        uploading: None,
        errored_files: None,
        out_of_space: None,
        rate_bytes_per_sec: None,
        files: Seq::empty(),
        degraded_reason: Some(why),
    }
}

impl TransferState<Seq<char>, Seq<TransferFile<Seq<char>>>> {
    /// Whether nothing is outstanding, and that is known.
    pub open spec fn idle(self) -> bool {
        self.outstanding_known && self.pending.files == 0
    }

    /// Whether there is a byte total to speak of.
    pub open spec fn has_total(self) -> bool {
        self.fidelity matches Some(t) && t.sized()
    }

    /// Whether the reading is one to unmount on.
    pub open spec fn safe(self) -> bool {
        self.idle() && self.has_total()
    }

    /// The known bytes that were not sent yet.
    pub open spec fn remaining(self) -> u64 {
        let sent = sent_bytes(self.files);
        if sent < self.pending.known_bytes {
            (self.pending.known_bytes - sent) as u64
        } else {
            0
        }
    }
}

fn pending_in(files: &Vec<TransferFile>) -> (r: Pending)
    ensures
        r == pending_of(views(files@)),
{
    let ghost all = views(files@);
    let mut bytes: u64 = 0;
    let mut unsized_count: usize = 0;
    let mut i: usize = 0;
    while i < files.len()
        invariant
            i <= files@.len(),
            all == views(files@),
            bytes == known_bytes(all.take(i as int)),
            unsized_count == unsized_files(all.take(i as int)),
            unsized_count <= i,
        decreases files@.len() - i,
    {
        assert(all.take(i + 1).drop_last() == all.take(i as int));
        assert(all.take(i + 1).last() == files@[i as int]@);
        match files[i].size {
            Some(n) => {
                bytes = bytes.saturating_add(n);
            },
            None => {
                unsized_count = unsized_count + 1;
            },
        }
        i = i + 1;
    }
    assert(all.take(files@.len() as int) == all);
    Pending {
        files: files.len() as u64,
        known_bytes: bytes,
        unknown_size_files: unsized_count as u64,
    }
}

fn flying_in(files: &Vec<TransferFile>) -> (r: u64)
    ensures
        r == files_in_flight(views(files@)) as u64,
{
    let ghost all = views(files@);
    let mut n: usize = 0;
    let mut i: usize = 0;
    while i < files.len()
        invariant
            i <= files@.len(),
            all == views(files@),
            n == files_in_flight(all.take(i as int)),
            n <= i,
        decreases files@.len() - i,
    {
        assert(all.take(i + 1).drop_last() == all.take(i as int));
        assert(all.take(i + 1).last() == files@[i as int]@);
        if let Some(true) = files[i].in_flight {
            n = n + 1;
        }
        i = i + 1;
    }
    assert(all.take(files@.len() as int) == all);
    n as u64
}

/// One entry of rclone's write-back queue. A size that rclone does not know is `None`.
#[derive(Debug, Clone, PartialEq, Eq)]
pub struct QueueItem<S = String> {
    pub name: S,
    pub size: Option<u64>,
    pub tries: u64,
    pub uploading: bool,
}

impl View for QueueItem {
    type V = QueueItem<Seq<char>>;

    open spec fn view(&self) -> QueueItem<Seq<char>> {
        QueueItem {
            name: self.name@,
            size: self.size,
            tries: self.tries,
            uploading: self.uploading,
        }
    }
}

/// What rclone says of a mount's cache.
#[derive(Debug, Clone, PartialEq, Eq)]
pub struct DiskCache<S = String> {
    /// Where the data lies.
    pub path: S,
    /// Where the descriptors lie.
    pub path_meta: S,
    pub uploads_queued: u64,
    pub uploads_in_progress: u64,
    pub errored_files: u64,
    pub out_of_space: bool,
}

impl View for DiskCache {
    type V = DiskCache<Seq<char>>;

    open spec fn view(&self) -> DiskCache<Seq<char>> {
        DiskCache {
            path: self.path@,
            path_meta: self.path_meta@,
            uploads_queued: self.uploads_queued,
            uploads_in_progress: self.uploads_in_progress,
            errored_files: self.errored_files,
            out_of_space: self.out_of_space,
        }
    }
}

/// One file found waiting in a cache on disk.
#[derive(Debug, Clone, PartialEq, Eq)]
pub struct ScanFile<S = String> {
    pub name: S,
    pub size: Option<u64>,
}

impl View for ScanFile {
    type V = ScanFile<Seq<char>>;

    open spec fn view(&self) -> ScanFile<Seq<char>> {
        ScanFile { name: self.name@, size: self.size }
    }
}

/// What walking a cache on disk found.
#[derive(Debug, Clone, PartialEq, Eq)]
pub struct Scan<F = Vec<ScanFile>> {
    /// Whether there was a cache to walk.
    pub root_present: bool,
    pub files: F,
    /// How many entries could not be read.
    pub unreadable: u64,
    /// Whether the walk was given up before its end.
    pub truncated: bool,
}

/// A scan by its view.
pub type ScanModel = Scan<Seq<ScanFile<Seq<char>>>>;

impl View for Scan {
    type V = ScanModel;

    open spec fn view(&self) -> ScanModel {
        Scan {
            root_present: self.root_present,
            files: views(self.files@),
            unreadable: self.unreadable,
            truncated: self.truncated,
        }
    }
}

/// How much of one file rclone has sent.
#[derive(Debug, Clone, PartialEq, Eq)]
pub struct Progress<S = String> {
    pub name: S,
    pub bytes: u64,
}

impl View for Progress {
    type V = Progress<Seq<char>>;

    open spec fn view(&self) -> Progress<Seq<char>> {
        Progress { name: self.name@, bytes: self.bytes }
    }
}

/// A queue entry as an outstanding file.
pub open spec fn queued_file(q: QueueItem<Seq<char>>) -> TransferFile<Seq<char>> {
    TransferFile {
        name: q.name,
        size: q.size,
        in_flight: Some(q.uploading),
        tries: Some(q.tries),
        bytes_sent: None,
    }
}

/// A file found on disk as an outstanding file.
pub open spec fn scanned_file(f: ScanFile<Seq<char>>) -> TransferFile<Seq<char>> {
    TransferFile { name: f.name, size: f.size, in_flight: None, tries: None, bytes_sent: None }
}

/// What is said of a mount that has no queue at all.
pub open spec fn no_queue_text() -> Seq<char> {
    "this mount has no write-back queue (--vfs-cache-mode off), so nothing outstanding can be observed"@
}

/// The reading that a queue gives. A queue that is not there at all is not an empty one: a
/// mount without a cache answers so, and nothing of it can be observed.
pub open spec fn queue_state(
    mount: Seq<char>,
    queue: Option<Seq<QueueItem<Seq<char>>>>,
) -> TransferModel {
    match queue {
        None => unmonitored_state(mount, no_queue_text()),
        Some(items) => {
            let files = items.map_values(|q: QueueItem<Seq<char>>| queued_file(q));
            TransferState {
                mount,
                fidelity: Some(Tier::T2),
                outstanding_known: true,
                has_progress: false,
                pending: pending_of(files),
                uploading: Some(files_in_flight(files) as u64),
                errored_files: None,
                out_of_space: None,
                rate_bytes_per_sec: None,
                files,
                degraded_reason: None,
            }
        },
    }
}

/// The reading that counts give: how many files, and no byte of them.
pub open spec fn stats_state(mount: Seq<char>, c: DiskCache<Seq<char>>) -> TransferModel {
    let files = capped_sum(c.uploads_queued, c.uploads_in_progress);
    TransferState {
        mount,
        fidelity: Some(Tier::T3),
        outstanding_known: true,
        has_progress: false,
        pending: Pending { files, known_bytes: 0, unknown_size_files: files },
        uploading: Some(c.uploads_in_progress),
        errored_files: Some(c.errored_files),
        out_of_space: Some(c.out_of_space),
        rate_bytes_per_sec: None,
        files: Seq::empty(),
        degraded_reason: None,
    }
}

/// The reading that a cache on disk gives. It is the whole story only where the cache was
/// there and all of it was read.
pub open spec fn scan_state(mount: Seq<char>, found: ScanModel) -> TransferModel {
    let files = found.files.map_values(|f: ScanFile<Seq<char>>| scanned_file(f));
    TransferState {
        mount,
        fidelity: Some(Tier::T4),
        outstanding_known: found.root_present && found.unreadable == 0 && !found.truncated,
        has_progress: false,
        pending: pending_of(files),
        uploading: None,
        errored_files: None,
        out_of_space: None,
        rate_bytes_per_sec: None,
        files,
        degraded_reason: None,
    }
}

/// How much of a file was sent, by the first progress report that names it.
pub open spec fn progress_of(ps: Seq<Progress<Seq<char>>>, name: Seq<char>) -> Option<u64>
    decreases ps.len(),
{
    if ps.len() == 0 {
        None
    } else if ps[0].name == name {
        Some(ps[0].bytes)
    } else {
        progress_of(ps.drop_first(), name)
    }
}

/// A file with what is known of its progress.
pub open spec fn progressed(
    f: TransferFile<Seq<char>>,
    ps: Seq<Progress<Seq<char>>>,
) -> TransferFile<Seq<char>> {
    TransferFile {
        bytes_sent: match progress_of(ps, f.name) {
            Some(n) => Some(n),
            None => f.bytes_sent,
        },
        ..f
    }
}

/// A reading with progress per file. Only one made from a queue has files to attach it to.
pub open spec fn progressed_state(s: TransferModel, ps: Seq<Progress<Seq<char>>>) -> TransferModel {
    if s.fidelity == Some(Tier::T2) {
        TransferState {
            has_progress: true,
            files: s.files.map_values(|f: TransferFile<Seq<char>>| progressed(f, ps)),
            ..s
        }
    } else {
        s
    }
}

/// A reading whose figures are a floor, for this reason.
pub open spec fn partly(s: TransferModel, why: Seq<char>) -> TransferModel {
    TransferState { outstanding_known: false, degraded_reason: Some(why), ..s }
}

impl TransferState {
    /// What is outstanding where nothing can be observed. Not a zero: a client cannot take
    /// it for nothing left to upload.
    pub fn unmonitored(mount: &str, why: String) -> (r: TransferState)
        ensures
            r@ == unmonitored_state(mount@, why@),
    {
        let files: Vec<TransferFile> = Vec::new();
        assert(views(files@) == Seq::<TransferFile<Seq<char>>>::empty());
        TransferState {
            mount: mount.to_owned(),
            fidelity: None,
            outstanding_known: false,
            has_progress: false,
            pending: Pending { files: 0, known_bytes: 0, unknown_size_files: 0 },
            uploading: None,
            errored_files: None,
            out_of_space: None,
            rate_bytes_per_sec: None,
            files,
            degraded_reason: Some(why),
        }
    }

    /// The reading that a queue gives; `None` is a reply without one.
    pub fn from_queue(mount: &str, queue: &Option<Vec<QueueItem>>) -> (r: TransferState)
        ensures
            r@ == queue_state(
                mount@,
                match queue {
                    Some(items) => Some(views(items@)),
                    None => None,
                },
            ),
    {
        let items = match queue {
            None => {
                return TransferState::unmonitored(
                    mount,
                    "this mount has no write-back queue (--vfs-cache-mode off), so nothing outstanding can be observed".to_owned(),
                );
            },
            Some(items) => items,
        };
        let ghost want = views(items@).map_values(|q: QueueItem<Seq<char>>| queued_file(q));
        let mut files: Vec<TransferFile> = Vec::new();
        let mut i: usize = 0;
        while i < items.len()
            invariant
                i <= items@.len(),
                want == views(items@).map_values(|q: QueueItem<Seq<char>>| queued_file(q)),
                views(files@) == want.take(i as int),
            decreases items@.len() - i,
        {
            let q = &items[i];
            let f = TransferFile {
                name: q.name.clone(),
                size: q.size,
                in_flight: Some(q.uploading),
                tries: Some(q.tries),
                bytes_sent: None,
            };
            let ghost before = files@;
            files.push(f);
            assert(views(files@) == views(before).push(f@));
            assert(f@ == want[i as int]);
            assert(want.take(i + 1) == want.take(i as int).push(f@));
            i = i + 1;
        }
        assert(want.take(items@.len() as int) == want);
        TransferState {
            mount: mount.to_owned(),
            fidelity: Some(Tier::T2),
            outstanding_known: true,
            has_progress: false,
            pending: pending_in(&files),
            uploading: Some(flying_in(&files)),
            errored_files: None,
            out_of_space: None,
            rate_bytes_per_sec: None,
            files,
            degraded_reason: None,
        }
    }

    /// The reading that counts give.
    pub fn from_stats(mount: &str, c: &DiskCache) -> (r: TransferState)
        ensures
            r@ == stats_state(mount@, c@),
    {
        let n: u64 = c.uploads_queued.saturating_add(c.uploads_in_progress);
        let files: Vec<TransferFile> = Vec::new();
        assert(views(files@) == Seq::<TransferFile<Seq<char>>>::empty());
        TransferState {
            mount: mount.to_owned(),
            fidelity: Some(Tier::T3),
            outstanding_known: true,
            has_progress: false,
            pending: Pending { files: n, known_bytes: 0, unknown_size_files: n },
            uploading: Some(c.uploads_in_progress),
            errored_files: Some(c.errored_files),
            out_of_space: Some(c.out_of_space),
            rate_bytes_per_sec: None,
            files,
            degraded_reason: None,
        }
    }

    /// The reading that a cache on disk gives.
    pub fn from_scan(mount: &str, found: &Scan) -> (r: TransferState)
        ensures
            r@ == scan_state(mount@, found@),
    {
        let ghost want = views(found.files@).map_values(|f: ScanFile<Seq<char>>| scanned_file(f));
        let mut files: Vec<TransferFile> = Vec::new();
        let mut i: usize = 0;
        while i < found.files.len()
            invariant
                i <= found.files@.len(),
                want == views(found.files@).map_values(
                    |f: ScanFile<Seq<char>>| scanned_file(f),
                ),
                views(files@) == want.take(i as int),
            decreases found.files@.len() - i,
        {
            let f = TransferFile {
                name: found.files[i].name.clone(),
                size: found.files[i].size,
                in_flight: None,
                tries: None,
                bytes_sent: None,
            };
            let ghost before = files@;
            files.push(f);
            assert(views(files@) == views(before).push(f@));
            assert(f@ == want[i as int]);
            assert(want.take(i + 1) == want.take(i as int).push(f@));
            i = i + 1;
        }
        assert(want.take(found.files@.len() as int) == want);
        TransferState {
            mount: mount.to_owned(),
            fidelity: Some(Tier::T4),
            outstanding_known: found.root_present && found.unreadable == 0 && !found.truncated,
            has_progress: false,
            pending: pending_in(&files),
            uploading: None,
            errored_files: None,
            out_of_space: None,
            rate_bytes_per_sec: None,
            files,
            degraded_reason: None,
        }
    }

    /// The same reading, as a floor rather than the whole story.
    pub fn partially_observed(self, why: String) -> (r: TransferState)
        ensures
            r@ == partly(self@, why@),
    {
        let mut s = self;
        s.outstanding_known = false;
        s.degraded_reason = Some(why);
        s
    }

    /// The same reading, with why it is not a better one.
    pub fn degraded(self, why: String) -> (r: TransferState)
        ensures
            r@ == (TransferState { degraded_reason: Some(why@), ..self@ }),
    {
        let mut s = self;
        s.degraded_reason = Some(why);
        s
    }

    /// The same reading, with how the cache is doing.
    pub fn with_cache_health(self, c: &DiskCache) -> (r: TransferState)
        ensures
            r@ == (TransferState {
                errored_files: Some(c.errored_files),
                out_of_space: Some(c.out_of_space),
                ..self@
            }),
    {
        let mut s = self;
        s.errored_files = Some(c.errored_files);
        s.out_of_space = Some(c.out_of_space);
        s
    }

    /// The same reading, with a rate.
    pub fn with_rate(self, rate: Option<u64>) -> (r: TransferState)
        ensures
            r@ == (TransferState { rate_bytes_per_sec: rate, ..self@ }),
    {
        let mut s = self;
        s.rate_bytes_per_sec = rate;
        s
    }

    /// The same reading, with progress per file.
    pub fn with_progress(self, ps: &Vec<Progress>) -> (r: TransferState)
        ensures
            r@ == progressed_state(self@, views(ps@)),
    {
        let queued = match self.fidelity {
            Some(Tier::T2) => true,
            _ => false,
        };
        if !queued {
            return self;
        }
        let ghost want = views(self.files@).map_values(
            |f: TransferFile<Seq<char>>| progressed(f, views(ps@)),
        );
        let mut files: Vec<TransferFile> = Vec::new();
        let mut i: usize = 0;
        while i < self.files.len()
            invariant
                i <= self.files@.len(),
                want == views(self.files@).map_values(
                    |f: TransferFile<Seq<char>>| progressed(f, views(ps@)),
                ),
                views(files@) == want.take(i as int),
            decreases self.files@.len() - i,
        {
            let mut f = self.files[i].copy();
            if let Some(n) = sent(ps, f.name.as_str()) {
                f.bytes_sent = Some(n);
            }
            let ghost before = files@;
            assert(f@ == want[i as int]);
            files.push(f);
            assert(views(files@) == views(before).push(f@));
            assert(want.take(i + 1) == want.take(i as int).push(f@));
            i = i + 1;
        }
        assert(want.take(self.files@.len() as int) == want);
        let mut s = self;
        s.files = files;
        s.has_progress = true;
        s
    }

    /// Whether nothing is outstanding, and that is known.
    pub fn is_idle(&self) -> (r: bool)
        ensures
            r == self@.idle(),
    {
        self.outstanding_known && self.pending.files == 0
    }

    /// Whether there is a byte total to speak of. Counts alone carry none.
    pub fn has_byte_total(&self) -> (r: bool)
        ensures
            r == self@.has_total(),
    {
        match self.fidelity {
            Some(t) => t.meets_the_bar(),
            None => false,
        }
    }

    /// Whether the reading is one to unmount on. Necessary, not sufficient: a file still
    /// open is in no queue yet.
    pub fn safe_to_unmount(&self) -> (r: bool)
        ensures
            r == self@.safe(),
    {
        self.is_idle() && self.has_byte_total()
    }

    /// The known bytes that were not sent yet.
    pub fn remaining_bytes(&self) -> (r: u64)
        ensures
            r == self@.remaining(),
    {
        let ghost all = views(self.files@);
        let mut sent: u64 = 0;
        let mut i: usize = 0;
        while i < self.files.len()
            invariant
                i <= self.files@.len(),
                all == views(self.files@),
                sent == sent_bytes(all.take(i as int)),
            decreases self.files@.len() - i,
        {
            assert(all.take(i + 1).drop_last() == all.take(i as int));
            assert(all.take(i + 1).last() == self.files@[i as int]@);
            let n: u64 = match (self.files[i].size, self.files[i].bytes_sent) {
                (Some(size), Some(done)) => if done < size {
                    done
                } else {
                    size
                },
                _ => 0,
            };
            sent = sent.saturating_add(n);
            i = i + 1;
        }
        assert(all.take(self.files@.len() as int) == all);
        self.pending.known_bytes.saturating_sub(sent)
    }
}

fn sent(ps: &Vec<Progress>, name: &str) -> (r: Option<u64>)
    ensures
        r == progress_of(views(ps@), name@),
{
    let ghost all = views(ps@);
    let mut i: usize = 0;
    assert(all.skip(0) == all);
    while i < ps.len()
        invariant
            i <= ps@.len(),
            all == views(ps@),
            progress_of(all, name@) == progress_of(all.skip(i as int), name@),
        decreases ps@.len() - i,
    {
        assert(all.skip(i as int)[0] == ps@[i as int]@);
        assert(all.skip(i as int).drop_first() == all.skip(i + 1));
        if same_text(ps[i].name.as_str(), name) {
            return Some(ps[i].bytes);
        }
        i = i + 1;
    }
    None
}

/// What cannot be observed is never taken for idle, let alone for safe to unmount, whatever
/// kept it from being observed.
pub proof fn the_unobserved_is_never_idle(mount: Seq<char>, why: Seq<char>, s: TransferModel)
    ensures
        !unmonitored_state(mount, why).idle(),
        !unmonitored_state(mount, why).safe(),
        !queue_state(mount, None).idle(),
        !partly(s, why).idle(),
        !partly(s, why).safe(),
        unmonitored_state(mount, why).fidelity is None,
{
}

} // verus!
