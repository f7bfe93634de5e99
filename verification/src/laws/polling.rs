//! Polling a mount, as whoever drives the poll sees it: what is asked, and what the answers
//! leave in the reading.

use crate::poller::{
    pace, scan_reason, CacheProbe, CapabilitiesModel, MountPoller, Poll, PollAnswer, PollAnswerModel, PollAsk,
    PollPhase, PollStep, PollStepModel, PollerModel, Polling, RcError, ScanOutcome, VfsStats,
};
use crate::rate::rate_between;
use crate::text::{begins_with, digits, finishes_with, occurs_at, occurs_in};
use crate::transfer::{
    progressed_state, queue_state, scan_state, stats_state, CacheMode, DiskCache, Progress,
    QueueItem, ScanModel, Tier, TransferModel,
};
use vstd::prelude::*;

verus! {

/// Whether a step asks a question next.
pub open spec fn asks_next(s: PollStepModel, q: PollAsk<Seq<char>>) -> bool {
    s matches PollStep::Go(p) && p.asks() == q
}

/// The poller as a step leaves it.
pub open spec fn poller_after(s: PollStepModel) -> PollerModel {
    match s {
        PollStep::Go(q) => q.poller,
        PollStep::Finished(d) => d.poller,
    }
}

/// Whether a step has a reading: it waits for its progress or its rate, or is over with it.
pub open spec fn has_reading(s: PollStepModel) -> bool {
    match s {
        PollStep::Go(q) => q.phase is Progress || q.phase is Rate,
        PollStep::Finished(_) => true,
    }
}

/// The reading that a step has.
pub open spec fn reading_after(s: PollStepModel) -> TransferModel {
    match s {
        PollStep::Go(q) => match q.phase {
            PollPhase::Progress(t) => t,
            _ => q.phase->Rate_0,
        },
        PollStep::Finished(d) => d.state,
    }
}

/// Whether a step ends the poll with nothing observed, for this reason.
pub open spec fn sees_nothing(s: PollStepModel, name: Seq<char>, why: Seq<char>) -> bool {
    &&& s is Finished
    &&& s->Finished_0.state.mount == name
    &&& s->Finished_0.state.fidelity is None
    &&& !s->Finished_0.state.outstanding_known
    &&& s->Finished_0.state.pending.files == 0
    &&& s->Finished_0.state.files.len() == 0
    &&& s->Finished_0.state.rate_bytes_per_sec is None
    &&& s->Finished_0.state.degraded_reason == Some(why)
}

/// Whether a command is offered.
pub open spec fn offers(p: PollerModel, command: Seq<char>) -> bool {
    p.caps.commands.contains(command)
}

/// A poll asks what is offered where nothing is known to be, and otherwise begins with the
/// cache, where that can be asked about, or with the queue. With neither there is nothing to
/// see over rc.
pub proof fn how_a_poll_begins(p: PollerModel)
    ensures
        p.caps.commands.len() == 0 ==> asks_next(p.first(), PollAsk::Probe),
        p.caps.commands.len() > 0 ==> {
            &&& offers(p, "vfs/stats"@) ==> asks_next(p.first(), PollAsk::Stats)
            &&& !offers(p, "vfs/stats"@) && offers(p, "vfs/queue"@) ==> asks_next(
                p.first(),
                PollAsk::Queue,
            )
            &&& !offers(p, "vfs/stats"@) && !offers(p, "vfs/queue"@) ==> p.first() is Finished
                && !p.first()->Finished_0.state.outstanding_known
                && p.first()->Finished_0.state.fidelity is None
        },
        poller_after(p.first()) == p,
{
}

/// What is offered is kept once it was learned, and the poll goes on with it. Where nothing is
/// offered the poll sees nothing, for the reason that came with that; and where the question
/// was not answered, for the reason why not.
pub proof fn what_a_probe_leads_to(
    p: PollerModel,
    caps: CapabilitiesModel,
    why: Seq<char>,
)
    ensures
        ({
            let asked = Polling { poller: p, phase: PollPhase::Probe };
            let told = asked.next(PollAnswer::Probe(Ok(caps)));
            let refused = asked.next(PollAnswer::Probe(Err(why)));
            let known = MountPoller { caps, ..p };
            &&& caps.commands.len() > 0 ==> told == known.first()
            &&& caps.commands.len() == 0 && caps.refusal is Some ==> sees_nothing(
                told,
                p.name,
                caps.refusal->0,
            )
            &&& poller_after(told).caps == caps
            &&& sees_nothing(refused, p.name, why)
            &&& poller_after(refused).caps.commands.len() == 0
            &&& poller_after(refused).caps.refusal == Some(why)
        }),
{
}

/// What `vfs/stats` answers replaces what was known of the cache: its mode, and its two roots
/// where it names both and neither where it does not. Nothing else of the poller changes.
pub proof fn an_answer_about_the_cache_is_learned(
    p: PollerModel,
    mode: Option<CacheMode>,
    c: DiskCache<Seq<char>>,
)
    ensures
        ({
            let asked = Polling { poller: p, phase: PollPhase::Stats };
            let named = poller_after(
                asked.next(
                    PollAnswer::Stats(Ok(VfsStats { mode, disk_cache: Some(c) })),
                ),
            );
            let none = poller_after(
                asked.next(PollAnswer::Stats(Ok(VfsStats { mode, disk_cache: None }))),
            );
            let usable = c.path.len() > 0 && c.path_meta.len() > 0;
            &&& named.mode == mode
            &&& none.mode == mode
            &&& usable ==> named.cache_path == Some(c.path) && named.meta_path == Some(
                c.path_meta,
            )
            &&& !usable ==> named.cache_path is None && named.meta_path is None
            &&& none.cache_path is None && none.meta_path is None
            &&& named.name == p.name && none.name == p.name
            &&& named.caps == p.caps && none.caps == p.caps
        }),
{
}

/// An rclone that has no `vfs/stats` forgets what another said of the cache. One that cannot
/// be reached changes nothing: where the roots are known the disk is read, at those very
/// roots, and where they are not nothing is seen, for that reason. Any other failure leaves
/// nothing to see, in its own words. The rate starts over in each of these.
pub proof fn what_a_failed_call_leads_to(p: PollerModel, why: Seq<char>, status: u16)
    requires
        p.cache_path is Some <==> p.meta_path is Some,
    ensures
        ({
            let asked = Polling { poller: p, phase: PollPhase::Stats };
            let gone = asked.next(PollAnswer::Stats(Err(RcError::Unreachable(why))));
            let refused = asked.next(
                PollAnswer::Stats(Err(RcError::Failed { status, text: why })),
            );
            let other = asked.next(PollAnswer::Stats(Err(RcError::Other(why))));
            &&& poller_after(gone) == p
            &&& p.cache_path is Some ==> asks_next(
                gone,
                PollAsk::Scan { meta: p.meta_path->0, data: p.cache_path->0 },
            )
            &&& p.cache_path is None ==> sees_nothing(gone, p.name, why)
                && gone->Finished_0.reset_rate
            &&& sees_nothing(other, p.name, why) && other->Finished_0.reset_rate
            &&& poller_after(other) == p
            &&& status != 404 ==> sees_nothing(refused, p.name, why)
                && refused->Finished_0.reset_rate && poller_after(refused) == p
            &&& status == 404 ==> {
                &&& poller_after(refused).cache_path is None
                &&& poller_after(refused).meta_path is None
                &&& poller_after(refused).mode is None
                &&& offers(p, "vfs/queue"@) ==> asks_next(refused, PollAsk::Queue)
            }
        }),
{
}

/// The same for the queue: an rclone that has none is left with counts, where there is a cache,
/// and with nothing to see where there is not.
pub proof fn what_a_failed_queue_leads_to(
    p: PollerModel,
    cache: CacheProbe<Seq<char>>,
    why: Seq<char>,
    status: u16,
)
    requires
        p.cache_path is Some <==> p.meta_path is Some,
    ensures
        ({
            let asked = Polling { poller: p, phase: PollPhase::Queue(cache) };
            let gone = asked.next(PollAnswer::Queue(Err(RcError::Unreachable(why))));
            let refused = asked.next(
                PollAnswer::Queue(Err(RcError::Failed { status, text: why })),
            );
            let other = asked.next(PollAnswer::Queue(Err(RcError::Other(why))));
            &&& asked.asks() == PollAsk::<Seq<char>>::Queue
            &&& poller_after(gone) == p
            &&& p.cache_path is Some ==> asks_next(
                gone,
                PollAsk::Scan { meta: p.meta_path->0, data: p.cache_path->0 },
            )
            &&& p.cache_path is None ==> sees_nothing(gone, p.name, why)
                && gone->Finished_0.reset_rate
            &&& sees_nothing(other, p.name, why) && other->Finished_0.reset_rate
            &&& status != 404 ==> sees_nothing(refused, p.name, why)
                && refused->Finished_0.reset_rate
            &&& poller_after(refused) == p && poller_after(other) == p
            &&& status == 404 ==> match cache {
                CacheProbe::Present(c, mode) => {
                    let s = reading_after(refused);
                    &&& refused is Finished
                    &&& s.fidelity == Some(Tier::T3)
                    &&& s.pending == stats_state(p.name, c).pending
                    &&& s.uploading == Some(c.uploads_in_progress)
                    &&& s.errored_files == Some(c.errored_files)
                    &&& s.out_of_space == Some(c.out_of_space)
                    &&& s.files.len() == 0
                    &&& s.outstanding_known <==> mode == Some(CacheMode::Writes) || mode == Some(
                        CacheMode::Full,
                    )
                },
                _ => refused is Finished && refused->Finished_0.state.fidelity is None
                    && !refused->Finished_0.state.outstanding_known
                    && refused->Finished_0.state.degraded_reason is Some,
            }
        }),
{
}

/// What the queue says is kept, whatever is known of the cache: its files and its figures are
/// those of the reading. They are all there is only where a cache is there in a mode that puts
/// every write through the queue; anything less comes with its reason. The cache's own health
/// is taken from the cache.
pub proof fn what_the_queue_says_is_kept(
    p: PollerModel,
    cache: CacheProbe<Seq<char>>,
    items: Seq<QueueItem<Seq<char>>>,
)
    ensures
        ({
            let asked = Polling { poller: p, phase: PollPhase::Queue(cache) };
            let told = asked.next(PollAnswer::Queue(Ok(Some(items))));
            let s = reading_after(told);
            let q = queue_state(p.name, Some(items));
            &&& has_reading(told)
            &&& poller_after(told) == p
            &&& s.mount == p.name
            &&& s.fidelity == Some(Tier::T2)
            &&& s.files == q.files
            &&& s.pending == q.pending
            &&& s.uploading == q.uploading
            &&& s.outstanding_known <==> cache is Present && (cache->Present_1 == Some(
                CacheMode::Writes,
            ) || cache->Present_1 == Some(CacheMode::Full))
            &&& s.outstanding_known <==> s.degraded_reason is None
            &&& cache is Present ==> s.errored_files == Some(cache->Present_0.errored_files)
                && s.out_of_space == Some(cache->Present_0.out_of_space)
            &&& !(cache is Present) ==> s.errored_files is None && s.out_of_space is None
            &&& offers(p, "core/stats"@) && p.cache_path is Some ==> asks_next(
                told,
                PollAsk::Progress(p.cache_path->0),
            )
            &&& !(offers(p, "core/stats"@) && p.cache_path is Some) ==> {
                &&& s.pending.files > 0 ==> asks_next(told, PollAsk::Rate(s.remaining()))
                &&& s.pending.files == 0 ==> told is Finished && s.rate_bytes_per_sec is None
                    && told->Finished_0.reset_rate
            }
        }),
{
}

/// A queue that is not there is no empty one. Where there is a cache all the same its counts
/// are what is left; they are not all there is. Where there is none nothing is seen.
pub proof fn no_queue_is_no_empty_queue(p: PollerModel, cache: CacheProbe<Seq<char>>)
    ensures
        ({
            let asked = Polling { poller: p, phase: PollPhase::Queue(cache) };
            let told = asked.next(PollAnswer::Queue(Ok(None)));
            let s = reading_after(told);
            &&& told is Finished
            &&& told->Finished_0.reset_rate
            &&& told->Finished_0.poller == p
            &&& !s.outstanding_known
            &&& s.degraded_reason is Some
            &&& s.rate_bytes_per_sec is None
            &&& s.mount == p.name
            &&& cache is Present ==> s.fidelity == Some(Tier::T3) && s.pending == stats_state(
                p.name,
                cache->Present_0,
            ).pending && s.errored_files == Some(cache->Present_0.errored_files)
                && s.out_of_space == Some(cache->Present_0.out_of_space)
            &&& !(cache is Present) ==> s.fidelity is None && s.pending.files == 0
        }),
{
}

/// Progress is put to the reading it was asked for, and where none came the reading stays.
/// Then the rate is asked for, by what is left of the reading, where something is pending.
pub proof fn progress_and_rate_go_to_the_reading(
    p: PollerModel,
    s: TransferModel,
    ps: Option<Seq<Progress<Seq<char>>>>,
    rate: Option<u64>,
)
    requires
        s.fidelity == Some(Tier::T2),
    ensures
        ({
            let asked = Polling { poller: p, phase: PollPhase::Progress(s) };
            let told = asked.next(PollAnswer::Progress(ps));
            let r = match ps {
                Some(ps) => progressed_state(s, ps),
                None => s,
            };
            &&& r.pending.files > 0 ==> asks_next(told, PollAsk::Rate(r.remaining()))
                && reading_after(told) == r
            &&& r.pending.files == 0 ==> told is Finished && told->Finished_0.reset_rate
                && reading_after(told) == (TransferModel { rate_bytes_per_sec: None, ..r })
            &&& poller_after(told) == p
        }),
        ({
            let asked = Polling { poller: p, phase: PollPhase::Rate(s) };
            let told = asked.next(PollAnswerModel::Rate(rate));
            let shown = told->Finished_0.state.rate_bytes_per_sec;
            &&& asked.asks() == PollAsk::<Seq<char>>::Rate(s.remaining())
            &&& told is Finished
            &&& !told->Finished_0.reset_rate
            &&& told->Finished_0.poller == p
            &&& told->Finished_0.state == (TransferModel { rate_bytes_per_sec: shown, ..s })
            &&& rate is None ==> shown is None
            &&& rate is Some && rate->0 > 0 ==> shown == rate
            &&& rate == Some(0u64) ==> (shown == Some(0u64) <==> s.uploading == Some(0u64))
            &&& rate == Some(0u64) && s.uploading != Some(0u64) ==> shown is None
        }),
{
}

/// What lies on the disk of an rclone that cannot be reached is reported as it was found, with
/// why it was read there; it is all there is only where all of it was read and the mode puts
/// every write through the cache. A cache that is gone, that cannot be read or whose walk was
/// lost leaves nothing to see, and it says both why the disk was read and what came of it.
pub proof fn what_the_disk_says_is_kept(
    p: PollerModel,
    why: Seq<char>,
    found: ScanModel,
    err: Seq<char>,
)
    ensures
        ({
            let asked = Polling { poller: p, phase: PollPhase::Scan(why) };
            let told = asked.next(PollAnswer::Scan(ScanOutcome::Found(found)));
            let unread = asked.next(PollAnswer::Scan(ScanOutcome::Unreadable(err)));
            let lost = asked.next(PollAnswer::Scan(ScanOutcome::Lost(err)));
            let s = reading_after(told);
            let d = scan_state(p.name, found);
            let queues = p.mode == Some(CacheMode::Writes) || p.mode == Some(CacheMode::Full);
            &&& told is Finished && unread is Finished && lost is Finished
            &&& told->Finished_0.reset_rate
            &&& told->Finished_0.poller == p
            &&& s.degraded_reason is Some
            &&& why.is_prefix_of(s.degraded_reason->0)
            &&& s.rate_bytes_per_sec is None
            &&& found.root_present ==> {
                &&& s.mount == p.name
                &&& s.fidelity == Some(Tier::T4)
                &&& s.files == d.files
                &&& s.pending == d.pending
                &&& s.outstanding_known <==> queues && found.unreadable == 0 && !found.truncated
            }
            &&& !found.root_present ==> sees_nothing(told, p.name, s.degraded_reason->0)
            &&& sees_nothing(
                unread,
                p.name,
                why + "; and its cache could not be read either: "@ + err,
            )
            &&& sees_nothing(lost, p.name, why + "; "@ + err)
        }),
{
    let asked = Polling { poller: p, phase: PollPhase::Scan(why) };
    let told = asked.next(PollAnswer::Scan(ScanOutcome::Found(found)));
    let said = reading_after(told).degraded_reason->0;
    lemma_reason_begins(why, found, p.mode);
    if !found.root_present {
        assert(said.subrange(0, why.len() as int) == why);
    }
}

proof fn lemma_reason_begins(why: Seq<char>, found: ScanModel, mode: Option<CacheMode>)
    ensures
        why.is_prefix_of(crate::poller::scan_reason(why, found, mode)),
{
    let said = crate::poller::scan_reason(why, found, mode);
    assert(said.subrange(0, why.len() as int) == why);
}

/// A rate is what the bytes left shrank by over the time between two samples, in bytes a
/// second, rounded down. There is none where no time went by or where more is left than
/// before.
pub proof fn a_rate_is_what_went_over_the_time_it_took(
    from_ms: u64,
    before: u64,
    to_ms: u64,
    after: u64,
)
    ensures
        rate_between(from_ms, before, to_ms, after) is None <==> to_ms <= from_ms || after
            > before,
        rate_between(from_ms, before, to_ms, after) matches Some(rate) ==> {
            let went = (before - after) * 1000;
            let took = to_ms - from_ms;
            &&& rate * took <= went
            &&& rate < u64::MAX ==> went < (rate + 1) * took
        },
{
    if to_ms > from_ms && after <= before {
        let went = (before - after) * 1000;
        let took = to_ms - from_ms;
        let q = went / took;
        assert(q * took <= went < (q + 1) * took) by (nonlinear_arith)
            requires
                took > 0,
                went >= 0,
                q == went / took,
        ;
        if q > u64::MAX {
            assert(u64::MAX * took <= q * took) by (nonlinear_arith)
                requires
                    q > u64::MAX,
                    took > 0,
            ;
        }
    }
}

/// The short wait comes exactly where something is outstanding that was not read off the disk.
pub proof fn the_pace_follows_the_work(s: TransferModel, poll: Poll)
    ensures
        s.pending.files == 0 ==> pace(s, poll) == poll.idle_secs,
        s.fidelity == Some(Tier::T4) ==> pace(s, poll) == poll.idle_secs,
        s.pending.files > 0 && s.fidelity != Some(Tier::T4) ==> pace(s, poll) == poll.active_secs,
{
}

/// The tier is the richest that the commands offered allow for: progress needs both the queue
/// and `core/stats`, sizes need the queue, counts need `vfs/stats`.
pub proof fn the_tier_follows_from_what_is_offered(c: CapabilitiesModel)
    ensures
        c.best() == Tier::T1 <==> c.commands.contains("vfs/queue"@) && c.commands.contains(
            "core/stats"@,
        ),
        c.best() == Tier::T2 <==> c.commands.contains("vfs/queue"@) && !c.commands.contains(
            "core/stats"@,
        ),
        c.best() == Tier::T3 <==> !c.commands.contains("vfs/queue"@) && c.commands.contains(
            "vfs/stats"@,
        ),
        c.best() == Tier::T4 <==> !c.commands.contains("vfs/queue"@) && !c.commands.contains(
            "vfs/stats"@,
        ),
{
}

/// Where neither the queue nor the cache can be asked about, nothing is seen, and the samples
/// of the rate are kept.
pub proof fn with_neither_queue_nor_cache_nothing_is_seen(
    p: PollerModel,
    cache: CacheProbe<Seq<char>>,
)
    requires
        !offers(p, "vfs/queue"@),
    ensures
        !(cache is Present) ==> {
            let s = p.cached(cache);
            &&& s is Finished
            &&& !s->Finished_0.reset_rate
            &&& !s->Finished_0.state.outstanding_known
            &&& s->Finished_0.state.fidelity is None
            &&& s->Finished_0.state.mount == p.name
            &&& s->Finished_0.state.degraded_reason is Some
            &&& s->Finished_0.poller == p
        },
{
}

/// What is said of a reading off the disk: why it was taken, how many files were found, how
/// many entries could not be read where there are any, that the walk was cut short where it
/// was, and that not every write need be there unless the mode says so.
pub proof fn a_reading_off_the_disk_says_what_it_is_worth(
    why: Seq<char>,
    found: ScanModel,
    mode: Option<CacheMode>,
)
    ensures
        ({
            let said = scan_reason(why, found, mode);
            let whole = mode == Some(CacheMode::Writes) || mode == Some(CacheMode::Full);
            let read = why + "; read "@ + digits(found.files.len())
                + " pending file(s) from the cache on disk instead"@;
            &&& begins_with(said, read)
            &&& found.unreadable > 0 ==> occurs_in(
                "; "@ + digits(found.unreadable as nat) + " entries there could not be read"@,
                said,
            )
            &&& found.truncated ==> occurs_in(
                "; and the cache was too large to finish walking"@,
                said,
            )
            &&& whole && !found.truncated && found.unreadable == 0 ==> said == read
            &&& mode is Some && !whole ==> finishes_with(
                said,
                "; and this mount's cache mode does not put every write through the cache, so what is on disk is a floor"@,
            )
            &&& mode is None ==> finishes_with(
                said,
                "; and this rclone never reported a recognised cache mode, so whether every write reaches the cache is unknown"@,
            )
        }),
{
    let none = Seq::<char>::empty();
    let read = why + "; read "@ + digits(found.files.len())
        + " pending file(s) from the cache on disk instead"@;
    let missed = if found.unreadable > 0 {
        "; "@ + digits(found.unreadable as nat) + " entries there could not be read"@
    } else {
        none
    };
    let cut = if found.truncated {
        "; and the cache was too large to finish walking"@
    } else {
        none
    };
    let whole = mode == Some(CacheMode::Writes) || mode == Some(CacheMode::Full);
    let end = if whole {
        none
    } else if mode is Some {
        "; and this mount's cache mode does not put every write through the cache, so what is on disk is a floor"@
    } else {
        "; and this rclone never reported a recognised cache mode, so whether every write reaches the cache is unknown"@
    };
    lemma_adds(read, "; "@, digits(found.unreadable as nat), " entries there could not be read"@);
    assert(read + none == read);
    assert(read + missed + none == read + missed);
    assert(read + missed + cut + none == read + missed + cut);
    assert(scan_reason(why, found, mode) == read + missed + cut + end);
    lemma_four_parts(read, missed, cut, end);
}

proof fn lemma_adds(a: Seq<char>, b: Seq<char>, c: Seq<char>, d: Seq<char>)
    ensures
        a + b + c + d == a + (b + c + d),
{
    assert(a + b + c + d == a + (b + c + d));
}

proof fn lemma_four_parts(a: Seq<char>, b: Seq<char>, c: Seq<char>, d: Seq<char>)
    ensures
        begins_with(a + b + c + d, a),
        occurs_in(b, a + b + c + d),
        occurs_in(c, a + b + c + d),
        finishes_with(a + b + c + d, d),
{
    let all = a + b + c + d;
    assert(all.subrange(0, a.len() as int) == a);
    let i = a.len() as int;
    assert(all.subrange(i, i + b.len()) == b);
    assert(occurs_at(b, all, i));
    let j = (a + b).len() as int;
    assert(all.subrange(j, j + c.len()) == c);
    assert(occurs_at(c, all, j));
    assert(all.subrange(all.len() - d.len(), all.len() as int) == d);
}

} // verus!
