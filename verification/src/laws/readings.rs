//! What a reading says of what it was made from: which files, how many bytes of them, and how
//! much of those was sent.

use crate::laws::sums::{capped, how_many, lemma_capped_sum, number, total};
use crate::transfer::{
    files_in_flight, known_bytes, partly, progress_of, progressed_state, queue_state, scan_state,
    sent_bytes, sent_of, stats_state, unmonitored_state, unsized_files, DiskCache, Progress, QueueItem, ScanModel,
    Tier, TransferFile, TransferModel,
};
use vstd::prelude::*;

verus! {

/// The sizes of files, zero where one is not known.
pub open spec fn sizes(files: Seq<TransferFile<Seq<char>>>) -> Seq<u64> {
    files.map_values(|f: TransferFile<Seq<char>>| number(f.size))
}

/// Which files have no known size.
pub open spec fn without_size(files: Seq<TransferFile<Seq<char>>>) -> Seq<bool> {
    files.map_values(|f: TransferFile<Seq<char>>| f.size is None)
}

/// Which files are being uploaded.
pub open spec fn flying(files: Seq<TransferFile<Seq<char>>>) -> Seq<bool> {
    files.map_values(|f: TransferFile<Seq<char>>| f.in_flight == Some(true))
}

/// How much of each file was sent: never more than there is of it, and nothing of one whose
/// size or progress is not known.
pub open spec fn sent_parts(files: Seq<TransferFile<Seq<char>>>) -> Seq<u64> {
    files.map_values(
        |f: TransferFile<Seq<char>>|
            if f.size is Some && f.bytes_sent is Some {
                if f.bytes_sent->0 <= f.size->0 {
                    f.bytes_sent->0
                } else {
                    f.size->0
                }
            } else {
                0u64
            },
    )
}

proof fn lemma_figures(files: Seq<TransferFile<Seq<char>>>)
    ensures
        known_bytes(files) == capped(total(sizes(files))),
        unsized_files(files) == how_many(without_size(files)),
        files_in_flight(files) == how_many(flying(files)),
        sent_bytes(files) == capped(total(sent_parts(files))),
    decreases files.len(),
{
    if files.len() > 0 {
        let rest = files.drop_last();
        lemma_figures(rest);
        assert(sizes(files).drop_last() == sizes(rest));
        assert(without_size(files).drop_last() == without_size(rest));
        assert(flying(files).drop_last() == flying(rest));
        assert(sent_parts(files).drop_last() == sent_parts(rest));
        lemma_capped_sum(total(sizes(rest)), number(files.last().size));
        lemma_capped_sum(total(sent_parts(rest)), sent_of(files.last()));
    }
}

/// A queue is reported item by item, under the items' own names and with what the queue said
/// of each; the totals are those of its items, and the reading stands for all there is.
pub proof fn a_queue_is_reported_as_it_is(mount: Seq<char>, items: Seq<QueueItem<Seq<char>>>)
    requires
        items.len() <= u64::MAX,
    ensures
        ({
            let s = queue_state(mount, Some(items));
            &&& s.mount == mount
            &&& s.files.len() == items.len()
            &&& forall|i: int|
                0 <= i < items.len() ==> {
                    let f = #[trigger] s.files[i];
                    &&& f.name == items[i].name
                    &&& f.size == items[i].size
                    &&& f.tries == Some(items[i].tries)
                    &&& f.in_flight == Some(items[i].uploading)
                    &&& f.bytes_sent is None
                }
            &&& s.pending.files == items.len()
            &&& s.pending.known_bytes == capped(total(sizes(s.files)))
            &&& s.pending.unknown_size_files == how_many(without_size(s.files))
            &&& s.uploading is Some
            &&& s.uploading->0 == how_many(flying(s.files))
            &&& s.fidelity == Some(Tier::T2)
            &&& s.outstanding_known
            &&& !s.has_progress
            &&& s.degraded_reason is None
            &&& s.rate_bytes_per_sec is None
            &&& s.errored_files is None
            &&& s.out_of_space is None
            &&& s.idle() <==> items.len() == 0
            &&& s.safe() <==> items.len() == 0
        }),
{
    let s = queue_state(mount, Some(items));
    lemma_figures(s.files);
    crate::laws::sums::lemma_how_many(without_size(s.files));
    crate::laws::sums::lemma_how_many(flying(s.files));
}

/// Counts are reported as counts: so many files, none of whose sizes is known, with what the
/// cache says of its health. They never make a mount safe to unmount.
pub proof fn counts_are_reported_as_counts(mount: Seq<char>, c: DiskCache<Seq<char>>)
    ensures
        ({
            let s = stats_state(mount, c);
            &&& s.mount == mount
            &&& s.pending.files == capped(
                c.uploads_queued as nat + c.uploads_in_progress as nat,
            )
            &&& s.pending.unknown_size_files == s.pending.files
            &&& s.pending.known_bytes == 0
            &&& s.files.len() == 0
            &&& s.uploading == Some(c.uploads_in_progress)
            &&& s.errored_files == Some(c.errored_files)
            &&& s.out_of_space == Some(c.out_of_space)
            &&& s.fidelity == Some(Tier::T3)
            &&& s.degraded_reason is None
            &&& !s.safe()
        }),
{
}

/// What lies on disk is reported file by file. That is all there is only where there was a
/// cache, every entry of it could be read and the walk came to its end.
pub proof fn a_cache_is_reported_as_it_was_found(mount: Seq<char>, found: ScanModel)
    requires
        found.files.len() <= u64::MAX,
    ensures
        ({
            let s = scan_state(mount, found);
            &&& s.mount == mount
            &&& s.files.len() == found.files.len()
            &&& forall|i: int|
                0 <= i < found.files.len() ==> {
                    let f = #[trigger] s.files[i];
                    &&& f.name == found.files[i].name
                    &&& f.size == found.files[i].size
                    &&& f.in_flight is None
                    &&& f.tries is None
                    &&& f.bytes_sent is None
                }
            &&& s.pending.files == found.files.len()
            &&& s.pending.known_bytes == capped(total(sizes(s.files)))
            &&& s.pending.unknown_size_files == how_many(without_size(s.files))
            &&& s.uploading is None
            &&& s.errored_files is None
            &&& s.out_of_space is None
            &&& s.fidelity == Some(Tier::T4)
            &&& s.degraded_reason is None
            &&& s.outstanding_known <==> found.root_present && found.unreadable == 0
                && !found.truncated
        }),
{
    let s = scan_state(mount, found);
    lemma_figures(s.files);
    crate::laws::sums::lemma_how_many(without_size(s.files));
}

/// Whether this report is the first that names a file.
pub open spec fn first_named(ps: Seq<Progress<Seq<char>>>, name: Seq<char>, k: int) -> bool {
    &&& 0 <= k < ps.len()
    &&& ps[k].name == name
    &&& forall|j: int| 0 <= j < k ==> (#[trigger] ps[j]).name != name
}

/// Whether no report names a file.
pub open spec fn unnamed(ps: Seq<Progress<Seq<char>>>, name: Seq<char>) -> bool {
    forall|j: int| 0 <= j < ps.len() ==> (#[trigger] ps[j]).name != name
}

proof fn lemma_progress_of(ps: Seq<Progress<Seq<char>>>, name: Seq<char>)
    ensures
        unnamed(ps, name) ==> progress_of(ps, name) is None,
        forall|k: int| #[trigger]
            first_named(ps, name, k) ==> progress_of(ps, name) == Some(ps[k].bytes),
        unnamed(ps, name) || exists|k: int| #[trigger] first_named(ps, name, k),
    decreases ps.len(),
{
    if ps.len() > 0 {
        let rest = ps.drop_first();
        lemma_progress_of(rest, name);
        if ps[0].name == name {
            assert(first_named(ps, name, 0));
            assert forall|k: int| #[trigger] first_named(ps, name, k) implies k == 0 by {
                if k > 0 {
                    assert(ps[0].name != name);
                }
            }
        } else {
            assert forall|k: int| #[trigger] first_named(ps, name, k) implies first_named(
                rest,
                name,
                k - 1,
            ) by {
                assert forall|j: int| 0 <= j < k - 1 implies (#[trigger] rest[j]).name != name by {
                    assert(rest[j] == ps[j + 1]);
                }
            }
            if unnamed(ps, name) {
                assert forall|j: int| 0 <= j < rest.len() implies (#[trigger] rest[j]).name
                    != name by {
                    assert(rest[j] == ps[j + 1]);
                }
            }
            if unnamed(rest, name) {
                assert forall|j: int| 0 <= j < ps.len() implies (#[trigger] ps[j]).name
                    != name by {
                    if j > 0 {
                        assert(rest[j - 1] == ps[j]);
                    }
                }
            } else {
                let k = choose|k: int| #[trigger] first_named(rest, name, k);
                assert forall|j: int| 0 <= j < k + 1 implies (#[trigger] ps[j]).name != name by {
                    if j > 0 {
                        assert(rest[j - 1] == ps[j]);
                    }
                }
                assert(first_named(ps, name, k + 1));
            }
        }
    }
}

/// Progress goes to the file it is about: what was sent of a file is taken from the first
/// report that names that very file, and stays what it was where none does. Nothing else of a
/// file changes, no file comes or goes, and the totals stay. Only a reading of the queue has
/// progress put to it.
pub proof fn progress_goes_to_its_own_file(s: TransferModel, ps: Seq<Progress<Seq<char>>>, i: int)
    requires
        s.fidelity == Some(Tier::T2),
        0 <= i < s.files.len(),
    ensures
        ({
            let r = progressed_state(s, ps);
            let name = s.files[i].name;
            &&& r.files.len() == s.files.len()
            &&& unnamed(ps, name) || exists|k: int| #[trigger] first_named(ps, name, k)
            &&& unnamed(ps, name) ==> r.files[i].bytes_sent == s.files[i].bytes_sent
            &&& forall|k: int| #[trigger]
                first_named(ps, name, k) ==> r.files[i].bytes_sent == Some(ps[k].bytes)
            &&& r.files[i].name == name
            &&& r.files[i].size == s.files[i].size
            &&& r.files[i].in_flight == s.files[i].in_flight
            &&& r.files[i].tries == s.files[i].tries
        }),
{
    lemma_progress_of(ps, s.files[i].name);
}

/// Putting progress to a reading says that it has some, and changes nothing of the reading as
/// a whole. A reading of any other kind is left as it is.
pub proof fn progress_changes_only_the_files(s: TransferModel, ps: Seq<Progress<Seq<char>>>)
    ensures
        s.fidelity != Some(Tier::T2) ==> progressed_state(s, ps) == s,
        s.fidelity == Some(Tier::T2) ==> progressed_state(s, ps).has_progress,
        ({
            let r = progressed_state(s, ps);
            &&& r.mount == s.mount
            &&& r.fidelity == s.fidelity
            &&& r.outstanding_known == s.outstanding_known
            &&& r.pending == s.pending
            &&& r.uploading == s.uploading
            &&& r.errored_files == s.errored_files
            &&& r.out_of_space == s.out_of_space
            &&& r.rate_bytes_per_sec == s.rate_bytes_per_sec
            &&& r.degraded_reason == s.degraded_reason
            &&& r.files.len() == s.files.len()
        }),
{
}

/// What is left of a reading is its known bytes without those that were sent, file by file;
/// and nothing, where more was sent than is known.
pub proof fn what_was_sent_is_not_left(s: TransferModel)
    ensures
        ({
            let sent = capped(total(sent_parts(s.files)));
            &&& sent <= s.pending.known_bytes ==> s.remaining() == s.pending.known_bytes - sent
            &&& sent > s.pending.known_bytes ==> s.remaining() == 0
        }),
{
    lemma_figures(s.files);
}

/// A reading that is only a part says so and why, and keeps everything else.
pub proof fn a_part_keeps_its_figures(s: TransferModel, why: Seq<char>)
    ensures
        ({
            let r = partly(s, why);
            &&& !r.outstanding_known
            &&& r.degraded_reason == Some(why)
            &&& r.mount == s.mount
            &&& r.fidelity == s.fidelity
            &&& r.has_progress == s.has_progress
            &&& r.pending == s.pending
            &&& r.uploading == s.uploading
            &&& r.errored_files == s.errored_files
            &&& r.out_of_space == s.out_of_space
            &&& r.rate_bytes_per_sec == s.rate_bytes_per_sec
            &&& r.files == s.files
        }),
{
}

/// Nothing is claimed of what cannot be observed but the reason: no figure is known, none is
/// counted, and no file is listed.
pub proof fn nothing_is_claimed_of_the_unobserved(mount: Seq<char>, why: Seq<char>)
    ensures
        ({
            let s = unmonitored_state(mount, why);
            &&& s.mount == mount
            &&& s.degraded_reason == Some(why)
            &&& s.fidelity is None
            &&& !s.outstanding_known
            &&& !s.has_progress
            &&& s.pending.files == 0
            &&& s.pending.known_bytes == 0
            &&& s.pending.unknown_size_files == 0
            &&& s.uploading is None
            &&& s.errored_files is None
            &&& s.out_of_space is None
            &&& s.rate_bytes_per_sec is None
            &&& s.files.len() == 0
            &&& s.remaining() == 0
        }),
{
}

} // verus!
