//! What the tray sums up: every figure of the summary, from the readings of the live mounts.

use crate::ipc::MountView;
use crate::laws::sums::{
    capped, how_many, lemma_capped_sum, lemma_how_many, lemma_total_covers, number, total,
};
use crate::laws::words::{lemma_ends_with_both, lemma_row_stands};
use crate::model::{tally, ReadingRows, Summary, TrayState, TrayView};
use crate::quantity::{bytes_text, eta_text, pending_text};
use crate::registry::MountRows;
use crate::table::row_at;
use crate::text::{digits, occurs_in};
use crate::transfer::{Tier, TransferModel};
use vstd::prelude::*;

verus! {

/// The reading of a live mount, if it has one.
pub open spec fn live_reading(
    row: (Seq<char>, MountView<Seq<char>>),
    readings: ReadingRows,
) -> Option<TransferModel> {
    if row.1.live {
        row_at(readings, row.1.name)
    } else {
        None
    }
}

/// One figure of the reading of each live mount, zero where a mount has none.
pub open spec fn figures(
    rows: MountRows,
    readings: ReadingRows,
    figure: spec_fn(TransferModel) -> u64,
) -> Seq<u64> {
    rows.map_values(
        |row: (Seq<char>, MountView<Seq<char>>)|
            if live_reading(row, readings) is Some {
                figure(live_reading(row, readings)->0)
            } else {
                0u64
            },
    )
}

/// Which of the live mounts has a reading that something holds of.
pub open spec fn readings_that(
    rows: MountRows,
    readings: ReadingRows,
    holds: spec_fn(TransferModel) -> bool,
) -> Seq<bool> {
    rows.map_values(
        |row: (Seq<char>, MountView<Seq<char>>)|
            live_reading(row, readings) is Some && holds(live_reading(row, readings)->0),
    )
}

/// Which mounts something holds of.
pub open spec fn mounts_that(
    rows: MountRows,
    holds: spec_fn(MountView<Seq<char>>) -> bool,
) -> Seq<bool> {
    rows.map_values(|row: (Seq<char>, MountView<Seq<char>>)| holds(row.1))
}

/// Which live mounts cannot be vouched for: those without a reading, and those whose reading
/// falls short.
pub open spec fn unseen(rows: MountRows, readings: ReadingRows) -> Seq<bool> {
    rows.map_values(
        |row: (Seq<char>, MountView<Seq<char>>)|
            row.1.live && (live_reading(row, readings) is None || live_reading(
                row,
                readings,
            )->0.degraded_reason is Some || !live_reading(row, readings)->0.outstanding_known),
    )
}

/// Whether a reading's bytes are all that its mount has left to send.
pub open spec fn is_whole(t: TransferModel) -> bool {
    &&& t.outstanding_known
    &&& t.pending.unknown_size_files == 0
    &&& t.fidelity == Some(Tier::T1) || t.fidelity == Some(Tier::T2) || t.fidelity == Some(
        Tier::T4,
    )
}

/// How much a reading leaves to send, where it has anything pending.
pub open spec fn left_of(t: TransferModel) -> u64 {
    if t.pending.files > 0 {
        t.remaining()
    } else {
        0
    }
}

/// What holds of a tally of rows.
spec fn adds_up(s: Summary, rows: MountRows, readings: ReadingRows) -> bool {
    &&& s.total == 0
    &&& s.live == how_many(mounts_that(rows, |m: MountView<Seq<char>>| m.live))
    &&& s.failed == how_many(mounts_that(rows, |m: MountView<Seq<char>>| m.state == "failed"@))
    &&& s.unobservable == how_many(unseen(rows, readings))
    &&& s.files == capped(total(figures(rows, readings, |t: TransferModel| t.pending.files)))
    &&& s.bytes == capped(total(figures(rows, readings, |t: TransferModel| t.pending.known_bytes)))
    &&& s.unknown_size_files == capped(
        total(figures(rows, readings, |t: TransferModel| t.pending.unknown_size_files)),
    )
    &&& s.errored == capped(
        total(figures(rows, readings, |t: TransferModel| number(t.errored_files))),
    )
    &&& s.out_of_space <==> how_many(
        readings_that(rows, readings, |t: TransferModel| t.out_of_space == Some(true)),
    ) > 0
    &&& s.dirty_on_disk_only <==> how_many(
        readings_that(rows, readings, |t: TransferModel| t.fidelity == Some(Tier::T4)),
    ) > 0
    &&& s.rate is Some <==> how_many(
        readings_that(rows, readings, |t: TransferModel| t.rate_bytes_per_sec is Some),
    ) > 0
    &&& number(s.rate) == capped(
        total(figures(rows, readings, |t: TransferModel| number(t.rate_bytes_per_sec))),
    )
    &&& s.remaining is Some <==> how_many(
        readings_that(rows, readings, |t: TransferModel| t.pending.files > 0 && !is_whole(t)),
    ) == 0
    &&& s.remaining is Some ==> s.remaining->0 == capped(
        total(figures(rows, readings, |t: TransferModel| left_of(t))),
    )
}

proof fn lemma_figures_step(
    rows: MountRows,
    readings: ReadingRows,
    figure: spec_fn(TransferModel) -> u64,
)
    requires
        rows.len() > 0,
    ensures
        total(figures(rows, readings, figure)) == total(
            figures(rows.drop_last(), readings, figure),
        ) + if live_reading(rows.last(), readings) is Some {
            figure(live_reading(rows.last(), readings)->0) as nat
        } else {
            0nat
        },
{
    assert(figures(rows, readings, figure).drop_last() == figures(
        rows.drop_last(),
        readings,
        figure,
    ));
}

proof fn lemma_readings_step(
    rows: MountRows,
    readings: ReadingRows,
    holds: spec_fn(TransferModel) -> bool,
)
    requires
        rows.len() > 0,
    ensures
        how_many(readings_that(rows, readings, holds)) == how_many(
            readings_that(rows.drop_last(), readings, holds),
        ) + if live_reading(rows.last(), readings) is Some && holds(
            live_reading(rows.last(), readings)->0,
        ) {
            1nat
        } else {
            0nat
        },
{
    assert(readings_that(rows, readings, holds).drop_last() == readings_that(
        rows.drop_last(),
        readings,
        holds,
    ));
}

proof fn lemma_mounts_step(rows: MountRows, holds: spec_fn(MountView<Seq<char>>) -> bool)
    requires
        rows.len() > 0,
    ensures
        how_many(mounts_that(rows, holds)) == how_many(mounts_that(rows.drop_last(), holds))
            + if holds(rows.last().1) {
            1nat
        } else {
            0nat
        },
        how_many(mounts_that(rows, holds)) <= rows.len(),
{
    assert(mounts_that(rows, holds).drop_last() == mounts_that(rows.drop_last(), holds));
    lemma_how_many(mounts_that(rows, holds));
}

proof fn lemma_adds_up(rows: MountRows, readings: ReadingRows)
    requires
        rows.len() <= usize::MAX,
    ensures
        adds_up(tally(rows, readings), rows, readings),
    decreases rows.len(),
{
    if rows.len() > 0 {
        let rest = rows.drop_last();
        lemma_adds_up(rest, readings);
        let before = tally(rest, readings);
        let row = rows.last();
        let files = |t: TransferModel| t.pending.files;
        let bytes = |t: TransferModel| t.pending.known_bytes;
        let sizeless = |t: TransferModel| t.pending.unknown_size_files;
        let errored = |t: TransferModel| number(t.errored_files);
        let rate = |t: TransferModel| number(t.rate_bytes_per_sec);
        let left = |t: TransferModel| left_of(t);
        lemma_figures_step(rows, readings, files);
        lemma_figures_step(rows, readings, bytes);
        lemma_figures_step(rows, readings, sizeless);
        lemma_figures_step(rows, readings, errored);
        lemma_figures_step(rows, readings, rate);
        lemma_figures_step(rows, readings, left);
        lemma_readings_step(rows, readings, |t: TransferModel| t.out_of_space == Some(true));
        lemma_readings_step(rows, readings, |t: TransferModel| t.fidelity == Some(Tier::T4));
        lemma_readings_step(rows, readings, |t: TransferModel| t.rate_bytes_per_sec is Some);
        lemma_readings_step(
            rows,
            readings,
            |t: TransferModel| t.pending.files > 0 && !is_whole(t),
        );
        lemma_mounts_step(rows, |m: MountView<Seq<char>>| m.live);
        lemma_mounts_step(rows, |m: MountView<Seq<char>>| m.state == "failed"@);
        assert(unseen(rows, readings).drop_last() == unseen(rest, readings));
        lemma_how_many(unseen(rows, readings));
        if let Some(t) = live_reading(row, readings) {
            lemma_capped_sum(total(figures(rest, readings, files)), t.pending.files);
            lemma_capped_sum(total(figures(rest, readings, bytes)), t.pending.known_bytes);
            lemma_capped_sum(
                total(figures(rest, readings, sizeless)),
                t.pending.unknown_size_files,
            );
            lemma_capped_sum(total(figures(rest, readings, errored)), number(t.errored_files));
            lemma_capped_sum(total(figures(rest, readings, rate)), number(t.rate_bytes_per_sec));
            lemma_capped_sum(total(figures(rest, readings, left)), left_of(t));
        }
    }
}

/// The counts of the summary: all mounts, those that are live, those that failed, and those
/// live ones that cannot be vouched for.
pub proof fn the_summary_counts_the_mounts(v: TrayView)
    requires
        v.mounts.len() <= usize::MAX,
    ensures
        v.sum().total == v.mounts.len(),
        v.sum().live == how_many(mounts_that(v.mounts, |m: MountView<Seq<char>>| m.live)),
        v.sum().failed == how_many(
            mounts_that(v.mounts, |m: MountView<Seq<char>>| m.state == "failed"@),
        ),
        v.sum().unobservable == how_many(unseen(v.mounts, v.transfers)),
{
    lemma_adds_up(v.mounts, v.transfers);
}

/// The figures of the summary are what those of the live mounts add up to: files, bytes,
/// files of unknown size, errors and rate. A figure is never less than that of any one mount.
pub proof fn the_summary_adds_the_readings_up(v: TrayView, k: int)
    requires
        v.mounts.len() <= usize::MAX,
    ensures
        v.sum().files == capped(
            total(figures(v.mounts, v.transfers, |t: TransferModel| t.pending.files)),
        ),
        v.sum().bytes == capped(
            total(figures(v.mounts, v.transfers, |t: TransferModel| t.pending.known_bytes)),
        ),
        v.sum().unknown_size_files == capped(
            total(figures(v.mounts, v.transfers, |t: TransferModel| t.pending.unknown_size_files)),
        ),
        v.sum().errored == capped(
            total(figures(v.mounts, v.transfers, |t: TransferModel| number(t.errored_files))),
        ),
        number(v.sum().rate) == capped(
            total(figures(v.mounts, v.transfers, |t: TransferModel| number(t.rate_bytes_per_sec))),
        ),
        v.sum().rate is Some <==> how_many(
            readings_that(
                v.mounts,
                v.transfers,
                |t: TransferModel| t.rate_bytes_per_sec is Some,
            ),
        ) > 0,
        0 <= k < v.mounts.len() && live_reading(v.mounts[k], v.transfers) is Some ==> {
            let t = live_reading(v.mounts[k], v.transfers)->0;
            &&& v.sum().files >= t.pending.files
            &&& v.sum().bytes >= t.pending.known_bytes
            &&& v.sum().unknown_size_files >= t.pending.unknown_size_files
            &&& v.sum().errored >= number(t.errored_files)
            &&& number(v.sum().rate) >= number(t.rate_bytes_per_sec)
        },
{
    lemma_adds_up(v.mounts, v.transfers);
    if 0 <= k < v.mounts.len() {
        lemma_total_covers(
            figures(v.mounts, v.transfers, |t: TransferModel| t.pending.files),
            k,
        );
        lemma_total_covers(
            figures(v.mounts, v.transfers, |t: TransferModel| t.pending.known_bytes),
            k,
        );
        lemma_total_covers(
            figures(v.mounts, v.transfers, |t: TransferModel| t.pending.unknown_size_files),
            k,
        );
        lemma_total_covers(
            figures(v.mounts, v.transfers, |t: TransferModel| number(t.errored_files)),
            k,
        );
        lemma_total_covers(
            figures(v.mounts, v.transfers, |t: TransferModel| number(t.rate_bytes_per_sec)),
            k,
        );
    }
}

/// The cache is out of space where that of some live mount is; figures come off the disk where
/// those of some live mount do. What is left to send is known exactly where every live mount
/// can be vouched for and every reading with something pending is whole; and then it is what
/// those readings leave, added up.
pub proof fn the_summary_knows_what_is_left(v: TrayView)
    requires
        v.mounts.len() <= usize::MAX,
    ensures
        v.sum().out_of_space <==> how_many(
            readings_that(
                v.mounts,
                v.transfers,
                |t: TransferModel| t.out_of_space == Some(true),
            ),
        ) > 0,
        v.sum().dirty_on_disk_only <==> how_many(
            readings_that(
                v.mounts,
                v.transfers,
                |t: TransferModel| t.fidelity == Some(Tier::T4),
            ),
        ) > 0,
        v.sum().remaining is Some <==> how_many(unseen(v.mounts, v.transfers)) == 0 && how_many(
            readings_that(
                v.mounts,
                v.transfers,
                |t: TransferModel| t.pending.files > 0 && !is_whole(t),
            ),
        ) == 0,
        v.sum().remaining is Some ==> v.sum().remaining->0 == capped(
            total(figures(v.mounts, v.transfers, |t: TransferModel| left_of(t))),
        ),
{
    lemma_adds_up(v.mounts, v.transfers);
}

/// What the icon says of a connected tray, the loudest first: that something needs attention
/// where a mount failed, an upload of a live mount errored or its cache is full; that not all
/// is known where a live mount cannot be vouched for; that files are pending where some are;
/// and that nothing is served where no mount is live.
pub proof fn the_icon_says_the_loudest_thing(v: TrayView)
    requires
        v.mounts.len() <= usize::MAX,
        v.link is Up,
    ensures
        ({
            let trouble = how_many(
                mounts_that(v.mounts, |m: MountView<Seq<char>>| m.state == "failed"@),
            ) > 0 || total(
                figures(v.mounts, v.transfers, |t: TransferModel| number(t.errored_files)),
            ) > 0 || how_many(
                readings_that(
                    v.mounts,
                    v.transfers,
                    |t: TransferModel| t.out_of_space == Some(true),
                ),
            ) > 0;
            let doubt = how_many(unseen(v.mounts, v.transfers)) > 0;
            let work = total(
                figures(v.mounts, v.transfers, |t: TransferModel| t.pending.files),
            ) > 0;
            let served = how_many(mounts_that(v.mounts, |m: MountView<Seq<char>>| m.live)) > 0;
            &&& trouble <==> v.icon_state() == TrayState::Attention
            &&& !trouble && doubt <==> v.icon_state() == TrayState::Degraded
            &&& !trouble && !doubt && work <==> v.icon_state() == TrayState::Syncing
            &&& !trouble && !doubt && !work && !served <==> v.icon_state() == TrayState::Offline
            &&& !trouble && !doubt && !work && served <==> v.icon_state() == TrayState::Idle
        }),
{
    lemma_adds_up(v.mounts, v.transfers);
}

/// A tray without a link says so, and which kind of not.
pub proof fn without_a_link_the_icon_says_so(v: TrayView)
    ensures
        v.link is Connecting <==> v.icon_state() == TrayState::Connecting,
        v.link is Down <==> v.icon_state() == TrayState::Disconnected,
{
}

/// The line on what is served says how many of how many mounts are.
pub proof fn the_first_line_counts_the_served(s: Summary)
    ensures
        s.total > 0 ==> s.mounted_text() == digits(s.live as nat) + " of "@ + digits(
            s.total as nat,
        ) + " mounted"@,
{
}

/// The line on what is pending says the figures it is about. Nothing is said where nothing is
/// served; "All synced" is said where everything served was seen and nothing is pending; and
/// what could not be seen is counted out.
pub proof fn the_second_line_says_what_is_pending(s: Summary)
    ensures
        s.pending_words() is None <==> s.live == 0,
        s.live > 0 && s.files == 0 && s.unobservable == 0 ==> s.pending_words() == Some(
            "All synced"@,
        ),
        s.live > 0 && s.files == 0 && s.unobservable > 0 ==> occurs_in(
            digits(s.unobservable as nat) + " of "@ + digits(s.live as nat),
            s.pending_words()->0,
        ),
        s.live > 0 && s.files > 0 ==> {
            let figures = pending_text(
                s.files as nat,
                s.bytes as nat,
                s.unknown_size_files as nat,
            );
            &&& figures.is_prefix_of(s.pending_words()->0)
            &&& s.unobservable == 0 ==> s.pending_words()->0 == figures
            &&& s.unobservable > 0 ==> occurs_in(
                digits(s.unobservable as nat) + " mount(s) unreadable"@,
                s.pending_words()->0,
            )
        },
{
    let unseen = digits(s.unobservable as nat);
    lemma_row_stands("Pending: unknown on "@, unseen, " of "@, digits(s.live as nat), " mounts"@);
    lemma_ends_with_both(
        pending_text(s.files as nat, s.bytes as nat, s.unknown_size_files as nat),
        ", plus "@,
        unseen,
        " mount(s) unreadable"@,
    );
}

/// The line on the rate says how fast, and how long it takes at that rate to send what is
/// left, where that is known and something is pending. There is none without a rate.
pub proof fn the_third_line_says_how_long(s: Summary)
    ensures
        s.rate_words() is None <==> number(s.rate) == 0,
        s.rate_words() matches Some(line) ==> {
            let speed = bytes_text(number(s.rate) as nat) + "/s"@;
            &&& speed.is_prefix_of(line)
            &&& s.files == 0 || s.remaining is None ==> line == speed
            &&& s.files > 0 && s.remaining is Some ==> occurs_in(
                eta_text((s.remaining->0 / number(s.rate)) as nat) + " left"@,
                line,
            )
        },
{
    let rate = number(s.rate);
    if rate > 0 {
        lemma_ends_with_both(
            bytes_text(rate as nat) + "/s"@,
            " · "@,
            eta_text((number(s.remaining) / rate) as nat),
            " left"@,
        );
    }
}

} // verus!
