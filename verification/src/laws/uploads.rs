//! What a mount's menu says of its uploads, and what the menu says of the service.

use crate::laws::panel::lists;
use crate::menu::{
    a_label_is_drawn_as_it_was_meant, about_menu, drawn, file_rows, file_words, listed,
    pending_row, reading_rows, text_row, Row, TRAY_VERSION,
};
use crate::model::{or_zero, ServiceInfo};
use crate::quantity::{bytes_text, pending_text};
use crate::text::{begins_with, digits, finishes_with, occurs_at, occurs_in};
use crate::transfer::{Tier, TransferFile, TransferModel};
use vstd::prelude::*;

verus! {

proof fn lemma_line(rows: Seq<Row<Seq<char>>>, line: Seq<char>, i: int)
    requires
        0 <= i < rows.len(),
        rows[i] == text_row(line),
    ensures
        lists(rows, line),
        rows[i] is Text,
        drawn(rows[i]->Text_0) == line,
{
    a_label_is_drawn_as_it_was_meant(line);
}

proof fn lemma_file_rows(
    rows: Seq<Row<Seq<char>>>,
    files: Seq<TransferFile<Seq<char>>>,
    has_progress: bool,
)
    ensures
        file_rows(rows, files, has_progress).len() == rows.len() + files.len(),
        forall|i: int|
            0 <= i < rows.len() ==> #[trigger] file_rows(rows, files, has_progress)[i] == rows[i],
        forall|i: int|
            0 <= i < files.len() ==> file_rows(rows, files, has_progress)[rows.len() + i]
                == text_row(file_words(#[trigger] files[i], has_progress)),
    decreases files.len(),
{
    if files.len() > 0 {
        let rest = files.drop_last();
        lemma_file_rows(rows, rest, has_progress);
        let before = file_rows(rows, rest, has_progress);
        let all = file_rows(rows, files, has_progress);
        assert forall|i: int| 0 <= i < files.len() implies all[rows.len() + i] == text_row(
            file_words(#[trigger] files[i], has_progress),
        ) by {
            if i < rest.len() {
                assert(rest[i] == files[i]);
                assert(all[rows.len() + i] == before[rows.len() + i]);
            }
        }
    }
}

/// What is listed of a reading: first what is outstanding, as far as that is known; a row for
/// each of the first ten files, in their order, and how many more there are; and behind them
/// what failed, whether the cache is full, and why the reading falls short.
pub proof fn what_is_outstanding_is_listed(t: TransferModel, i: int)
    ensures
        ({
            let rows = reading_rows(Some(t));
            let first = drawn(rows[0]->Text_0);
            &&& rows.len() > 0
            &&& rows[0] is Text
            &&& !t.outstanding_known <==> first == "Pending: unknown"@
            &&& t.outstanding_known && t.pending.files == 0 ==> first == "All synced"@
            &&& t.outstanding_known && t.pending.files > 0 ==> first == pending_text(
                t.pending.files as nat,
                t.pending.known_bytes as nat,
                t.pending.unknown_size_files as nat,
            )
            &&& 0 <= i < t.files.len() && i < 10 ==> rows[i + 1] is Text && drawn(
                rows[i + 1]->Text_0,
            ) == file_words(t.files[i], t.has_progress)
            &&& t.files.len() > 10 ==> rows[11] is Text && drawn(rows[11]->Text_0) == "and "@
                + digits((t.files.len() - 10) as nat) + " more…"@
            &&& t.errored_files matches Some(n) ==> n > 0 ==> lists(
                rows,
                digits(n as nat) + " file(s) failed to upload"@,
            )
            &&& t.out_of_space == Some(true) ==> lists(rows, "The cache is out of space"@)
            &&& t.degraded_reason matches Some(why) ==> lists(rows, why)
            &&& t.fidelity == Some(Tier::T4) ==> lists(
                rows,
                "Showing unuploaded files on disk, not live upload progress."@,
            )
        }),
        lists(reading_rows(None), "No upload information yet"@),
{
    let rows = reading_rows(Some(t));
    lemma_line(reading_rows(None), "No upload information yet"@, 0);
    let n = listed(t.files.len());
    let r0 = seq![pending_row(t)];
    let shown = t.files.take(n as int);
    lemma_file_rows(r0, shown, t.has_progress);
    let r1 = file_rows(r0, shown, t.has_progress);
    assert(r1[0] == r0[0]);
    assert(rows[0] == pending_row(t));
    lemma_first_row(t);
    if 0 <= i < t.files.len() && i < 10 {
        assert(shown[i] == t.files[i]);
        assert(r1[r0.len() + i] == text_row(file_words(shown[i], t.has_progress)));
        lemma_line(rows, file_words(t.files[i], t.has_progress), i + 1);
    }
    let more = t.files.len() > 10;
    let failed = or_zero(t.errored_files) > 0;
    let full = t.out_of_space == Some(true);
    let disk = t.fidelity == Some(Tier::T4);
    let a = r1.len() as int;
    let b = if more {
        a + 1
    } else {
        a
    };
    let c = if failed {
        b + 1
    } else {
        b
    };
    let d = if full {
        c + 1
    } else {
        c
    };
    let e = if disk {
        d + 1
    } else {
        d
    };
    if more {
        lemma_line(rows, "and "@ + digits((t.files.len() - 10) as nat) + " more…"@, a);
    }
    if failed {
        lemma_line(
            rows,
            digits(or_zero(t.errored_files) as nat) + " file(s) failed to upload"@,
            b,
        );
    }
    if full {
        lemma_line(rows, "The cache is out of space"@, c);
    }
    if disk {
        lemma_line(rows, "Showing unuploaded files on disk, not live upload progress."@, d);
    }
    if let Some(why) = t.degraded_reason {
        lemma_line(rows, why, e);
    }
}

proof fn lemma_first_row(t: TransferModel)
    ensures
        pending_row(t) is Text,
        ({
            let first = drawn(pending_row(t)->Text_0);
            &&& !t.outstanding_known <==> first == "Pending: unknown"@
            &&& t.outstanding_known && t.pending.files == 0 ==> first == "All synced"@
            &&& t.outstanding_known && t.pending.files > 0 ==> first == pending_text(
                t.pending.files as nat,
                t.pending.known_bytes as nat,
                t.pending.unknown_size_files as nat,
            )
        }),
{
    a_label_is_drawn_as_it_was_meant("Pending: unknown"@);
    a_label_is_drawn_as_it_was_meant("All synced"@);
    let line = pending_text(
        t.pending.files as nat,
        t.pending.known_bytes as nat,
        t.pending.unknown_size_files as nat,
    );
    a_label_is_drawn_as_it_was_meant(line);
    reveal_strlit("Pending: unknown");
    reveal_strlit("All synced");
    assert("Pending: unknown"@[0] == 'P');
    assert("All synced"@[0] == 'A');
    if t.outstanding_known && t.pending.files > 0 {
        crate::laws::texts::a_number_reads_back(t.pending.files as nat);
        assert('P' as int == 80 && '9' as int == 57);
        assert(line[0] == digits(t.pending.files as nat)[0]);
    }
}

/// A file goes by its name, with its size where that is known, says that it is being uploaded
/// exactly where it is, and ends with what was sent of it where that is known too. What is not
/// known is not said: a file of which nothing is goes by its name alone.
pub proof fn a_file_is_told_as_far_as_it_is_known(f: TransferFile<Seq<char>>, has_progress: bool)
    ensures
        ({
            let words = file_words(f, has_progress);
            let told = has_progress && f.bytes_sent is Some && f.size is Some && f.size->0 > 0;
            &&& begins_with(words, f.name)
            &&& f.size matches Some(n) ==> begins_with(
                words,
                f.name + " — "@ + bytes_text(n as nat),
            )
            &&& f.in_flight == Some(true) ==> occurs_in(" (uploading)"@, words)
            &&& told ==> finishes_with(
                words,
                " — "@ + bytes_text(f.bytes_sent->0 as nat) + " sent"@,
            )
            &&& f.size is None && f.in_flight != Some(true) ==> words == f.name
            &&& f.in_flight != Some(true) && !told ==> words == f.name || words == f.name + " — "@
                + bytes_text(f.size->0 as nat)
        }),
{
    let sized = match f.size {
        Some(size) => f.name + " — "@ + bytes_text(size as nat),
        None => f.name,
    };
    let flying = if f.in_flight == Some(true) {
        " (uploading)"@
    } else {
        Seq::<char>::empty()
    };
    let told = has_progress && f.bytes_sent is Some && f.size is Some && f.size->0 > 0;
    let end = if told {
        " — "@ + bytes_text(f.bytes_sent->0 as nat) + " sent"@
    } else {
        Seq::<char>::empty()
    };
    let words = file_words(f, has_progress);
    assert(words == sized + flying + end);
    lemma_three(sized, flying, end);
    if let Some(n) = f.size {
        assert(sized == f.name + (" — "@ + bytes_text(n as nat)));
        lemma_shorter(words, sized, f.name, " — "@ + bytes_text(n as nat));
    }
}

proof fn lemma_three(a: Seq<char>, b: Seq<char>, c: Seq<char>)
    ensures
        begins_with(a + b + c, a),
        occurs_in(b, a + b + c),
        finishes_with(a + b + c, c),
{
    let all = a + b + c;
    assert(all.subrange(0, a.len() as int) == a);
    assert(all.subrange(a.len() as int, (a.len() + b.len()) as int) == b);
    assert(occurs_at(b, all, a.len() as int));
    assert(all.subrange(all.len() - c.len(), all.len() as int) == c);
}

proof fn lemma_shorter(all: Seq<char>, head: Seq<char>, name: Seq<char>, rest: Seq<char>)
    requires
        begins_with(all, head),
        head == name + rest,
    ensures
        begins_with(all, name),
{
    assert(head.subrange(0, name.len() as int) == name);
    assert(all.subrange(0, name.len() as int) == head.subrange(0, name.len() as int));
}

/// The menu about the service gives its version, that of its interface and its rclone's, and
/// the tier that it can read at, each in a row of its own.
pub proof fn the_service_is_described(info: ServiceInfo<Seq<char>>)
    ensures
        about_menu(info) is SubMenu,
        ({
            let rows = about_menu(info)->SubMenu_1;
            &&& lists(rows, "Tray "@ + TRAY_VERSION@)
            &&& lists(rows, "Service "@ + info.service_version)
            &&& lists(rows, "rclone "@ + info.rclone_version)
            &&& lists(rows, "Capability tier "@ + info.capability_tier)
            &&& lists(
                rows,
                "Interface "@ + digits(info.interface_version as nat) + " (this client speaks "@
                    + digits(1) + ")"@,
            )
        }),
{
    let rows = about_menu(info)->SubMenu_1;
    lemma_line(rows, "Tray "@ + TRAY_VERSION@, 0);
    lemma_line(rows, "Service "@ + info.service_version, 1);
    lemma_line(
        rows,
        "Interface "@ + digits(info.interface_version as nat) + " (this client speaks "@ + digits(1)
            + ")"@,
        2,
    );
    lemma_line(rows, "rclone "@ + info.rclone_version, 3);
    lemma_line(rows, "Capability tier "@ + info.capability_tier, 4);
}

} // verus!
