//! What a script or a person reads in what the client prints: the status itself, field by
//! field, and a row for every mount.

use crate::client::{
    disconnected_doc, disconnection, entry_doc, file_doc, list_row, list_rows, list_text,
    list_width, output_of, padded, pending_words, status_doc, status_row, status_rows, status_text,
    status_width, transfer_doc, widest, Command, MountEntryModel, Reply, StatusModel,
};
use crate::ipc::{MountView, TransferView, TransferViewModel};
use crate::json::{field_of, json_text, Json};
use crate::laws::words::lemma_stands_between;
use crate::link::{LinkError, START_HINT};
use crate::text::{begins_with, digits, finishes_with, occurs_at, occurs_in};
use crate::transfer::TransferFile;
use vstd::prelude::*;

verus! {

/// The text under a key.
pub open spec fn text_under(doc: Json, key: Seq<char>) -> Seq<char> {
    field_of(doc, key)->0->Text_0
}

/// The number under a key.
pub open spec fn number_under(doc: Json, key: Seq<char>) -> u64 {
    field_of(doc, key)->0->Whole_0
}

/// The flag under a key.
pub open spec fn flag_under(doc: Json, key: Seq<char>) -> bool {
    field_of(doc, key)->0->Bool_0
}

/// Whether there is nothing under a key but that there is nothing.
pub open spec fn is_null(doc: Json, key: Seq<char>) -> bool {
    field_of(doc, key) == Some(Json::Null)
}

/// The text under a key, unless that is null.
pub open spec fn some_text(doc: Json, key: Seq<char>) -> Option<Seq<char>> {
    if is_null(doc, key) {
        None
    } else {
        Some(text_under(doc, key))
    }
}

/// The number under a key, unless that is null.
pub open spec fn some_number(doc: Json, key: Seq<char>) -> Option<u64> {
    if is_null(doc, key) {
        None
    } else {
        Some(number_under(doc, key))
    }
}

/// The flag under a key, unless that is null.
pub open spec fn some_flag(doc: Json, key: Seq<char>) -> Option<bool> {
    if is_null(doc, key) {
        None
    } else {
        Some(flag_under(doc, key))
    }
}

/// The outstanding file that a script reads.
pub open spec fn read_file(doc: Json) -> TransferFile<Seq<char>> {
    TransferFile {
        name: text_under(doc, "name"@),
        size: some_number(doc, "size"@),
        in_flight: some_flag(doc, "in_flight"@),
        tries: some_number(doc, "tries"@),
        bytes_sent: some_number(doc, "bytes_sent"@),
    }
}

/// The reading that a script reads for a mount.
pub open spec fn read_transfer(doc: Json, mount: Seq<char>) -> TransferViewModel {
    TransferView {
        mount,
        fidelity: some_text(doc, "fidelity"@),
        outstanding_known: flag_under(doc, "outstanding_known"@),
        has_progress: flag_under(doc, "has_progress"@),
        pending_files: number_under(doc, "pending_files"@),
        pending_known_bytes: number_under(doc, "pending_known_bytes"@),
        pending_unknown_size_files: number_under(doc, "pending_unknown_size_files"@),
        uploading: some_number(doc, "uploading"@),
        errored_files: some_number(doc, "errored_files"@),
        out_of_space: some_flag(doc, "out_of_space"@),
        rate_bytes_per_sec: some_number(doc, "rate_bytes_per_sec"@),
        files: field_of(doc, "files"@)->0->List_0.map_values(|f: Json| read_file(f)),
        degraded_reason: some_text(doc, "degraded_reason"@),
    }
}

/// The mount that a script reads.
pub open spec fn read_mount(doc: Json) -> MountView<Seq<char>> {
    MountView {
        name: text_under(doc, "name"@),
        state: text_under(doc, "state"@),
        live: flag_under(doc, "live"@),
        managed: flag_under(doc, "managed"@),
        reason: some_text(doc, "reason"@),
        mount_point: some_text(doc, "mount_point"@),
        remote: some_text(doc, "remote"@),
    }
}

/// The keys of a file are different ones.
proof fn lemma_file_keys()
    ensures
        "name"@ != "size"@,
        "name"@ != "in_flight"@,
        "name"@ != "tries"@,
        "name"@ != "bytes_sent"@,
        "size"@ != "in_flight"@,
        "size"@ != "tries"@,
        "size"@ != "bytes_sent"@,
        "in_flight"@ != "tries"@,
        "in_flight"@ != "bytes_sent"@,
        "tries"@ != "bytes_sent"@,
{
    reveal_strlit("name");
    reveal_strlit("size");
    reveal_strlit("in_flight");
    reveal_strlit("tries");
    reveal_strlit("bytes_sent");
    assert("name"@.len() == 4 && "size"@.len() == 4 && "in_flight"@.len() == 9 && "tries"@.len()
        == 5 && "bytes_sent"@.len() == 10);
    assert("name"@[0] != "size"@[0]);
}

/// What a script reads of an outstanding file is that file, field by field.
pub proof fn a_file_reads_back(f: TransferFile<Seq<char>>)
    ensures
        read_file(file_doc(f)) == f,
{
    lemma_file_keys();
}

proof fn lemma_transfer_lengths()
    ensures
        "fidelity"@.len() == 8,
        "outstanding_known"@.len() == 17,
        "has_progress"@.len() == 12,
        "out_of_space"@.len() == 12,
        "has_progress"@ != "out_of_space"@,
        "pending_files"@.len() == 13,
        "errored_files"@.len() == 13,
        "pending_files"@ != "errored_files"@,
        "pending_known_bytes"@.len() == 19,
        "pending_unknown_size_files"@.len() == 26,
        "uploading"@.len() == 9,
        "rate_bytes_per_sec"@.len() == 18,
        "degraded_reason"@.len() == 15,
        "files"@.len() == 5,
{
    reveal_strlit("fidelity");
    reveal_strlit("outstanding_known");
    reveal_strlit("has_progress");
    reveal_strlit("out_of_space");
    reveal_strlit("pending_files");
    reveal_strlit("errored_files");
    reveal_strlit("pending_known_bytes");
    reveal_strlit("pending_unknown_size_files");
    reveal_strlit("uploading");
    reveal_strlit("rate_bytes_per_sec");
    reveal_strlit("degraded_reason");
    reveal_strlit("files");
    assert("has_progress"@[0] != "out_of_space"@[0]);
    assert("pending_files"@[0] != "errored_files"@[0]);
}

/// What a script reads of a mount's outstanding work is that reading, field by field and file
/// by file. The mount it is of stands beside it.
pub proof fn a_reading_reads_back(t: TransferViewModel)
    ensures
        read_transfer(transfer_doc(t), t.mount) == t,
{
    lemma_transfer_lengths();
    let doc = transfer_doc(t);
    let list = field_of(doc, "files"@)->0->List_0;
    let want = t.files.map_values(|f: TransferFile<Seq<char>>| file_doc(f));
    assert(list == want);
    let back = list.map_values(|f: Json| read_file(f));
    assert forall|i: int| 0 <= i < t.files.len() implies #[trigger] back[i] == t.files[i] by {
        a_file_reads_back(t.files[i]);
        assert(list[i] == file_doc(t.files[i]));
    }
    assert(back == t.files);
    assert(some_text(doc, "fidelity"@) == t.fidelity);
    assert(some_text(doc, "degraded_reason"@) == t.degraded_reason);
    assert(some_number(doc, "uploading"@) == t.uploading);
    assert(some_number(doc, "errored_files"@) == t.errored_files);
    assert(some_number(doc, "rate_bytes_per_sec"@) == t.rate_bytes_per_sec);
    assert(some_flag(doc, "out_of_space"@) == t.out_of_space);
}

proof fn lemma_entry_keys()
    ensures
        "name"@.len() == 4,
        "live"@.len() == 4,
        "name"@ != "live"@,
        "state"@.len() == 5,
        "managed"@.len() == 7,
        "reason"@.len() == 6,
        "remote"@.len() == 6,
        "reason"@ != "remote"@,
        "mount_point"@.len() == 11,
        "transfer"@.len() == 8,
{
    reveal_strlit("name");
    reveal_strlit("live");
    reveal_strlit("state");
    reveal_strlit("managed");
    reveal_strlit("reason");
    reveal_strlit("remote");
    reveal_strlit("mount_point");
    reveal_strlit("transfer");
    assert("name"@[0] != "live"@[0]);
    assert("reason"@[2] != "remote"@[2]);
}

/// What a script reads of a mount is that mount, field by field, and its reading; null where
/// it has none.
pub proof fn a_mount_reads_back(e: MountEntryModel)
    ensures
        read_mount(entry_doc(e)) == e.view,
        is_null(entry_doc(e), "transfer"@) <==> e.transfer is None,
        e.transfer matches Some(t) ==> read_transfer(
            field_of(entry_doc(e), "transfer"@)->0,
            t.mount,
        ) == t,
{
    lemma_entry_keys();
    let doc = entry_doc(e);
    if let Some(t) = e.transfer {
        a_reading_reads_back(t);
        assert(field_of(doc, "transfer"@) == Some(transfer_doc(t)));
    } else {
        assert(field_of(doc, "transfer"@) == Some(Json::Null));
    }
    assert(some_text(doc, "reason"@) == e.view.reason);
    assert(some_text(doc, "mount_point"@) == e.view.mount_point);
    assert(some_text(doc, "remote"@) == e.view.remote);
}

proof fn lemma_status_keys()
    ensures
        "connected"@.len() == 9,
        "service"@.len() == 7,
        "mounts"@.len() == 6,
        "service_version"@.len() == 15,
        "capability_tier"@.len() == 15,
        "service_version"@ != "capability_tier"@,
        "interface_version"@.len() == 17,
        "client_interface_version"@.len() == 24,
        "rclone_version"@.len() == 14,
{
    reveal_strlit("connected");
    reveal_strlit("service");
    reveal_strlit("mounts");
    reveal_strlit("service_version");
    reveal_strlit("capability_tier");
    reveal_strlit("interface_version");
    reveal_strlit("client_interface_version");
    reveal_strlit("rclone_version");
    assert("service_version"@[0] != "capability_tier"@[0]);
}

/// What a script reads of a status is the status: that it is connected, what the service says
/// of itself, the interface that this client speaks, and every mount, in its place.
pub proof fn a_status_reads_back(s: StatusModel, i: int)
    ensures
        ({
            let doc = status_doc(s);
            let service = field_of(doc, "service"@)->0;
            let list = field_of(doc, "mounts"@)->0;
            &&& flag_under(doc, "connected"@)
            &&& text_under(service, "service_version"@) == s.service_version
            &&& number_under(service, "interface_version"@) == s.interface_version
            &&& number_under(service, "client_interface_version"@) == 1
            &&& text_under(service, "rclone_version"@) == s.rclone_version
            &&& text_under(service, "capability_tier"@) == s.capability_tier
            &&& list is List
            &&& list->List_0.len() == s.mounts.len()
            &&& 0 <= i < s.mounts.len() ==> {
                let e = list->List_0[i];
                &&& read_mount(e) == s.mounts[i].view
                &&& is_null(e, "transfer"@) <==> s.mounts[i].transfer is None
                &&& s.mounts[i].transfer matches Some(t) ==> read_transfer(
                    field_of(e, "transfer"@)->0,
                    t.mount,
                ) == t
            }
        }),
{
    lemma_status_keys();
    if 0 <= i < s.mounts.len() {
        a_mount_reads_back(s.mounts[i]);
    }
}

/// Whether two failures are of one kind.
pub open spec fn one_kind(a: LinkError<Seq<char>>, b: LinkError<Seq<char>>) -> bool {
    ||| a is NoSessionBus && b is NoSessionBus
    ||| a is NotRunning && b is NotRunning
    ||| a is Incompatible && b is Incompatible
    ||| a is TooOld && b is TooOld
    ||| a is Refused && b is Refused
    ||| a is Transport && b is Transport
}

proof fn lemma_reasons()
    ensures
        "service not running"@.len() == 19,
        "no session bus"@.len() == 14,
        "interface incompatible"@.len() == 22,
        "service too old"@.len() == 15,
        "service unreachable"@.len() == 19,
        "request refused"@.len() == 15,
        "service not running"@ != "service unreachable"@,
        "service too old"@ != "request refused"@,
{
    reveal_strlit("service not running");
    reveal_strlit("no session bus");
    reveal_strlit("interface incompatible");
    reveal_strlit("service too old");
    reveal_strlit("service unreachable");
    reveal_strlit("request refused");
    assert("service not running"@[8] != "service unreachable"@[8]);
    assert("service too old"@[0] != "request refused"@[0]);
}

/// What a script reads of a status that could not be had: that it is not connected, that
/// nothing is known of the mounts, the sentence, a reason that tells the kinds of failure
/// apart, and how to start the service where that would help.
pub proof fn a_failure_reads_back(e: LinkError<Seq<char>>, other: LinkError<Seq<char>>)
    ensures
        ({
            let doc = disconnected_doc(e);
            &&& field_of(doc, "connected"@) == Some(Json::Bool(false))
            &&& is_null(doc, "mounts"@)
            &&& field_of(doc, "detail"@) == Some(Json::Text(e.sentence()))
            &&& field_of(doc, "reason"@) is Some
            &&& field_of(doc, "reason"@)->0 is Text
            &&& text_under(doc, "reason"@) == text_under(disconnected_doc(other), "reason"@)
                <==> one_kind(e, other)
            &&& e is NotRunning ==> field_of(doc, "start_hint"@) == Some(Json::Text(START_HINT@))
            &&& !(e is NotRunning) ==> field_of(doc, "start_hint"@) is None
        }),
{
    lemma_reasons();
    lemma_status_keys();
    reveal_strlit("reason");
    reveal_strlit("detail");
    reveal_strlit("start_hint");
    reveal_strlit("mounts");
    assert("reason"@.len() == 6 && "detail"@.len() == 6 && "start_hint"@.len() == 10);
    assert("reason"@[0] != "detail"@[0] && "reason"@[0] != "mounts"@[0] && "detail"@[0]
        != "mounts"@[0]);
    assert(text_under(disconnected_doc(e), "reason"@) == disconnection(e));
    assert(text_under(disconnected_doc(other), "reason"@) == disconnection(other));
}

proof fn lemma_padded(s: Seq<char>, width: nat)
    ensures
        begins_with(padded(s, width), s),
        s.len() <= width ==> padded(s, width).len() == width,
        forall|i: int| s.len() <= i < padded(s, width).len() ==> #[trigger] padded(s, width)[i]
            == ' ',
{
    assert(padded(s, width).subrange(0, s.len() as int) == s);
}

/// The row of a mount in a list: its name first, its state in the next column and whether it
/// is live in the one after that, as long as what comes before fits its own column; and its
/// mount point last, or a dash.
pub proof fn a_row_lists_its_mount(m: MountView<Seq<char>>, width: nat)
    ensures
        ({
            let row = list_row(m, width);
            &&& begins_with(row, m.name)
            &&& m.name.len() <= width ==> occurs_at(m.state, row, (width + 2) as int)
            &&& m.name.len() <= width && m.state.len() <= 10 ==> occurs_at(
                if m.live {
                    "live"@
                } else {
                    "-"@
                },
                row,
                (width + 14) as int,
            )
            &&& m.mount_point matches Some(p) ==> finishes_with(row, p + "\n"@)
            &&& m.mount_point is None ==> finishes_with(row, "  -\n"@)
        }),
{
    reveal_strlit("  ");
    reveal_strlit("-");
    reveal_strlit("\n");
    reveal_strlit("  -\n");
    let live = if m.live {
        "live"@
    } else {
        "-"@
    };
    let point = match m.mount_point {
        Some(p) => p,
        None => "-"@,
    };
    let a = padded(m.name, width);
    let b = padded(m.state, 10);
    let c = padded(live, 7);
    lemma_padded(m.name, width);
    lemma_padded(m.state, 10);
    lemma_padded(live, 7);
    let row = list_row(m, width);
    assert(row == a + "  "@ + b + "  "@ + c + "  "@ + point + "\n"@);
    assert(row.subrange(0, m.name.len() as int) == a.subrange(0, m.name.len() as int));
    let bs = (a.len() + 2) as int;
    assert(row.subrange(bs, bs + m.state.len()) == b.subrange(0, m.state.len() as int));
    let cs = (a.len() + 2 + b.len() + 2) as int;
    assert(row.subrange(cs, cs + live.len()) == c.subrange(0, live.len() as int));
    let end = row.len() as int;
    assert(row.subrange(end - (point + "\n"@).len(), end) == point + "\n"@);
    assert(row.subrange(end - 4, end) == "  -\n"@ || m.mount_point is Some);
}

/// The row of a mount in a status: its name, its state in the next column, and what it still
/// has to upload last.
pub proof fn a_row_says_what_is_pending(e: MountEntryModel, width: nat)
    ensures
        ({
            let row = status_row(e, width);
            &&& begins_with(row, e.view.name)
            &&& e.view.name.len() <= width ==> occurs_at(e.view.state, row, (width + 2) as int)
            &&& finishes_with(row, pending_words(e) + "\n"@)
            &&& e.transfer is None ==> pending_words(e) == "-"@
            &&& e.transfer matches Some(t) ==> {
                &&& !t.outstanding_known ==> pending_words(e) == "unknown"@
                &&& t.outstanding_known && t.pending_files == 0 ==> pending_words(e)
                    == "up to date"@
                &&& t.outstanding_known && t.pending_files > 0 ==> begins_with(
                    pending_words(e),
                    digits(t.pending_files as nat) + " file(s), "@,
                ) && finishes_with(
                    pending_words(e),
                    digits(t.pending_known_bytes as nat) + " bytes"@,
                )
            }
        }),
{
    reveal_strlit("  ");
    let a = padded(e.view.name, width);
    let b = padded(e.view.state, 10);
    let p = pending_words(e);
    lemma_padded(e.view.name, width);
    lemma_padded(e.view.state, 10);
    let row = status_row(e, width);
    assert(row == a + "  "@ + b + "  "@ + p + "\n"@);
    assert(row.subrange(0, e.view.name.len() as int) == a.subrange(0, e.view.name.len() as int));
    let bs = (a.len() + 2) as int;
    assert(row.subrange(bs, bs + e.view.state.len()) == b.subrange(0, e.view.state.len() as int));
    let end = row.len() as int;
    assert(row.subrange(end - (p + "\n"@).len(), end) == p + "\n"@);
    if let Some(t) = e.transfer {
        if t.outstanding_known && t.pending_files > 0 {
            let x = digits(t.pending_files as nat) + " file(s), "@;
            let y = digits(t.pending_known_bytes as nat) + " bytes"@;
            assert(p == x + y);
            assert(p.subrange(0, x.len() as int) == x);
            assert(p.subrange(p.len() - y.len(), p.len() as int) == y);
        }
    }
}

proof fn lemma_list_rows(
    text: Seq<char>,
    mounts: Seq<MountView<Seq<char>>>,
    width: nat,
    i: int,
) -> (at: int)
    requires
        0 <= i < mounts.len(),
    ensures
        text.len() <= at,
        occurs_at(list_row(mounts[i], width), list_rows(text, mounts, width), at),
        begins_with(list_rows(text, mounts, width), text),
    decreases mounts.len(),
{
    let rest = mounts.drop_last();
    let before = list_rows(text, rest, width);
    let all = list_rows(text, mounts, width);
    let last = list_row(mounts.last(), width);
    lemma_list_rows_begin(text, rest, width);
    assert(all.subrange(0, text.len() as int) == before.subrange(0, text.len() as int));
    if i < rest.len() {
        let at = lemma_list_rows(text, rest, width, i);
        let row = list_row(mounts[i], width);
        assert(all.subrange(at, at + row.len()) == before.subrange(at, at + row.len()));
        at
    } else {
        assert(all.subrange(before.len() as int, (before.len() + last.len()) as int) == last);
        before.len() as int
    }
}

proof fn lemma_list_rows_begin(text: Seq<char>, mounts: Seq<MountView<Seq<char>>>, width: nat)
    ensures
        begins_with(list_rows(text, mounts, width), text),
    decreases mounts.len(),
{
    if mounts.len() > 0 {
        lemma_list_rows_begin(text, mounts.drop_last(), width);
        let before = list_rows(text, mounts.drop_last(), width);
        let all = list_rows(text, mounts, width);
        assert(all.subrange(0, text.len() as int) == before.subrange(0, text.len() as int));
    } else {
        assert(text.subrange(0, text.len() as int) == text);
    }
}

proof fn lemma_status_rows_begin(text: Seq<char>, mounts: Seq<MountEntryModel>, width: nat)
    ensures
        begins_with(status_rows(text, mounts, width), text),
    decreases mounts.len(),
{
    if mounts.len() > 0 {
        lemma_status_rows_begin(text, mounts.drop_last(), width);
        let before = status_rows(text, mounts.drop_last(), width);
        let all = status_rows(text, mounts, width);
        assert(all.subrange(0, text.len() as int) == before.subrange(0, text.len() as int));
    } else {
        assert(text.subrange(0, text.len() as int) == text);
    }
}

proof fn lemma_status_rows(
    text: Seq<char>,
    mounts: Seq<MountEntryModel>,
    width: nat,
    i: int,
) -> (at: int)
    requires
        0 <= i < mounts.len(),
    ensures
        text.len() <= at,
        occurs_at(status_row(mounts[i], width), status_rows(text, mounts, width), at),
    decreases mounts.len(),
{
    let rest = mounts.drop_last();
    let before = status_rows(text, rest, width);
    let all = status_rows(text, mounts, width);
    let last = status_row(mounts.last(), width);
    lemma_status_rows_begin(text, rest, width);
    if i < rest.len() {
        let at = lemma_status_rows(text, rest, width, i);
        let row = status_row(mounts[i], width);
        assert(all.subrange(at, at + row.len()) == before.subrange(at, at + row.len()));
        at
    } else {
        assert(all.subrange(before.len() as int, (before.len() + last.len()) as int) == last);
        before.len() as int
    }
}

/// Every mount has its row in a list and in a status, in a name column that is wide enough
/// for every name and for its header, and no wider.
pub proof fn every_mount_has_its_row(
    mounts: Seq<MountView<Seq<char>>>,
    s: StatusModel,
    i: int,
)
    ensures
        0 <= i < mounts.len() ==> occurs_in(
            list_row(mounts[i], list_width(mounts)),
            list_text(mounts),
        ),
        0 <= i < s.mounts.len() ==> occurs_in(
            status_row(s.mounts[i], status_width(s.mounts)),
            status_text(s),
        ),
        mounts.len() == 0 ==> list_text(mounts) == "No mounts configured.\n"@,
        s.mounts.len() == 0 ==> finishes_with(status_text(s), "No mounts configured.\n"@),
{
    if 0 <= i < mounts.len() {
        let w = list_width(mounts);
        let head = padded("NAME"@, w) + "  "@ + padded("STATE"@, 10) + "  "@ + padded("LIVE"@, 7)
            + "  MOUNT POINT\n"@;
        let at = lemma_list_rows(head, mounts, w, i);
    }
    if 0 <= i < s.mounts.len() {
        let w = status_width(s.mounts);
        let head = crate::client::service_text(s) + padded("NAME"@, w) + "  "@ + padded(
            "STATE"@,
            10,
        ) + "  PENDING\n"@;
        let at = lemma_status_rows(head, s.mounts, w, i);
    }
    if s.mounts.len() == 0 {
        let t = crate::client::service_text(s);
        let none = "No mounts configured.\n"@;
        assert((t + none).subrange(t.len() as int, (t + none).len() as int) == none);
    }
}

/// The name column is at least as wide as every name and as its header, and is as wide as one
/// of them.
pub proof fn a_column_fits_its_names(ns: Seq<usize>)
    ensures
        widest(ns) >= 4,
        forall|i: int| 0 <= i < ns.len() ==> #[trigger] ns[i] <= widest(ns),
        widest(ns) == 4 || ns.contains(widest(ns)),
    decreases ns.len(),
{
    if ns.len() > 0 {
        let rest = ns.drop_last();
        a_column_fits_its_names(rest);
        assert forall|i: int| 0 <= i < ns.len() implies #[trigger] ns[i] <= widest(ns) by {
            if i < rest.len() {
                assert(rest[i] == ns[i]);
            }
        }
        assert(ns[ns.len() - 1] == ns.last());
        if rest.contains(widest(rest)) {
            let k = choose|k: int| 0 <= k < rest.len() && rest[k] == widest(rest);
            assert(ns[k] == widest(rest));
        }
    }
}

/// What a person reads of the service: its version, the interface it offers and the one this
/// client speaks, the version of rclone and the tier.
pub proof fn a_status_describes_the_service(s: StatusModel)
    ensures
        ({
            let text = crate::client::service_text(s);
            &&& begins_with(text, "service "@ + s.service_version)
            &&& occurs_in("(interface "@ + digits(s.interface_version as nat) + ", client "@, text)
            &&& occurs_in("rclone  "@ + s.rclone_version, text)
            &&& occurs_in("capability tier: "@ + s.capability_tier, text)
        }),
{
    let text = crate::client::service_text(s);
    let i = digits(s.interface_version as nat);
    let c = digits(crate::ipc::INTERFACE_VERSION as nat);
    let start = "service "@ + s.service_version;
    assert(text.subrange(0, start.len() as int) == start);
    reveal_strlit("  (interface ");
    reveal_strlit("(interface ");
    reveal_strlit("  ");
    assert("  (interface "@ == "  "@ + "(interface "@);
    let a = "(interface "@ + i + ", client "@;
    let behind = c + ")\nrclone  "@ + s.rclone_version + "\ncapability tier: "@ + s.capability_tier
        + "\n\n"@;
    lemma_stands_between(start + "  "@, a, behind);
    assert(start + "  "@ + a + behind == text);
    reveal_strlit(")\nrclone  ");
    reveal_strlit(")\n");
    reveal_strlit("rclone  ");
    assert(")\nrclone  "@ == ")\n"@ + "rclone  "@);
    let b = "rclone  "@ + s.rclone_version;
    let before = start + "  "@ + a + c + ")\n"@;
    let after = "\ncapability tier: "@ + s.capability_tier + "\n\n"@;
    lemma_stands_between(before, b, after);
    assert(before + b + after == text);
    reveal_strlit("\ncapability tier: ");
    reveal_strlit("\n");
    reveal_strlit("capability tier: ");
    assert("\ncapability tier: "@ == "\n"@ + "capability tier: "@);
    let d = "capability tier: "@ + s.capability_tier;
    lemma_stands_between(before + b + "\n"@, d, "\n\n"@);
    assert(before + b + "\n"@ + d + "\n\n"@ == text);
}

/// What a command prints is about what it was asked: the document of the very status, or the
/// name of the very mount; and where the service did as asked nothing is reported as failed.
pub proof fn a_command_prints_its_own_answer(
    name: Seq<char>,
    force: bool,
    s: StatusModel,
    mounts: Seq<MountView<Seq<char>>>,
)
    ensures
        ({
            let o = output_of(Command::Mount { name }, Reply::Done);
            o.error is None && occurs_in(name, o.text) && begins_with(o.text, "mounted "@)
        }),
        ({
            let o = output_of(Command::Unmount { name, force }, Reply::Done);
            o.error is None && occurs_in(name, o.text) && begins_with(o.text, "unmounted "@)
        }),
        ({
            let o = output_of(Command::Status { json: true }, Reply::Status(s));
            o.error is None && begins_with(o.text, json_text(status_doc(s)))
        }),
        output_of(Command::Status { json: false }, Reply::Status(s)).error is None,
        output_of(Command::Status { json: false }, Reply::Status(s)).text == status_text(s),
        output_of(Command::<Seq<char>>::List, Reply::Mounts(mounts)).error is None,
        output_of(Command::<Seq<char>>::List, Reply::Mounts(mounts)).text == list_text(mounts),
{
    lemma_stands_between("mounted "@, name, "\n"@);
    lemma_stands_between("unmounted "@, name, "\n"@);
    let m = "mounted "@ + name + "\n"@;
    assert(m.subrange(0, "mounted "@.len() as int) == "mounted "@);
    let u = "unmounted "@ + name + "\n"@;
    assert(u.subrange(0, "unmounted "@.len() as int) == "unmounted "@);
    let j = json_text(status_doc(s));
    assert((j + "\n"@).subrange(0, j.len() as int) == j);
}

/// A status that could not be had is told of: to a script by a document of it, to anybody else
/// by its error alone. No other command prints anything where it failed.
pub proof fn a_script_is_told_of_a_failure(e: LinkError<Seq<char>>, name: Seq<char>, force: bool)
    ensures
        begins_with(
            output_of(Command::<Seq<char>>::Status { json: true }, Reply::Failed(e)).text,
            json_text(disconnected_doc(e)),
        ),
        output_of(Command::<Seq<char>>::Status { json: false }, Reply::Failed(e)).text.len() == 0,
        output_of(Command::<Seq<char>>::List, Reply::Failed(e)).text.len() == 0,
        output_of(Command::Mount { name }, Reply::Failed(e)).text.len() == 0,
        output_of(Command::Unmount { name, force }, Reply::Failed(e)).text.len() == 0,
        output_of(Command::<Seq<char>>::Status { json: true }, Reply::Failed(e)).error == Some(e),
        output_of(Command::<Seq<char>>::Status { json: false }, Reply::Failed(e)).error == Some(e),
        output_of(Command::<Seq<char>>::List, Reply::Failed(e)).error == Some(e),
        output_of(Command::Mount { name }, Reply::Failed(e)).error == Some(e),
        output_of(Command::Unmount { name, force }, Reply::Failed(e)).error == Some(e),
{
    let j = json_text(disconnected_doc(e));
    assert((j + "\n"@).subrange(0, j.len() as int) == j);
}

} // verus!
