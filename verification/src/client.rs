//! Driving the service from the command line: one request, one answer, and a distinct exit
//! code for each way it can fail.
//!
//! Not reaching the service must never read as nothing being mounted.

use crate::ipc::{MountView, TransferFileView, TransferView, TransferViewModel, INTERFACE_VERSION};
use crate::json::{
    contents, json_bool, json_content, json_document, json_list, json_null, json_object,
    json_string, json_text, json_u64, lemma_plain_entry, plain, with_field, write_json, Json,
    READ_DEPTH,
};
use crate::link::{LinkError, START_HINT};
use crate::text::{chars_of, decimal, digits, opt_text, push_char, views};
use crate::transfer::TransferFile;
use vstd::prelude::*;
use vstd::string::*;
use vstd::utf8::encode_utf8;

verus! {

/// Why a command could not be carried out.
pub type CliError<S = String> = LinkError<S>;

/// What the command line asked for.
#[derive(Debug, Clone, PartialEq, Eq)]
pub enum Command<S = String> {
    /// List the mounts.
    List,
    /// Bring a mount up.
    Mount { name: S },
    /// Take a mount down; forced, even if something is using it.
    Unmount { name: S, force: bool },
    /// Say how the service and its mounts are doing; as JSON, for scripts.
    Status { json: bool },
}

impl View for Command {
    type V = Command<Seq<char>>;

    open spec fn view(&self) -> Command<Seq<char>> {
        match *self {
            Command::List => Command::List,
            Command::Mount { name } => Command::Mount { name: name@ },
            Command::Unmount { name, force } => Command::Unmount { name: name@, force },
            Command::Status { json } => Command::Status { json },
        }
    }
}

/// One mount plus what it still has to upload, as a status reports it.
#[derive(Debug, Clone, PartialEq, Eq)]
pub struct MountEntry<S = String, F = Vec<TransferFile>> {
    pub view: MountView<S>,
    pub transfer: Option<TransferView<S, F>>,
}

/// A status entry by its view.
pub type MountEntryModel = MountEntry<Seq<char>, Seq<TransferFile<Seq<char>>>>;

impl View for MountEntry {
    type V = MountEntryModel;

    open spec fn view(&self) -> MountEntryModel {
        MountEntry {
            view: self.view@,
            transfer: match self.transfer {
                Some(t) => Some(t@),
                None => None,
            },
        }
    }
}

/// Everything a status shows when the service answers.
#[derive(Debug, Clone, PartialEq, Eq)]
pub struct StatusSnapshot<S = String, L = Vec<MountEntry>> {
    pub interface_version: u32,
    pub service_version: S,
    pub rclone_version: S,
    pub capability_tier: S,
    pub mounts: L,
}

/// A status by its view.
pub type StatusModel = StatusSnapshot<Seq<char>, Seq<MountEntryModel>>;

impl View for StatusSnapshot {
    type V = StatusModel;

    open spec fn view(&self) -> StatusModel {
        StatusSnapshot {
            interface_version: self.interface_version,
            service_version: self.service_version@,
            rclone_version: self.rclone_version@,
            capability_tier: self.capability_tier@,
            mounts: views(self.mounts@),
        }
    }
}

/// An optional text as JSON.
pub open spec fn text_doc(t: Option<Seq<char>>) -> Json {
    match t {
        Some(t) => Json::Text(t),
        None => Json::Null,
    }
}

/// An optional number as JSON.
pub open spec fn number_doc(n: Option<u64>) -> Json {
    match n {
        Some(n) => Json::Whole(n),
        None => Json::Null,
    }
}

/// An optional flag as JSON.
pub open spec fn flag_doc(b: Option<bool>) -> Json {
    match b {
        Some(b) => Json::Bool(b),
        None => Json::Null,
    }
}

/// An outstanding file as JSON.
pub open spec fn file_doc(f: TransferFile<Seq<char>>) -> Json {
    Json::Object(
        Map::empty().insert("name"@, Json::Text(f.name)).insert("size"@, number_doc(f.size)).insert(
            "in_flight"@,
            flag_doc(f.in_flight),
        ).insert("tries"@, number_doc(f.tries)).insert("bytes_sent"@, number_doc(f.bytes_sent)),
    )
}

/// A reading as JSON.
pub open spec fn transfer_doc(t: TransferViewModel) -> Json {
    Json::Object(
        Map::empty().insert("fidelity"@, text_doc(t.fidelity)).insert(
            "outstanding_known"@,
            Json::Bool(t.outstanding_known),
        ).insert("has_progress"@, Json::Bool(t.has_progress)).insert(
            "pending_files"@,
            Json::Whole(t.pending_files),
        ).insert("pending_known_bytes"@, Json::Whole(t.pending_known_bytes)).insert(
            "pending_unknown_size_files"@,
            Json::Whole(t.pending_unknown_size_files),
        ).insert("uploading"@, number_doc(t.uploading)).insert(
            "errored_files"@,
            number_doc(t.errored_files),
        ).insert("out_of_space"@, flag_doc(t.out_of_space)).insert(
            "rate_bytes_per_sec"@,
            number_doc(t.rate_bytes_per_sec),
        ).insert("degraded_reason"@, text_doc(t.degraded_reason)).insert(
            "files"@,
            Json::List(t.files.map_values(|f: TransferFile<Seq<char>>| file_doc(f))),
        ),
    )
}

/// A status entry as JSON.
pub open spec fn entry_doc(e: MountEntryModel) -> Json {
    Json::Object(
        Map::empty().insert("name"@, Json::Text(e.view.name)).insert(
            "state"@,
            Json::Text(e.view.state),
        ).insert("live"@, Json::Bool(e.view.live)).insert(
            "managed"@,
            Json::Bool(e.view.managed),
        ).insert("reason"@, text_doc(e.view.reason)).insert(
            "mount_point"@,
            text_doc(e.view.mount_point),
        ).insert("remote"@, text_doc(e.view.remote)).insert(
            "transfer"@,
            match e.transfer {
                Some(t) => transfer_doc(t),
                None => Json::Null,
            },
        ),
    )
}

/// A status as JSON.
pub open spec fn status_doc(s: StatusModel) -> Json {
    let service = Json::Object(
        Map::empty().insert("service_version"@, Json::Text(s.service_version)).insert(
            "interface_version"@,
            Json::Whole(s.interface_version as u64),
        ).insert("client_interface_version"@, Json::Whole(INTERFACE_VERSION as u64)).insert(
            "rclone_version"@,
            Json::Text(s.rclone_version),
        ).insert("capability_tier"@, Json::Text(s.capability_tier)),
    );
    Json::Object(
        Map::empty().insert("connected"@, Json::Bool(true)).insert("service"@, service).insert(
            "mounts"@,
            Json::List(s.mounts.map_values(|e: MountEntryModel| entry_doc(e))),
        ),
    )
}

/// Why there is no status, in a few words for a script.
pub open spec fn disconnection(e: LinkError<Seq<char>>) -> Seq<char> {
    match e {
        LinkError::NotRunning => "service not running"@,
        LinkError::NoSessionBus(_) => "no session bus"@,
        LinkError::Incompatible => "interface incompatible"@,
        LinkError::TooOld { .. } => "service too old"@,
        LinkError::Transport(_) => "service unreachable"@,
        LinkError::Refused(_) => "request refused"@,
    }
}

/// A status that could not be had, as JSON. Its mounts are null, which is not an empty list:
/// that would read as a service that is up and has no mounts.
pub open spec fn disconnected_doc(e: LinkError<Seq<char>>) -> Json {
    let doc = Map::empty().insert("connected"@, Json::Bool(false)).insert(
        "reason"@,
        Json::Text(disconnection(e)),
    ).insert("detail"@, Json::Text(e.sentence())).insert("mounts"@, Json::Null);
    if e is NotRunning {
        Json::Object(doc.insert("start_hint"@, Json::Text(START_HINT@)))
    } else {
        Json::Object(doc)
    }
}

broadcast proof fn lemma_file_is_plain(f: TransferFile<Seq<char>>, depth: nat)
    requires
        depth >= 1,
    ensures
        #[trigger] plain(file_doc(f), depth),
{
    broadcast use lemma_plain_entry;

    assert(plain(Json::Object(Map::<Seq<char>, Json>::empty()), depth));
}

broadcast proof fn lemma_transfer_is_plain(t: TransferViewModel, depth: nat)
    requires
        depth >= 3,
    ensures
        #[trigger] plain(transfer_doc(t), depth),
{
    broadcast use {lemma_plain_entry, lemma_file_is_plain};

    assert(plain(Json::Object(Map::<Seq<char>, Json>::empty()), depth));
    let files = t.files.map_values(|f: TransferFile<Seq<char>>| file_doc(f));
    assert forall|i: int| 0 <= i < files.len() implies plain(
        #[trigger] files[i],
        (depth - 2) as nat,
    ) by {
        assert(files[i] == file_doc(t.files[i]));
    }
    assert(plain(Json::List(files), (depth - 1) as nat));
}

broadcast proof fn lemma_entry_is_plain(e: MountEntryModel, depth: nat)
    requires
        depth >= 4,
    ensures
        #[trigger] plain(entry_doc(e), depth),
{
    broadcast use {lemma_plain_entry, lemma_transfer_is_plain};

    assert(plain(Json::Object(Map::<Seq<char>, Json>::empty()), depth));
}

proof fn lemma_status_is_plain(s: StatusModel, depth: nat)
    requires
        depth >= 6,
    ensures
        plain(status_doc(s), depth),
{
    broadcast use {lemma_plain_entry, lemma_entry_is_plain};

    assert(plain(Json::Object(Map::<Seq<char>, Json>::empty()), depth));
    assert(plain(Json::Object(Map::<Seq<char>, Json>::empty()), (depth - 1) as nat));
    let mounts = s.mounts.map_values(|e: MountEntryModel| entry_doc(e));
    assert forall|i: int| 0 <= i < mounts.len() implies plain(
        #[trigger] mounts[i],
        (depth - 2) as nat,
    ) by {
        assert(mounts[i] == entry_doc(s.mounts[i]));
    }
    assert(plain(Json::List(mounts), (depth - 1) as nat));
}

proof fn lemma_disconnected_is_plain(e: LinkError<Seq<char>>, depth: nat)
    requires
        depth >= 1,
    ensures
        plain(disconnected_doc(e), depth),
{
    broadcast use lemma_plain_entry;

    assert(plain(Json::Object(Map::<Seq<char>, Json>::empty()), depth));
}

fn text_value(t: &Option<String>) -> (r: serde_json::Value)
    ensures
        json_content(r) == text_doc(opt_text(*t)),
{
    match t {
        Some(t) => json_string(t.as_str()),
        None => json_null(),
    }
}

fn number_value(n: Option<u64>) -> (r: serde_json::Value)
    ensures
        json_content(r) == number_doc(n),
{
    match n {
        Some(n) => json_u64(n),
        None => json_null(),
    }
}

fn flag_value(b: Option<bool>) -> (r: serde_json::Value)
    ensures
        json_content(r) == flag_doc(b),
{
    match b {
        Some(b) => json_bool(b),
        None => json_null(),
    }
}

fn transfer_file_json(f: &TransferFileView) -> (r: serde_json::Value)
    ensures
        json_content(r) == file_doc(f@),
{
    let o = with_field(json_object(), "name", json_string(f.name.as_str()));
    let o = with_field(o, "size", number_value(f.size));
    let o = with_field(o, "in_flight", flag_value(f.in_flight));
    let o = with_field(o, "tries", number_value(f.tries));
    with_field(o, "bytes_sent", number_value(f.bytes_sent))
}

fn transfer_json(t: &TransferView) -> (r: serde_json::Value)
    ensures
        json_content(r) == transfer_doc(t@),
{
    let ghost want = t@.files.map_values(|f: TransferFile<Seq<char>>| file_doc(f));
    let mut files: Vec<serde_json::Value> = Vec::new();
    let mut i: usize = 0;
    while i < t.files.len()
        invariant
            i <= t.files@.len(),
            want == t@.files.map_values(|f: TransferFile<Seq<char>>| file_doc(f)),
            contents(files@) == want.take(i as int),
        decreases t.files@.len() - i,
    {
        let v = transfer_file_json(&t.files[i]);
        let ghost before = files@;
        assert(json_content(v) == want[i as int]);
        files.push(v);
        assert(contents(files@) == contents(before).push(json_content(v)));
        assert(want.take(i + 1) == want.take(i as int).push(want[i as int]));
        i = i + 1;
    }
    assert(want.take(t.files@.len() as int) == want);
    let o = with_field(json_object(), "fidelity", text_value(&t.fidelity));
    let o = with_field(o, "outstanding_known", json_bool(t.outstanding_known));
    let o = with_field(o, "has_progress", json_bool(t.has_progress));
    let o = with_field(o, "pending_files", json_u64(t.pending_files));
    let o = with_field(o, "pending_known_bytes", json_u64(t.pending_known_bytes));
    let o = with_field(o, "pending_unknown_size_files", json_u64(t.pending_unknown_size_files));
    let o = with_field(o, "uploading", number_value(t.uploading));
    let o = with_field(o, "errored_files", number_value(t.errored_files));
    let o = with_field(o, "out_of_space", flag_value(t.out_of_space));
    let o = with_field(o, "rate_bytes_per_sec", number_value(t.rate_bytes_per_sec));
    let o = with_field(o, "degraded_reason", text_value(&t.degraded_reason));
    with_field(o, "files", json_list(files))
}

fn mount_entry_json(e: &MountEntry) -> (r: serde_json::Value)
    ensures
        json_content(r) == entry_doc(e@),
{
    let o = with_field(json_object(), "name", json_string(e.view.name.as_str()));
    let o = with_field(o, "state", json_string(e.view.state.as_str()));
    let o = with_field(o, "live", json_bool(e.view.live));
    let o = with_field(o, "managed", json_bool(e.view.managed));
    let o = with_field(o, "reason", text_value(&e.view.reason));
    let o = with_field(o, "mount_point", text_value(&e.view.mount_point));
    let o = with_field(o, "remote", text_value(&e.view.remote));
    let t = match &e.transfer {
        Some(t) => transfer_json(t),
        None => json_null(),
    };
    with_field(o, "transfer", t)
}

/// A status as a JSON document. What a script reads in it is the status.
pub fn status_json(snap: &StatusSnapshot) -> (r: String)
    ensures
        r@ == json_text(status_doc(snap@)),
        json_document(r@) == Some(status_doc(snap@)),
{
    proof {
        lemma_status_is_plain(snap@, READ_DEPTH as nat);
    }
    let ghost want = snap@.mounts.map_values(|e: MountEntryModel| entry_doc(e));
    let mut mounts: Vec<serde_json::Value> = Vec::new();
    let mut i: usize = 0;
    while i < snap.mounts.len()
        invariant
            i <= snap.mounts@.len(),
            want == snap@.mounts.map_values(|e: MountEntryModel| entry_doc(e)),
            contents(mounts@) == want.take(i as int),
        decreases snap.mounts@.len() - i,
    {
        let v = mount_entry_json(&snap.mounts[i]);
        let ghost before = mounts@;
        assert(json_content(v) == want[i as int]);
        mounts.push(v);
        assert(contents(mounts@) == contents(before).push(json_content(v)));
        assert(want.take(i + 1) == want.take(i as int).push(want[i as int]));
        i = i + 1;
    }
    assert(want.take(snap.mounts@.len() as int) == want);
    let s = with_field(
        json_object(),
        "service_version",
        json_string(snap.service_version.as_str()),
    );
    let s = with_field(s, "interface_version", json_u64(snap.interface_version as u64));
    let s = with_field(s, "client_interface_version", json_u64(INTERFACE_VERSION as u64));
    let s = with_field(s, "rclone_version", json_string(snap.rclone_version.as_str()));
    let s = with_field(s, "capability_tier", json_string(snap.capability_tier.as_str()));
    let o = with_field(json_object(), "connected", json_bool(true));
    let o = with_field(o, "service", s);
    let o = with_field(o, "mounts", json_list(mounts));
    write_json(&o)
}

/// A status that could not be had, as a JSON document. What a script reads in it is that.
pub fn disconnected_json(e: &CliError) -> (r: String)
    ensures
        r@ == json_text(disconnected_doc(e@)),
        json_document(r@) == Some(disconnected_doc(e@)),
{
    proof {
        lemma_disconnected_is_plain(e@, READ_DEPTH as nat);
    }
    let reason = match e {
        LinkError::NotRunning => "service not running",
        LinkError::NoSessionBus(_) => "no session bus",
        LinkError::Incompatible => "interface incompatible",
        LinkError::TooOld { .. } => "service too old",
        LinkError::Transport(_) => "service unreachable",
        LinkError::Refused(_) => "request refused",
    };
    let o = with_field(json_object(), "connected", json_bool(false));
    let o = with_field(o, "reason", json_string(reason));
    let o = with_field(o, "detail", json_string(e.message().as_str()));
    let o = with_field(o, "mounts", json_null());
    let o = match e {
        LinkError::NotRunning => with_field(o, "start_hint", json_string(START_HINT)),
        _ => o,
    };
    write_json(&o)
}

/// A status that could not be had never claims that there are no mounts: it says that it is
/// not connected, and what it says of the mounts is null.
pub proof fn a_disconnected_status_claims_nothing_of_mounts(e: LinkError<Seq<char>>)
    ensures
        disconnected_doc(e) is Object,
        disconnected_doc(e)->Object_0.contains_key("mounts"@),
        disconnected_doc(e)->Object_0["mounts"@] is Null,
        disconnected_doc(e)->Object_0["connected"@] == Json::Bool(false),
        disconnected_doc(e)->Object_0.contains_key("start_hint"@) <==> e is NotRunning,
{
    reveal_strlit("mounts");
    reveal_strlit("connected");
    reveal_strlit("reason");
    reveal_strlit("detail");
    reveal_strlit("start_hint");
    assert("mounts"@.len() == 6 && "connected"@.len() == 9 && "reason"@.len() == 6
        && "detail"@.len() == 6 && "start_hint"@.len() == 10);
    assert("mounts"@[0] != "reason"@[0] && "mounts"@[0] != "detail"@[0]);
}

/// How many bytes a text takes.
pub open spec fn byte_len(s: Seq<char>) -> usize {
    encode_utf8(s).len() as usize
}

/// The largest of some numbers, and at least four.
pub open spec fn widest(ns: Seq<usize>) -> usize
    decreases ns.len(),
{
    if ns.len() == 0 {
        4
    } else {
        let before = widest(ns.drop_last());
        if ns.last() > before {
            ns.last()
        } else {
            before
        }
    }
}

/// A text with spaces after it, up to a number of characters.
pub open spec fn padded(s: Seq<char>, width: nat) -> Seq<char> {
    if s.len() < width {
        s + Seq::new((width - s.len()) as nat, |i: int| ' ')
    } else {
        s
    }
}

/// The name column, wide enough for the longest name and never narrower than its header.
pub fn name_width(names: &Vec<usize>) -> (r: usize)
    ensures
        r == widest(names@),
{
    let mut w: usize = 4;
    let mut i: usize = 0;
    while i < names.len()
        invariant
            i <= names@.len(),
            w == widest(names@.take(i as int)),
        decreases names@.len() - i,
    {
        assert(names@.take(i + 1).drop_last() == names@.take(i as int));
        if names[i] > w {
            w = names[i];
        }
        i = i + 1;
    }
    assert(names@.take(names@.len() as int) == names@);
    w
}

fn put_padded(out: &mut String, s: &str, width: usize)
    ensures
        final(out)@ == old(out)@ + padded(s@, width as nat),
{
    let ghost start = out@;
    let n: usize = chars_of(s).len();
    out.append(s);
    let mut i: usize = n;
    while i < width
        invariant
            n == s@.len(),
            n <= i,
            i <= width || i == n,
            out@ == start + (s@ + Seq::new((i - n) as nat, |k: int| ' ')),
        decreases width - i,
    {
        let ghost before = out@;
        push_char(out, ' ');
        assert(out@ == start + (s@ + Seq::new((i + 1 - n) as nat, |k: int| ' ')));
        i = i + 1;
    }
    assert(start + s@ == start + (s@ + Seq::new(0, |k: int| ' ')));
}

/// The row of one mount in a list.
pub open spec fn list_row(m: MountView<Seq<char>>, width: nat) -> Seq<char> {
    padded(m.name, width) + "  "@ + padded(m.state, 10) + "  "@ + padded(
        if m.live {
            "live"@
        } else {
            "-"@
        },
        7,
    ) + "  "@ + (match m.mount_point {
        Some(p) => p,
        None => "-"@,
    }) + "\n"@
}

/// The rows of mounts after a text.
pub open spec fn list_rows(
    text: Seq<char>,
    mounts: Seq<MountView<Seq<char>>>,
    width: nat,
) -> Seq<char>
    decreases mounts.len(),
{
    if mounts.len() == 0 {
        text
    } else {
        list_rows(text, mounts.drop_last(), width) + list_row(mounts.last(), width)
    }
}

/// The width of the name column for some mounts.
pub open spec fn list_width(mounts: Seq<MountView<Seq<char>>>) -> nat {
    widest(mounts.map_values(|m: MountView<Seq<char>>| byte_len(m.name))) as nat
}

/// A list of mounts.
pub open spec fn list_text(mounts: Seq<MountView<Seq<char>>>) -> Seq<char> {
    if mounts.len() == 0 {
        "No mounts configured.\n"@
    } else {
        let w = list_width(mounts);
        list_rows(
            padded("NAME"@, w) + "  "@ + padded("STATE"@, 10) + "  "@ + padded("LIVE"@, 7)
                + "  MOUNT POINT\n"@,
            mounts,
            w,
        )
    }
}

/// A list of mounts, one to a line.
pub fn render_list(mounts: &Vec<MountView>) -> (r: String)
    ensures
        r@ == list_text(views(mounts@)),
{
    if mounts.len() == 0 {
        return "No mounts configured.\n".to_owned();
    }
    let ghost all = views(mounts@);
    let ghost lens = all.map_values(|m: MountView<Seq<char>>| byte_len(m.name));
    let mut names: Vec<usize> = Vec::new();
    let mut i: usize = 0;
    while i < mounts.len()
        invariant
            i <= mounts@.len(),
            all == views(mounts@),
            lens == all.map_values(|m: MountView<Seq<char>>| byte_len(m.name)),
            names@ == lens.take(i as int),
        decreases mounts@.len() - i,
    {
        let n: usize = mounts[i].name.as_str().len();
        assert(n == lens[i as int]);
        names.push(n);
        assert(lens.take(i + 1) == lens.take(i as int).push(lens[i as int]));
        i = i + 1;
    }
    assert(lens.take(mounts@.len() as int) == lens);
    let w: usize = name_width(&names);
    let mut out = String::new();
    put_padded(&mut out, "NAME", w);
    assert(out@ == padded("NAME"@, w as nat));
    out.append("  ");
    put_padded(&mut out, "STATE", 10);
    out.append("  ");
    put_padded(&mut out, "LIVE", 7);
    out.append("  MOUNT POINT\n");
    let ghost head = out@;
    let mut k: usize = 0;
    while k < mounts.len()
        invariant
            k <= mounts@.len(),
            all == views(mounts@),
            out@ == list_rows(head, all.take(k as int), w as nat),
        decreases mounts@.len() - k,
    {
        assert(all.take(k + 1).drop_last() == all.take(k as int));
        assert(all.take(k + 1).last() == mounts@[k as int]@);
        let row = list_line(&mounts[k], w);
        out.append(row.as_str());
        k = k + 1;
    }
    assert(all.take(mounts@.len() as int) == all);
    out
}

fn list_line(m: &MountView, w: usize) -> (r: String)
    ensures
        r@ == list_row(m@, w as nat),
{
    let mut out = String::new();
    put_padded(&mut out, m.name.as_str(), w);
    assert(out@ == padded(m@.name, w as nat));
    out.append("  ");
    put_padded(&mut out, m.state.as_str(), 10);
    out.append("  ");
    put_padded(
        &mut out,
        if m.live {
            "live"
        } else {
            "-"
        },
        7,
    );
    out.append("  ");
    match &m.mount_point {
        Some(p) => {
            out.append(p.as_str());
        },
        None => {
            out.append("-");
        },
    }
    out.append("\n");
    out
}

/// What a mount still has to upload, in one line. Where the total cannot be vouched for,
/// saying that there are no files would claim that the mount is clear.
pub open spec fn pending_words(e: MountEntryModel) -> Seq<char> {
    match e.transfer {
        None => "-"@,
        Some(t) => if !t.outstanding_known {
            "unknown"@
        } else if t.pending_files == 0 {
            "up to date"@
        } else {
            digits(t.pending_files as nat) + " file(s), "@ + digits(t.pending_known_bytes as nat)
                + " bytes"@
        },
    }
}

/// One line of what a mount still has to upload, or a dash when there is nothing to say.
pub fn pending_summary(e: &MountEntry) -> (r: String)
    ensures
        r@ == pending_words(e@),
{
    match &e.transfer {
        None => "-".to_owned(),
        Some(t) => {
            if !t.outstanding_known {
                return "unknown".to_owned();
            }
            if t.pending_files == 0 {
                return "up to date".to_owned();
            }
            let mut s = decimal(t.pending_files);
            s.append(" file(s), ");
            s.append(decimal(t.pending_known_bytes).as_str());
            s.append(" bytes");
            s
        },
    }
}

/// The row of one mount in a status.
pub open spec fn status_row(e: MountEntryModel, width: nat) -> Seq<char> {
    padded(e.view.name, width) + "  "@ + padded(e.view.state, 10) + "  "@ + pending_words(e)
        + "\n"@
}

/// The rows of mounts after a text.
pub open spec fn status_rows(text: Seq<char>, mounts: Seq<MountEntryModel>, width: nat) -> Seq<
    char,
>
    decreases mounts.len(),
{
    if mounts.len() == 0 {
        text
    } else {
        status_rows(text, mounts.drop_last(), width) + status_row(mounts.last(), width)
    }
}

/// The width of the name column for some entries.
pub open spec fn status_width(mounts: Seq<MountEntryModel>) -> nat {
    widest(mounts.map_values(|e: MountEntryModel| byte_len(e.view.name))) as nat
}

/// What a status says of the service.
pub open spec fn service_text(s: StatusModel) -> Seq<char> {
    "service "@ + s.service_version + "  (interface "@ + digits(s.interface_version as nat)
        + ", client "@ + digits(INTERFACE_VERSION as nat) + ")\nrclone  "@ + s.rclone_version
        + "\ncapability tier: "@ + s.capability_tier + "\n\n"@
}

/// A status for a person to read.
pub open spec fn status_text(s: StatusModel) -> Seq<char> {
    if s.mounts.len() == 0 {
        service_text(s) + "No mounts configured.\n"@
    } else {
        let w = status_width(s.mounts);
        status_rows(
            service_text(s) + padded("NAME"@, w) + "  "@ + padded("STATE"@, 10)
                + "  PENDING\n"@,
            s.mounts,
            w,
        )
    }
}

fn status_line(e: &MountEntry, w: usize) -> (r: String)
    ensures
        r@ == status_row(e@, w as nat),
{
    let mut out = String::new();
    put_padded(&mut out, e.view.name.as_str(), w);
    assert(out@ == padded(e@.view.name, w as nat));
    out.append("  ");
    put_padded(&mut out, e.view.state.as_str(), 10);
    out.append("  ");
    out.append(pending_summary(e).as_str());
    out.append("\n");
    out
}

/// A status for a person to read.
pub fn render_status_human(snap: &StatusSnapshot) -> (r: String)
    ensures
        r@ == status_text(snap@),
{
    let mut out = "service ".to_owned();
    out.append(snap.service_version.as_str());
    out.append("  (interface ");
    out.append(decimal(snap.interface_version as u64).as_str());
    out.append(", client ");
    out.append(decimal(INTERFACE_VERSION as u64).as_str());
    out.append(")\nrclone  ");
    out.append(snap.rclone_version.as_str());
    out.append("\ncapability tier: ");
    out.append(snap.capability_tier.as_str());
    out.append("\n\n");
    if snap.mounts.len() == 0 {
        out.append("No mounts configured.\n");
        return out;
    }
    let ghost all = snap@.mounts;
    let ghost lens = all.map_values(|e: MountEntryModel| byte_len(e.view.name));
    let mut names: Vec<usize> = Vec::new();
    let mut i: usize = 0;
    while i < snap.mounts.len()
        invariant
            i <= snap.mounts@.len(),
            all == views(snap.mounts@),
            lens == all.map_values(|e: MountEntryModel| byte_len(e.view.name)),
            names@ == lens.take(i as int),
        decreases snap.mounts@.len() - i,
    {
        let n: usize = snap.mounts[i].view.name.as_str().len();
        assert(n == lens[i as int]);
        names.push(n);
        assert(lens.take(i + 1) == lens.take(i as int).push(lens[i as int]));
        i = i + 1;
    }
    assert(lens.take(snap.mounts@.len() as int) == lens);
    let w: usize = name_width(&names);
    put_padded(&mut out, "NAME", w);
    out.append("  ");
    put_padded(&mut out, "STATE", 10);
    out.append("  PENDING\n");
    let ghost head = out@;
    let mut k: usize = 0;
    while k < snap.mounts.len()
        invariant
            k <= snap.mounts@.len(),
            all == views(snap.mounts@),
            out@ == status_rows(head, all.take(k as int), w as nat),
        decreases snap.mounts@.len() - k,
    {
        assert(all.take(k + 1).drop_last() == all.take(k as int));
        assert(all.take(k + 1).last() == snap.mounts@[k as int]@);
        let row = status_line(&snap.mounts[k], w);
        out.append(row.as_str());
        k = k + 1;
    }
    assert(all.take(snap.mounts@.len() as int) == all);
    out
}

/// What the service answered to a command.
pub enum Reply<S = String, M = Vec<MountView>, L = Vec<MountEntry>> {
    /// It could not be reached, or refused.
    Failed(LinkError<S>),
    Mounts(M),
    Status(StatusSnapshot<S, L>),
    Done,
}

/// A reply by its view.
pub type ReplyModel = Reply<Seq<char>, Seq<MountView<Seq<char>>>, Seq<MountEntryModel>>;

impl View for Reply {
    type V = ReplyModel;

    open spec fn view(&self) -> ReplyModel {
        match *self {
            Reply::Failed(e) => Reply::Failed(e@),
            Reply::Mounts(v) => Reply::Mounts(views(v@)),
            Reply::Status(s) => Reply::Status(s@),
            Reply::Done => Reply::Done,
        }
    }
}

/// What a command comes to: what to print, and how it failed if it did.
#[derive(Debug)]
pub struct Output<S = String> {
    pub text: S,
    pub error: Option<LinkError<S>>,
}

impl View for Output {
    type V = Output<Seq<char>>;

    open spec fn view(&self) -> Output<Seq<char>> {
        Output {
            text: self.text@,
            error: match self.error {
                Some(e) => Some(e@),
                None => None,
            },
        }
    }
}

/// What a status prints where there is none. For scripts a document still, which says that
/// the service could not be reached; otherwise nothing, so that a pipeline sees no rows
/// rather than a misleading blank table.
pub open spec fn no_status(e: LinkError<Seq<char>>, json: bool) -> Seq<char> {
    if json {
        json_text(disconnected_doc(e)) + "\n"@
    } else {
        Seq::empty()
    }
}

/// What a command comes to. A reply to something else prints nothing.
pub open spec fn output_of(cmd: Command<Seq<char>>, reply: ReplyModel) -> Output<Seq<char>> {
    match (cmd, reply) {
        (Command::Status { json }, Reply::Failed(e)) => Output {
            text: no_status(e, json),
            error: Some(e),
        },
        (_, Reply::Failed(e)) => Output { text: Seq::empty(), error: Some(e) },
        (Command::Status { json }, Reply::Status(s)) => Output {
            text: if json {
                json_text(status_doc(s)) + "\n"@
            } else {
                status_text(s)
            },
            error: None,
        },
        (Command::List, Reply::Mounts(v)) => Output { text: list_text(v), error: None },
        (Command::Mount { name }, Reply::Done) => Output {
            text: "mounted "@ + name + "\n"@,
            error: None,
        },
        (Command::Unmount { name, force: _ }, Reply::Done) => Output {
            text: "unmounted "@ + name + "\n"@,
            error: None,
        },
        _ => Output { text: Seq::empty(), error: None },
    }
}

/// What a command comes to, given what the service answered.
pub fn execute(cmd: &Command, reply: Reply) -> (r: Output)
    ensures
        r@ == output_of(cmd@, reply@),
{
    match (cmd, reply) {
        (Command::Status { json }, Reply::Failed(e)) => {
            let mut text = String::new();
            if *json {
                text = disconnected_json(&e);
                text.append("\n");
            }
            Output { text, error: Some(e) }
        },
        (_, Reply::Failed(e)) => Output { text: String::new(), error: Some(e) },
        (Command::Status { json }, Reply::Status(s)) => {
            let text = if *json {
                let mut t = status_json(&s);
                t.append("\n");
                t
            } else {
                render_status_human(&s)
            };
            Output { text, error: None }
        },
        (Command::List, Reply::Mounts(v)) => Output { text: render_list(&v), error: None },
        (Command::Mount { name }, Reply::Done) => {
            let mut text = "mounted ".to_owned();
            text.append(name.as_str());
            text.append("\n");
            Output { text, error: None }
        },
        (Command::Unmount { name, force: _ }, Reply::Done) => {
            let mut text = "unmounted ".to_owned();
            text.append(name.as_str());
            text.append("\n");
            Output { text, error: None }
        },
        _ => Output { text: String::new(), error: None },
    }
}

/// No failure is ever printed as a list, a table or an empty document: whatever the command,
/// a failure is reported as one, and only a status for scripts prints anything at all.
pub proof fn a_failure_is_never_printed_as_an_answer(
    cmd: Command<Seq<char>>,
    e: LinkError<Seq<char>>,
)
    ensures
        output_of(cmd, Reply::Failed(e)).error == Some(e),
        output_of(cmd, Reply::Failed(e)).text.len() > 0 ==> (cmd is Status && cmd->json),
{
}

} // verus!
