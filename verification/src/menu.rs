//! The menu the panel shows.
//!
//! Built fresh from the tray's model every time the panel asks. A click names what was asked
//! for and returns, so nothing the service is slow to answer can hold the menu open.

use crate::ipc::{MountView, INTERFACE_VERSION};
use crate::model::{
    or_zero, Action, Down, Link, Notice, ServiceInfo, Summary, TrayModel, TrayView,
};
use crate::quantity::{bytes_text, human_bytes, pending_phrase, pending_text};
use crate::registry::MountRows;
use crate::table::{row_at, row_view, row_views};
use crate::text::{chars_of, decimal, digits, push_char, texts, views};
use crate::transfer::{Tier, TransferFile, TransferModel, TransferState};
use crate::wrap::{rows, wrap};
use vstd::prelude::*;
use vstd::string::*;

verus! {

/// Files listed per mount before the rest are counted instead. A queue runs to thousands of
/// entries during a large copy, and a menu with one item per file cannot be read.
pub const FILE_CAP: usize = 10;

/// Columns a notice is wrapped to.
pub const NOTICE_WIDTH: usize = 64;

/// Rows a notice may take.
pub const NOTICE_LINES: usize = 5;

/// What the menu says Quit does, spelled out where the reflex click is.
pub const QUIT_LABEL: &'static str = "Quit (mounts stay up)";

/// The version of the tray.
pub const TRAY_VERSION: &'static str = "0.1.0";

/// What a click asks for.
#[derive(Debug, Clone, PartialEq, Eq)]
pub enum Click<S = String> {
    Do(Action<S>),
    /// Mount every managed mount that is down, as they are when it is clicked.
    MountAll,
    /// Unmount every managed mount that is up, as they are when it is clicked.
    UnmountAll,
}

impl View for Click {
    type V = Click<Seq<char>>;

    open spec fn view(&self) -> Click<Seq<char>> {
        match *self {
            Click::Do(a) => Click::Do(a@),
            Click::MountAll => Click::MountAll,
            Click::UnmountAll => Click::UnmountAll,
        }
    }
}

/// One row of a menu.
#[derive(Debug, Clone, PartialEq, Eq)]
pub enum Row<S = String> {
    Separator,
    /// A line to read rather than click.
    Text(S),
    /// An action.
    Button(S, Click<S>),
    /// An action that is not available now, kept in place so that the menu does not change
    /// shape under the cursor.
    Disabled(S),
}

impl View for Row {
    type V = Row<Seq<char>>;

    open spec fn view(&self) -> Row<Seq<char>> {
        match *self {
            Row::Separator => Row::Separator,
            Row::Text(t) => Row::Text(t@),
            Row::Button(t, c) => Row::Button(t@, c@),
            Row::Disabled(t) => Row::Disabled(t@),
        }
    }
}

/// One item of the menu: a row, or a menu of rows.
#[derive(Debug, Clone, PartialEq, Eq)]
pub enum MenuItem<S = String, L = Vec<Row>> {
    Row(Row<S>),
    SubMenu(S, L),
}

/// A menu item by its view.
pub type MenuItemModel = MenuItem<Seq<char>, Seq<Row<Seq<char>>>>;

impl View for MenuItem {
    type V = MenuItemModel;

    open spec fn view(&self) -> MenuItemModel {
        match *self {
            MenuItem::Row(r) => MenuItem::Row(r@),
            MenuItem::SubMenu(t, rows) => MenuItem::SubMenu(t@, views(rows@)),
        }
    }
}

/// A label with its underscores doubled.
pub open spec fn escaped(s: Seq<char>) -> Seq<char>
    decreases s.len(),
{
    if s.len() == 0 {
        s
    } else if s.last() == '_' {
        escaped(s.drop_last()).push('_').push('_')
    } else {
        escaped(s.drop_last()).push(s.last())
    }
}

/// What a panel draws of a label: it takes a lone underscore for a mnemonic and drops it,
/// and draws one for a doubled one.
pub open spec fn drawn(label: Seq<char>) -> Seq<char>
    decreases label.len(),
{
    if label.len() == 0 {
        label
    } else if label[0] == '_' {
        if label.len() > 1 && label[1] == '_' {
            seq!['_'] + drawn(label.skip(2))
        } else {
            drawn(label.drop_first())
        }
    } else {
        seq![label[0]] + drawn(label.drop_first())
    }
}

/// Every label reaches the panel with its underscores: what is drawn of an escaped label is
/// the label.
pub proof fn a_label_is_drawn_as_it_was_meant(s: Seq<char>)
    ensures
        drawn(escaped(s)) == s,
    decreases s.len(),
{
    if s.len() > 0 {
        lemma_escaped_front(s);
        a_label_is_drawn_as_it_was_meant(s.drop_first());
        let rest = escaped(s.drop_first());
        let all = escaped(s);
        if s[0] == '_' {
            assert(all[0] == '_' && all[1] == '_');
            assert(all.skip(2) == rest);
        } else {
            assert(all[0] == s[0]);
            assert(all.drop_first() == rest);
        }
        assert(seq![s[0]] + s.drop_first() == s);
    }
}

proof fn lemma_escaped_front(s: Seq<char>)
    requires
        s.len() > 0,
    ensures
        escaped(s) == (if s[0] == '_' {
            seq!['_', '_']
        } else {
            seq![s[0]]
        }) + escaped(s.drop_first()),
    decreases s.len(),
{
    let front = if s[0] == '_' {
        seq!['_', '_']
    } else {
        seq![s[0]]
    };
    if s.len() == 1 {
        assert(s.drop_last() == Seq::<char>::empty());
        assert(s.drop_first() == Seq::<char>::empty());
        assert(escaped(s.drop_last()) == Seq::<char>::empty());
        assert(escaped(s) == front + Seq::<char>::empty());
    } else {
        lemma_escaped_front(s.drop_last());
        assert(s.drop_last().drop_first() == s.drop_first().drop_last());
        assert(s.drop_first().last() == s.last());
        assert(s.drop_last()[0] == s[0]);
        assert(escaped(s) == front + escaped(s.drop_first()));
    }
}

/// Protect a label from being read as a mnemonic.
pub fn escape(s: &str) -> (r: String)
    ensures
        r@ == escaped(s@),
{
    let x = chars_of(s);
    let mut r = String::new();
    let mut i: usize = 0;
    assert(s@.take(0) == Seq::<char>::empty());
    while i < x.len()
        invariant
            i <= x@.len(),
            x@ == s@,
            r@ == escaped(s@.take(i as int)),
        decreases x@.len() - i,
    {
        assert(s@.take(i + 1).drop_last() == s@.take(i as int));
        assert(s@.take(i + 1).last() == x@[i as int]);
        push_char(&mut r, x[i]);
        if x[i] == '_' {
            push_char(&mut r, '_');
        }
        i = i + 1;
    }
    assert(s@.take(x@.len() as int) == s@);
    r
}

/// A line to read.
pub open spec fn text_row(s: Seq<char>) -> Row<Seq<char>> {
    Row::Text(escaped(s))
}

/// An action.
pub open spec fn button_row(s: Seq<char>, a: Action<Seq<char>>) -> Row<Seq<char>> {
    Row::Button(escaped(s), Click::Do(a))
}

fn text(s: &str) -> (r: Row)
    ensures
        r@ == text_row(s@),
{
    Row::Text(escape(s))
}

fn action(s: &str, a: Action) -> (r: Row)
    ensures
        r@ == button_row(s@, a@),
{
    Row::Button(escape(s), Click::Do(a))
}

fn disabled_action(s: &str) -> (r: Row)
    ensures
        r@ == Row::Disabled(escaped(s@)),
{
    Row::Disabled(escape(s))
}

fn add_row(v: &mut Vec<Row>, r: Row)
    ensures
        views(final(v)@) == views(old(v)@).push(r@),
{
    let ghost before = v@;
    v.push(r);
    assert(views(v@) == views(before).push(r@));
}

fn put_row(v: &mut Vec<MenuItem>, r: Row)
    ensures
        views(final(v)@) == views(old(v)@).push(MenuItem::Row(r@)),
{
    let ghost before = v@;
    let item = MenuItem::Row(r);
    v.push(item);
    assert(views(v@) == views(before).push(item@));
}

fn put_item(v: &mut Vec<MenuItem>, item: MenuItem)
    ensures
        views(final(v)@) == views(old(v)@).push(item@),
{
    let ghost before = v@;
    v.push(item);
    assert(views(v@) == views(before).push(item@));
}

/// One outstanding file, in words. A tier that cannot tell a queued file from one being sent
/// leaves that unsaid, and so does one without progress.
pub open spec fn file_words(f: TransferFile<Seq<char>>, has_progress: bool) -> Seq<char> {
    let sized = match f.size {
        Some(size) => f.name + " — "@ + bytes_text(size as nat),
        None => f.name,
    };
    let placed = if f.in_flight == Some(true) {
        sized + " (uploading)"@
    } else {
        sized
    };
    if has_progress && f.bytes_sent is Some && f.size is Some && f.size->0 > 0 {
        placed + " — "@ + bytes_text(f.bytes_sent->0 as nat) + " sent"@
    } else {
        placed
    }
}

/// The rows for the first files of a reading.
pub open spec fn file_rows(
    rows: Seq<Row<Seq<char>>>,
    files: Seq<TransferFile<Seq<char>>>,
    has_progress: bool,
) -> Seq<Row<Seq<char>>>
    decreases files.len(),
{
    if files.len() == 0 {
        rows
    } else {
        file_rows(rows, files.drop_last(), has_progress).push(
            text_row(file_words(files.last(), has_progress)),
        )
    }
}

/// How many files are listed.
pub open spec fn listed(n: nat) -> nat {
    if n <= FILE_CAP {
        n
    } else {
        FILE_CAP as nat
    }
}

/// What is outstanding, as the first row for a reading.
pub open spec fn pending_row(t: TransferModel) -> Row<Seq<char>> {
    if !t.outstanding_known {
        text_row("Pending: unknown"@)
    } else if t.pending.files == 0 {
        text_row("All synced"@)
    } else {
        text_row(
            pending_text(
                t.pending.files as nat,
                t.pending.known_bytes as nat,
                t.pending.unknown_size_files as nat,
            ),
        )
    }
}

/// What one mount still has to upload, as far as its tier allows.
pub open spec fn transfer_rows(t: TransferModel) -> Seq<Row<Seq<char>>> {
    let r0 = seq![pending_row(t)];
    let n = listed(t.files.len());
    let r1 = file_rows(r0, t.files.take(n as int), t.has_progress);
    let r2 = if t.files.len() > FILE_CAP {
        r1.push(text_row("and "@ + digits((t.files.len() - FILE_CAP) as nat) + " more…"@))
    } else {
        r1
    };
    let r3 = if or_zero(t.errored_files) > 0 {
        r2.push(
            text_row(digits(or_zero(t.errored_files) as nat) + " file(s) failed to upload"@),
        )
    } else {
        r2
    };
    let r4 = if t.out_of_space == Some(true) {
        r3.push(text_row("The cache is out of space"@))
    } else {
        r3
    };
    let r5 = if t.fidelity == Some(Tier::T4) {
        r4.push(text_row("Showing unuploaded files on disk, not live upload progress."@))
    } else {
        r4
    };
    match t.degraded_reason {
        Some(why) => r5.push(text_row(why)),
        None => r5,
    }
}

/// What one mount still has to upload, as rows; a mount without a reading has one that says
/// so.
pub open spec fn reading_rows(t: Option<TransferModel>) -> Seq<Row<Seq<char>>> {
    match t {
        None => seq![text_row("No upload information yet"@)],
        Some(t) => transfer_rows(t),
    }
}

fn file_line(f: &TransferFile, has_progress: bool) -> (r: String)
    ensures
        r@ == file_words(f@, has_progress),
{
    let mut line = f.name.clone();
    if let Some(size) = f.size {
        line.append(" — ");
        line.append(human_bytes(size).as_str());
    }
    if let Some(true) = f.in_flight {
        line.append(" (uploading)");
    }
    if has_progress {
        if let (Some(sent), Some(size)) = (f.bytes_sent, f.size) {
            if size > 0 {
                line.append(" — ");
                line.append(human_bytes(sent).as_str());
                line.append(" sent");
            }
        }
    }
    line
}

/// What one mount still has to upload, rendered only as far as its tier allows.
pub fn transfer_lines(t: Option<&TransferState>) -> (r: Vec<Row>)
    ensures
        views(r@) == reading_rows(
            match t {
                Some(t) => Some(t@),
                None => None,
            },
        ),
{
    let mut lines: Vec<Row> = Vec::new();
    assert(views(lines@) == Seq::<Row<Seq<char>>>::empty());
    let t = match t {
        None => {
            add_row(&mut lines, text("No upload information yet"));
            return lines;
        },
        Some(t) => t,
    };
    if !t.outstanding_known {
        add_row(&mut lines, text("Pending: unknown"));
    } else if t.pending.files == 0 {
        add_row(&mut lines, text("All synced"));
    } else {
        add_row(
            &mut lines,
            text(
                pending_phrase(
                    t.pending.files,
                    t.pending.known_bytes,
                    t.pending.unknown_size_files,
                ).as_str(),
            ),
        );
    }
    let ghost r0 = seq![pending_row(t@)];
    assert(views(lines@) == r0);
    let n: usize = if t.files.len() <= FILE_CAP {
        t.files.len()
    } else {
        FILE_CAP
    };
    let ghost shown = t@.files.take(n as int);
    let mut i: usize = 0;
    assert(shown.take(0) == Seq::<TransferFile<Seq<char>>>::empty());
    while i < n
        invariant
            i <= n <= t.files@.len(),
            shown == t@.files.take(n as int),
            views(lines@) == file_rows(r0, shown.take(i as int), t.has_progress),
        decreases n - i,
    {
        assert(shown.take(i + 1).drop_last() == shown.take(i as int));
        assert(shown.take(i + 1).last() == t.files@[i as int]@);
        add_row(&mut lines, text(file_line(&t.files[i], t.has_progress).as_str()));
        i = i + 1;
    }
    assert(shown.take(n as int) == shown);
    if t.files.len() > FILE_CAP {
        let mut s = "and ".to_owned();
        s.append(decimal((t.files.len() - FILE_CAP) as u64).as_str());
        s.append(" more…");
        add_row(&mut lines, text(s.as_str()));
    }
    let errored: u64 = match t.errored_files {
        Some(n) => n,
        None => 0,
    };
    if errored > 0 {
        let mut s = decimal(errored);
        s.append(" file(s) failed to upload");
        add_row(&mut lines, text(s.as_str()));
    }
    if let Some(true) = t.out_of_space {
        add_row(&mut lines, text("The cache is out of space"));
    }
    if let Some(Tier::T4) = t.fidelity {
        add_row(
            &mut lines,
            text("Showing unuploaded files on disk, not live upload progress."),
        );
    }
    if let Some(why) = &t.degraded_reason {
        add_row(&mut lines, text(why.as_str()));
    }
    lines
}

/// What can be done to a mount. The service refuses to act on a mount it did not start, so
/// offering that would only produce a refusal.
pub open spec fn act_row(v: MountView<Seq<char>>) -> Row<Seq<char>> {
    if !v.managed {
        text_row("Not managed by this service"@)
    } else if v.live {
        button_row("Unmount"@, Action::Unmount(v.name))
    } else {
        button_row("Mount"@, Action::Mount(v.name))
    }
}

/// One mount: what it is, what can be done to it, and what it still has to upload.
pub open spec fn mount_menu(
    v: MountView<Seq<char>>,
    reading: Option<TransferModel>,
) -> MenuItemModel {
    let r0 = seq![
        text_row(
            match v.mount_point {
                Some(p) => p,
                None => "no mount point recorded"@,
            },
        ),
    ];
    let r1 = match v.remote {
        Some(remote) => r0.push(text_row(remote)),
        None => r0,
    };
    let r2 = match v.reason {
        Some(reason) => r1.push(text_row("Failed: "@ + reason)),
        None => r1,
    };
    let r3 = r2.push(Row::Separator).push(
        if v.live && v.mount_point is Some {
            button_row("Open"@, Action::Open(v.mount_point->0))
        } else {
            Row::Disabled(escaped("Open"@))
        },
    ).push(act_row(v)).push(Row::Separator);
    MenuItem::SubMenu(escaped(v.name + " — "@ + v.state), r3 + reading_rows(reading))
}

fn mount_item(m: &TrayModel, v: &MountView) -> (r: MenuItem)
    ensures
        r@ == mount_menu(v@, row_at(m@.transfers, v@.name)),
{
    let mut sub: Vec<Row> = Vec::new();
    assert(views(sub@) == Seq::<Row<Seq<char>>>::empty());
    match &v.mount_point {
        Some(p) => {
            add_row(&mut sub, text(p.as_str()));
        },
        None => {
            add_row(&mut sub, text("no mount point recorded"));
        },
    }
    assert(views(sub@) == seq![
        text_row(
            match v@.mount_point {
                Some(p) => p,
                None => "no mount point recorded"@,
            },
        ),
    ]);
    if let Some(remote) = &v.remote {
        add_row(&mut sub, text(remote.as_str()));
    }
    // A failed mount says why here rather than only that it failed.
    if let Some(reason) = &v.reason {
        let mut s = "Failed: ".to_owned();
        s.append(reason.as_str());
        add_row(&mut sub, text(s.as_str()));
    }
    add_row(&mut sub, Row::Separator);
    match &v.mount_point {
        Some(p) if v.live => {
            add_row(&mut sub, action("Open", Action::Open(p.clone())));
        },
        _ => {
            add_row(&mut sub, disabled_action("Open"));
        },
    }
    if v.managed {
        if v.live {
            add_row(&mut sub, action("Unmount", Action::Unmount(v.name.clone())));
        } else {
            add_row(&mut sub, action("Mount", Action::Mount(v.name.clone())));
        }
    } else {
        add_row(&mut sub, text("Not managed by this service"));
    }
    add_row(&mut sub, Row::Separator);
    let ghost head = views(sub@);
    let mut more = transfer_lines(m.transfer(v.name.as_str()));
    let ghost tail = views(more@);
    let ghost both = sub@ + more@;
    sub.append(&mut more);
    assert(views(both) == head + tail);
    let mut label = v.name.clone();
    label.append(" — ");
    label.append(v.state.as_str());
    MenuItem::SubMenu(escape(label.as_str()), sub)
}

/// Whether a mount is wanted: managed ones, or the others.
pub open spec fn mounts_that(rows: MountRows, managed: bool) -> Seq<MountView<Seq<char>>>
    decreases rows.len(),
{
    if rows.len() == 0 {
        Seq::empty()
    } else if rows.last().1.managed == managed {
        mounts_that(rows.drop_last(), managed).push(rows.last().1)
    } else {
        mounts_that(rows.drop_last(), managed)
    }
}

/// The menus of mounts after other items.
pub open spec fn mount_menus(
    items: Seq<MenuItemModel>,
    mounts: Seq<MountView<Seq<char>>>,
    v: TrayView,
) -> Seq<MenuItemModel>
    decreases mounts.len(),
{
    if mounts.len() == 0 {
        items
    } else {
        mount_menus(items, mounts.drop_last(), v).push(
            mount_menu(mounts.last(), row_at(v.transfers, mounts.last().name)),
        )
    }
}

/// The rows of texts after other items.
pub open spec fn text_items(items: Seq<MenuItemModel>, lines: Seq<Seq<char>>) -> Seq<
    MenuItemModel,
>
    decreases lines.len(),
{
    if lines.len() == 0 {
        items
    } else {
        text_items(items, lines.drop_last()).push(MenuItem::Row(text_row(lines.last())))
    }
}

/// The last thing that went wrong, broken across rows and followed by a separator.
pub open spec fn notice_items(notice: Option<Notice<Seq<char>>>) -> Seq<MenuItemModel> {
    match notice {
        None => Seq::empty(),
        Some(n) => {
            let lines = rows(n.text, NOTICE_WIDTH as nat, NOTICE_LINES as nat);
            let items = text_items(Seq::empty(), lines);
            if lines.len() == 0 {
                items
            } else {
                items.push(MenuItem::Row(Row::Separator))
            }
        },
    }
}

/// An optional line after other items.
pub open spec fn opt_item(items: Seq<MenuItemModel>, line: Option<Seq<char>>) -> Seq<
    MenuItemModel,
> {
    match line {
        Some(t) => items.push(MenuItem::Row(text_row(t))),
        None => items,
    }
}

/// Whether some of the mounts are live, or are not.
pub open spec fn any_live(mounts: Seq<MountView<Seq<char>>>, live: bool) -> bool {
    exists|i: int| 0 <= i < mounts.len() && (#[trigger] mounts[i]).live == live
}

/// What the service says about itself.
pub open spec fn about_menu(info: ServiceInfo<Seq<char>>) -> MenuItemModel {
    MenuItem::SubMenu(
        escaped("About"@),
        seq![
            text_row("Tray "@ + TRAY_VERSION@),
            text_row("Service "@ + info.service_version),
            text_row(
                "Interface "@ + digits(info.interface_version as nat) + " (this client speaks "@
                    + digits(INTERFACE_VERSION as nat) + ")"@,
            ),
            text_row("rclone "@ + info.rclone_version),
            text_row("Capability tier "@ + info.capability_tier),
        ],
    )
}

/// Stopping the service: a menu rather than a button, so that it cannot be hit by reflex on
/// the way to Quit.
pub open spec fn stop_menu() -> MenuItemModel {
    MenuItem::SubMenu(
        escaped("Stop service"@),
        seq![
            text_row("Mounts stay up unless the service is configured"@),
            text_row("to unmount when it stops."@),
            text_row("The tray will show the service as unreachable."@),
            Row::Separator,
            button_row("Yes, stop the service"@, Action::StopService),
        ],
    )
}

/// What sums the mounts up.
pub open spec fn summary_items(items: Seq<MenuItemModel>, s: Summary) -> Seq<MenuItemModel> {
    let i0 = items.push(MenuItem::Row(text_row(s.mounted_text())));
    let i1 = opt_item(i0, s.pending_words());
    let i2 = opt_item(i1, s.rate_words());
    if s.dirty_on_disk_only {
        i2.push(
            MenuItem::Row(
                text_row(
                    "Some figures are unuploaded files on disk, not live upload progress."@,
                ),
            ),
        )
    } else {
        i2
    }
}

/// The mounts, those of others set apart, and what can be done to all of ours.
pub open spec fn all_mounts(items: Seq<MenuItemModel>, v: TrayView) -> Seq<MenuItemModel> {
    let managed = mounts_that(v.mounts, true);
    let foreign = mounts_that(v.mounts, false);
    let sep = MenuItemModel::Row(Row::Separator);
    let i0 = if managed.len() > 0 {
        mount_menus(items.push(sep), managed, v)
    } else {
        items
    };
    let i1 = if foreign.len() > 0 {
        mount_menus(
            i0.push(sep).push(MenuItem::Row(text_row("Started outside this service"@))),
            foreign,
            v,
        )
    } else {
        i0
    };
    let i2 = if managed.len() > 0 {
        i1.push(sep)
    } else {
        i1
    };
    let i3 = if any_live(managed, false) {
        i2.push(MenuItem::Row(Row::Button(escaped("Mount all"@), Click::MountAll)))
    } else {
        i2
    };
    if any_live(managed, true) {
        i3.push(MenuItem::Row(Row::Button(escaped("Unmount all"@), Click::UnmountAll)))
    } else {
        i3
    }
}

/// The menu of a connected tray.
pub open spec fn connected_menu(v: TrayView, info: ServiceInfo<Seq<char>>) -> Seq<MenuItemModel> {
    all_mounts(summary_items(notice_items(v.notice), v.sum()), v).push(
        MenuItem::Row(Row::Separator),
    ).push(MenuItem::Row(button_row("Refresh"@, Action::Refresh))).push(about_menu(info)).push(
        stop_menu(),
    ).push(MenuItem::Row(button_row(QUIT_LABEL@, Action::Quit)))
}

/// The menu of a tray that cannot see its service. It says that the mounts are unaffected,
/// because the tray knows nothing about them, and an empty tray must not be read as an empty
/// mount table.
pub open spec fn unreachable_menu(
    down: Down<Seq<char>>,
    notice: Option<Notice<Seq<char>>>,
) -> Seq<MenuItemModel> {
    let i0 = notice_items(notice).push(MenuItem::Row(text_row(down.headline))).push(
        MenuItem::Row(
            text_row("Mounts already up are unaffected — this is only the tray's link."@),
        ),
    ).push(MenuItem::Row(Row::Separator));
    let i1 = if down.offer_start {
        i0.push(MenuItem::Row(button_row("Start service"@, Action::StartService)))
    } else {
        i0
    };
    i1.push(MenuItem::Row(button_row("Retry now"@, Action::Refresh))).push(
        MenuItem::Row(Row::Separator),
    ).push(MenuItem::Row(button_row(QUIT_LABEL@, Action::Quit)))
}

/// The menu.
pub open spec fn menu_of(v: TrayView) -> Seq<MenuItemModel> {
    match v.link {
        Link::Connecting => seq![
            MenuItem::Row(text_row("Connecting to the service…"@)),
            MenuItem::Row(Row::Separator),
            MenuItem::Row(button_row(QUIT_LABEL@, Action::Quit)),
        ],
        Link::Down(down) => unreachable_menu(down, v.notice),
        Link::Up(info) => connected_menu(v, info),
    }
}

/// A tray that cannot see its service shows nothing of any mount: its menu is the same
/// whatever it held.
pub proof fn an_unreachable_service_shows_no_mounts(v: TrayView, w: TrayView)
    requires
        v.link == w.link,
        v.notice == w.notice,
        !(v.link is Up),
    ensures
        menu_of(v) == menu_of(w),
{
}

/// Every menu ends with the item that closes the tray, and says there that mounts stay up.
pub proof fn every_menu_ends_with_quit(v: TrayView)
    ensures
        menu_of(v).len() > 0,
        menu_of(v).last() == MenuItemModel::Row(button_row(QUIT_LABEL@, Action::Quit)),
{
}

/// Whether an item stops the service when it is clicked.
pub open spec fn stops_service(item: MenuItemModel) -> bool {
    match item {
        MenuItem::Row(Row::Button(_, Click::Do(Action::StopService))) => true,
        _ => false,
    }
}

/// Whether no item stops the service when it is clicked.
pub open spec fn safe_to_pass(items: Seq<MenuItemModel>) -> bool {
    forall|i: int| 0 <= i < items.len() ==> !stops_service(#[trigger] items[i])
}

broadcast proof fn lemma_push_safe(items: Seq<MenuItemModel>, item: MenuItemModel)
    requires
        safe_to_pass(items),
        !stops_service(item),
    ensures
        #[trigger] safe_to_pass(items.push(item)),
{
    let all = items.push(item);
    assert forall|i: int| 0 <= i < all.len() implies !stops_service(#[trigger] all[i]) by {
        if i < items.len() {
            assert(all[i] == items[i]);
        }
    }
}

proof fn lemma_text_items_safe(items: Seq<MenuItemModel>, lines: Seq<Seq<char>>)
    requires
        safe_to_pass(items),
    ensures
        safe_to_pass(text_items(items, lines)),
    decreases lines.len(),
{
    if lines.len() > 0 {
        lemma_text_items_safe(items, lines.drop_last());
        lemma_push_safe(
            text_items(items, lines.drop_last()),
            MenuItem::Row(text_row(lines.last())),
        );
    }
}

proof fn lemma_mount_menus_safe(
    items: Seq<MenuItemModel>,
    mounts: Seq<MountView<Seq<char>>>,
    v: TrayView,
)
    requires
        safe_to_pass(items),
    ensures
        safe_to_pass(mount_menus(items, mounts, v)),
    decreases mounts.len(),
{
    if mounts.len() > 0 {
        lemma_mount_menus_safe(items, mounts.drop_last(), v);
        lemma_push_safe(
            mount_menus(items, mounts.drop_last(), v),
            mount_menu(mounts.last(), row_at(v.transfers, mounts.last().name)),
        );
    }
}

/// Stopping the service takes a second click: no item of the menu itself does it, in any
/// state of the tray.
pub proof fn stopping_the_service_takes_a_second_click(v: TrayView)
    ensures
        safe_to_pass(menu_of(v)),
{
    broadcast use lemma_push_safe;

    if let Some(n) = v.notice {
        lemma_text_items_safe(
            Seq::empty(),
            rows(n.text, NOTICE_WIDTH as nat, NOTICE_LINES as nat),
        );
    }
    assert(safe_to_pass(notice_items(v.notice)));
    if let Link::Up(info) = v.link {
        let head = summary_items(notice_items(v.notice), v.sum());
        assert(safe_to_pass(head));
        let managed = mounts_that(v.mounts, true);
        let foreign = mounts_that(v.mounts, false);
        let sep = MenuItemModel::Row(Row::Separator);
        lemma_push_safe(head, sep);
        lemma_mount_menus_safe(head.push(sep), managed, v);
        let i0 = if managed.len() > 0 {
            mount_menus(head.push(sep), managed, v)
        } else {
            head
        };
        let title = MenuItemModel::Row(text_row("Started outside this service"@));
        lemma_push_safe(i0, sep);
        lemma_push_safe(i0.push(sep), title);
        lemma_mount_menus_safe(i0.push(sep).push(title), foreign, v);
        assert(safe_to_pass(all_mounts(head, v)));
        assert(safe_to_pass(connected_menu(v, info)));
    }
}

/// Whether what a row asks for when it is clicked fits a mount: opening it where it is
/// served, and mounting or unmounting it where it is managed and not so already.
pub open spec fn fits_mount(v: MountView<Seq<char>>, row: Row<Seq<char>>) -> bool {
    match row {
        Row::Button(_, Click::Do(Action::Open(path))) => v.live && v.mount_point == Some(path),
        Row::Button(_, Click::Do(Action::Mount(name))) => v.managed && !v.live && name == v.name,
        Row::Button(_, Click::Do(Action::Unmount(name))) => v.managed && v.live && name == v.name,
        Row::Button(_, _) => false,
        _ => true,
    }
}

/// Whether every row fits a mount.
pub open spec fn all_fit(v: MountView<Seq<char>>, rows: Seq<Row<Seq<char>>>) -> bool {
    forall|i: int| 0 <= i < rows.len() ==> fits_mount(v, #[trigger] rows[i])
}

broadcast proof fn lemma_push_fits(
    v: MountView<Seq<char>>,
    rows: Seq<Row<Seq<char>>>,
    row: Row<Seq<char>>,
)
    requires
        all_fit(v, rows),
        fits_mount(v, row),
    ensures
        #[trigger] all_fit(v, rows.push(row)),
{
    let all = rows.push(row);
    assert forall|i: int| 0 <= i < all.len() implies fits_mount(v, #[trigger] all[i]) by {
        if i < rows.len() {
            assert(all[i] == rows[i]);
        }
    }
}

proof fn lemma_file_rows_fit(
    v: MountView<Seq<char>>,
    rows: Seq<Row<Seq<char>>>,
    files: Seq<TransferFile<Seq<char>>>,
    has_progress: bool,
)
    requires
        all_fit(v, rows),
    ensures
        all_fit(v, file_rows(rows, files, has_progress)),
    decreases files.len(),
{
    if files.len() > 0 {
        lemma_file_rows_fit(v, rows, files.drop_last(), has_progress);
        lemma_push_fits(
            v,
            file_rows(rows, files.drop_last(), has_progress),
            text_row(file_words(files.last(), has_progress)),
        );
    }
}

/// A mount's menu offers only what fits it. In particular a mount that this service did not
/// start offers neither to mount nor to unmount it, and one that is not served is not offered
/// to be opened.
pub proof fn a_mount_offers_only_what_fits_it(
    v: MountView<Seq<char>>,
    reading: Option<TransferModel>,
)
    ensures
        mount_menu(v, reading) matches MenuItem::SubMenu(_, rows) && all_fit(v, rows),
{
    broadcast use lemma_push_fits;

    if let Some(t) = reading {
        lemma_file_rows_fit(
            v,
            seq![pending_row(t)],
            t.files.take(listed(t.files.len()) as int),
            t.has_progress,
        );
    }
    assert(all_fit(v, reading_rows(reading)));
    let item = mount_menu(v, reading);
    let rows = item->SubMenu_1;
    let head = rows.take(rows.len() - reading_rows(reading).len());
    assert(rows == head + reading_rows(reading));
    assert forall|i: int| 0 <= i < rows.len() implies fits_mount(v, #[trigger] rows[i]) by {
        if i >= head.len() {
            assert(rows[i] == reading_rows(reading)[i - head.len()]);
        }
    }
}

/// Acting on everything touches only managed mounts that are not in the wanted state
/// already, and is never forced.
pub proof fn acting_on_all_touches_only_what_needs_it(rows: MountRows, mount: bool, i: int)
    requires
        0 <= i < bulk_actions(rows, mount).len(),
    ensures
        exists|k: int|
            0 <= k < rows.len() && (#[trigger] rows[k]).1.managed && rows[k].1.live != mount
                && bulk_actions(rows, mount)[i] == if mount {
                Action::Mount(rows[k].1.name)
            } else {
                Action::Unmount(rows[k].1.name)
            },
    decreases rows.len(),
{
    let before = rows.drop_last();
    let v = rows.last().1;
    if v.managed && v.live != mount && i == bulk_actions(before, mount).len() {
        assert(rows[rows.len() - 1].1 == v);
    } else {
        acting_on_all_touches_only_what_needs_it(before, mount, i);
        let k = choose|k: int|
            0 <= k < before.len() && (#[trigger] before[k]).1.managed && before[k].1.live != mount
                && bulk_actions(before, mount)[i] == if mount {
                Action::Mount(before[k].1.name)
            } else {
                Action::Unmount(before[k].1.name)
            };
        assert(rows[k] == before[k]);
    }
}

fn notice_lines(notice: Option<&Notice>) -> (r: Vec<MenuItem>)
    ensures
        views(r@) == notice_items(
            match notice {
                Some(n) => Some(n@),
                None => None,
            },
        ),
{
    let mut items: Vec<MenuItem> = Vec::new();
    assert(views(items@) == Seq::<MenuItemModel>::empty());
    let n = match notice {
        None => {
            return items;
        },
        Some(n) => n,
    };
    let lines = wrap(n.text.as_str(), NOTICE_WIDTH, NOTICE_LINES);
    let ghost all = texts(lines@);
    let mut i: usize = 0;
    while i < lines.len()
        invariant
            i <= lines@.len(),
            all == texts(lines@),
            views(items@) == text_items(Seq::empty(), all.take(i as int)),
        decreases lines@.len() - i,
    {
        assert(all.take(i + 1).drop_last() == all.take(i as int));
        assert(all.take(i + 1).last() == lines@[i as int]@);
        put_row(&mut items, text(lines[i].as_str()));
        i = i + 1;
    }
    assert(all.take(lines@.len() as int) == all);
    if lines.len() > 0 {
        put_row(&mut items, Row::Separator);
    }
    items
}

fn quit() -> (r: Row)
    ensures
        r@ == button_row(QUIT_LABEL@, Action::Quit),
{
    action(QUIT_LABEL, Action::Quit)
}

fn unreachable_service(down: &Down, notice: Option<&Notice>) -> (r: Vec<MenuItem>)
    ensures
        views(r@) == unreachable_menu(
            down@,
            match notice {
                Some(n) => Some(n@),
                None => None,
            },
        ),
{
    // A start that failed reports here, where the button that failed is.
    let mut items = notice_lines(notice);
    put_row(&mut items, text(down.headline.as_str()));
    put_row(
        &mut items,
        text("Mounts already up are unaffected — this is only the tray's link."),
    );
    put_row(&mut items, Row::Separator);
    if down.offer_start {
        put_row(&mut items, action("Start service", Action::StartService));
    }
    put_row(&mut items, action("Retry now", Action::Refresh));
    put_row(&mut items, Row::Separator);
    put_row(&mut items, quit());
    items
}

fn about(info: &ServiceInfo) -> (r: MenuItem)
    ensures
        r@ == about_menu(info@),
{
    let mut sub: Vec<Row> = Vec::new();
    let mut s = "Tray ".to_owned();
    s.append(TRAY_VERSION);
    add_row(&mut sub, text(s.as_str()));
    let mut s = "Service ".to_owned();
    s.append(info.service_version.as_str());
    add_row(&mut sub, text(s.as_str()));
    let mut s = "Interface ".to_owned();
    s.append(decimal(info.interface_version as u64).as_str());
    s.append(" (this client speaks ");
    s.append(decimal(INTERFACE_VERSION as u64).as_str());
    s.append(")");
    add_row(&mut sub, text(s.as_str()));
    let mut s = "rclone ".to_owned();
    s.append(info.rclone_version.as_str());
    add_row(&mut sub, text(s.as_str()));
    let mut s = "Capability tier ".to_owned();
    s.append(info.capability_tier.as_str());
    add_row(&mut sub, text(s.as_str()));
    let r = MenuItem::SubMenu(escape("About"), sub);
    assert(r@->SubMenu_1 == about_menu(info@)->SubMenu_1);
    r
}

fn stop_service() -> (r: MenuItem)
    ensures
        r@ == stop_menu(),
{
    let mut sub: Vec<Row> = Vec::new();
    add_row(&mut sub, text("Mounts stay up unless the service is configured"));
    add_row(&mut sub, text("to unmount when it stops."));
    add_row(&mut sub, text("The tray will show the service as unreachable."));
    add_row(&mut sub, Row::Separator);
    add_row(&mut sub, action("Yes, stop the service", Action::StopService));
    let r = MenuItem::SubMenu(escape("Stop service"), sub);
    assert(r@->SubMenu_1 == stop_menu()->SubMenu_1);
    r
}

fn sum_up(items: Vec<MenuItem>, s: &Summary) -> (r: Vec<MenuItem>)
    ensures
        views(r@) == summary_items(views(items@), *s),
{
    let mut items = items;
    put_row(&mut items, text(s.mounted_line().as_str()));
    if let Some(line) = s.pending_line() {
        put_row(&mut items, text(line.as_str()));
    }
    if let Some(line) = s.rate_line() {
        put_row(&mut items, text(line.as_str()));
    }
    if s.dirty_on_disk_only {
        put_row(
            &mut items,
            text("Some figures are unuploaded files on disk, not live upload progress."),
        );
    }
    items
}

fn select(rows: &Vec<(String, MountView)>, managed: bool) -> (r: Vec<MountView>)
    ensures
        views(r@) == mounts_that(row_views(rows@), managed),
{
    let ghost all = row_views(rows@);
    let mut out: Vec<MountView> = Vec::new();
    let mut i: usize = 0;
    while i < rows.len()
        invariant
            i <= rows@.len(),
            all == row_views(rows@),
            views(out@) == mounts_that(all.take(i as int), managed),
        decreases rows@.len() - i,
    {
        assert(all.take(i + 1).drop_last() == all.take(i as int));
        assert(all.take(i + 1).last() == row_view(rows@[i as int]));
        if rows[i].1.managed == managed {
            let m = rows[i].1.copy();
            let ghost before = out@;
            out.push(m);
            assert(views(out@) == views(before).push(m@));
        }
        i = i + 1;
    }
    assert(all.take(rows@.len() as int) == all);
    out
}

fn has_live(mounts: &Vec<MountView>, live: bool) -> (r: bool)
    ensures
        r == any_live(views(mounts@), live),
{
    let mut i: usize = 0;
    while i < mounts.len()
        invariant
            i <= mounts@.len(),
            forall|k: int| 0 <= k < i ==> (#[trigger] views(mounts@)[k]).live != live,
        decreases mounts@.len() - i,
    {
        if mounts[i].live == live {
            assert(views(mounts@)[i as int].live == live);
            return true;
        }
        i = i + 1;
    }
    false
}

fn put_mounts(items: &mut Vec<MenuItem>, mounts: &Vec<MountView>, m: &TrayModel)
    ensures
        views(final(items)@) == mount_menus(views(old(items)@), views(mounts@), m@),
{
    let ghost start = views(items@);
    let ghost all = views(mounts@);
    let mut i: usize = 0;
    while i < mounts.len()
        invariant
            i <= mounts@.len(),
            all == views(mounts@),
            views(items@) == mount_menus(start, all.take(i as int), m@),
        decreases mounts@.len() - i,
    {
        assert(all.take(i + 1).drop_last() == all.take(i as int));
        assert(all.take(i + 1).last() == mounts@[i as int]@);
        put_item(items, mount_item(m, &mounts[i]));
        i = i + 1;
    }
    assert(all.take(mounts@.len() as int) == all);
}

fn list_mounts(items: Vec<MenuItem>, m: &TrayModel) -> (r: Vec<MenuItem>)
    ensures
        views(r@) == all_mounts(views(items@), m@),
{
    let mut items = items;
    let managed = select(m.mounts(), true);
    let foreign = select(m.mounts(), false);
    if managed.len() > 0 {
        put_row(&mut items, Row::Separator);
        put_mounts(&mut items, &managed, m);
    }
    if foreign.len() > 0 {
        put_row(&mut items, Row::Separator);
        put_row(&mut items, text("Started outside this service"));
        put_mounts(&mut items, &foreign, m);
    }
    if managed.len() > 0 {
        put_row(&mut items, Row::Separator);
    }
    if has_live(&managed, false) {
        put_row(&mut items, Row::Button(escape("Mount all"), Click::MountAll));
    }
    if has_live(&managed, true) {
        put_row(&mut items, Row::Button(escape("Unmount all"), Click::UnmountAll));
    }
    items
}

fn connected(m: &TrayModel, info: &ServiceInfo) -> (r: Vec<MenuItem>)
    ensures
        views(r@) == connected_menu(m@, info@),
{
    let items = notice_lines(m.notice());
    let items = sum_up(items, &m.summary());
    let mut items = list_mounts(items, m);
    put_row(&mut items, Row::Separator);
    put_row(&mut items, action("Refresh", Action::Refresh));
    put_item(&mut items, about(info));
    put_item(&mut items, stop_service());
    put_row(&mut items, quit());
    items
}

/// The menu for what the tray holds.
pub fn build(m: &TrayModel) -> (r: Vec<MenuItem>)
    ensures
        views(r@) == menu_of(m@),
{
    match m.link() {
        Link::Connecting => {
            let mut items: Vec<MenuItem> = Vec::new();
            put_row(&mut items, text("Connecting to the service…"));
            put_row(&mut items, Row::Separator);
            put_row(&mut items, quit());
            items
        },
        Link::Down(down) => unreachable_service(down, m.notice()),
        Link::Up(info) => connected(m, info),
    }
}

/// What mounting, or unmounting, everything asks for: every managed mount that is not
/// already in that state.
pub open spec fn bulk_actions(rows: MountRows, mount: bool) -> Seq<Action<Seq<char>>>
    decreases rows.len(),
{
    if rows.len() == 0 {
        Seq::empty()
    } else {
        let v = rows.last().1;
        if v.managed && v.live != mount {
            bulk_actions(rows.drop_last(), mount).push(
                if mount {
                    Action::Mount(v.name)
                } else {
                    Action::Unmount(v.name)
                },
            )
        } else {
            bulk_actions(rows.drop_last(), mount)
        }
    }
}

/// What a click asks for.
pub open spec fn click_actions(v: TrayView, c: Click<Seq<char>>) -> Seq<Action<Seq<char>>> {
    match c {
        Click::Do(a) => seq![a],
        Click::MountAll => bulk_actions(v.mounts, true),
        Click::UnmountAll => bulk_actions(v.mounts, false),
    }
}

fn bulk(m: &TrayModel, mount: bool) -> (r: Vec<Action>)
    ensures
        views(r@) == bulk_actions(m@.mounts, mount),
{
    let rows = m.mounts();
    let ghost all = m@.mounts;
    let mut out: Vec<Action> = Vec::new();
    let mut i: usize = 0;
    while i < rows.len()
        invariant
            i <= rows@.len(),
            all == row_views(rows@),
            views(out@) == bulk_actions(all.take(i as int), mount),
        decreases rows@.len() - i,
    {
        assert(all.take(i + 1).drop_last() == all.take(i as int));
        assert(all.take(i + 1).last() == row_view(rows@[i as int]));
        if rows[i].1.managed && rows[i].1.live != mount {
            let name = rows[i].1.name.clone();
            let a = if mount {
                Action::Mount(name)
            } else {
                Action::Unmount(name)
            };
            let ghost before = out@;
            out.push(a);
            assert(views(out@) == views(before).push(a@));
        }
        i = i + 1;
    }
    assert(all.take(rows@.len() as int) == all);
    out
}

/// What a click asks for, decided when it is clicked rather than when the menu was drawn: a
/// menu can sit open while the service brings a mount up underneath it.
pub fn clicked(m: &TrayModel, c: Click) -> (r: Vec<Action>)
    ensures
        views(r@) == click_actions(m@, c@),
{
    match c {
        Click::Do(a) => {
            let mut v: Vec<Action> = Vec::new();
            v.push(a);
            assert(views(v@) == seq![a@]);
            v
        },
        Click::MountAll => bulk(m, true),
        Click::UnmountAll => bulk(m, false),
    }
}

} // verus!
