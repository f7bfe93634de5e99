//! What the menu holds, and what a click in it asks for.

use crate::ipc::MountView;
use crate::menu::{
    a_label_is_drawn_as_it_was_meant, about_menu, act_row, all_mounts, any_live, bulk_actions,
    button_row, click_actions, drawn, menu_of, mount_menu, mount_menus, mounts_that, notice_items,
    opt_item, reading_rows, stop_menu, summary_items, text_items, text_row, Click, MenuItem,
    MenuItemModel, Row, NOTICE_LINES, NOTICE_WIDTH,
};
use crate::model::{Action, Down, Link, Notice, ServiceInfo, Summary, TrayView};
use crate::registry::MountRows;
use crate::table::row_at;
use crate::transfer::TransferModel;
use crate::wrap::rows;
use vstd::prelude::*;

verus! {

/// Whether the menu has a line that is drawn as this.
pub open spec fn shows(items: Seq<MenuItemModel>, line: Seq<char>) -> bool {
    exists|i: int|
        0 <= i < items.len() && (#[trigger] items[i]) is Row && items[i]->Row_0 is Text && drawn(
            items[i]->Row_0->Text_0,
        ) == line
}

/// Whether the menu itself has a button for this.
pub open spec fn offers(items: Seq<MenuItemModel>, c: Click<Seq<char>>) -> bool {
    exists|i: int| 0 <= i < items.len() && is_button(#[trigger] items[i], c)
}

/// Whether an item is a button for this.
pub open spec fn is_button(item: MenuItemModel, c: Click<Seq<char>>) -> bool {
    item is Row && item->Row_0 is Button && item->Row_0->Button_1 == c
}

/// Whether the items go on from others.
pub open spec fn goes_on(all: Seq<MenuItemModel>, items: Seq<MenuItemModel>) -> bool {
    items.len() <= all.len() && forall|i: int|
        0 <= i < items.len() ==> #[trigger] all[i] == items[i]
}

proof fn lemma_kept(all: Seq<MenuItemModel>, items: Seq<MenuItemModel>, line: Seq<char>, c: Click<Seq<char>>)
    requires
        goes_on(all, items),
    ensures
        shows(items, line) ==> shows(all, line),
        offers(items, c) ==> offers(all, c),
        forall|item: MenuItemModel| #[trigger] items.contains(item) ==> all.contains(item),
{
    if shows(items, line) {
        let i = choose|i: int|
            0 <= i < items.len() && (#[trigger] items[i]) is Row && items[i]->Row_0 is Text
                && drawn(items[i]->Row_0->Text_0) == line;
        assert(all[i] == items[i]);
    }
    if offers(items, c) {
        let i = choose|i: int| 0 <= i < items.len() && is_button(#[trigger] items[i], c);
        assert(all[i] == items[i]);
    }
    assert forall|item: MenuItemModel| #[trigger] items.contains(item) implies all.contains(
        item,
    ) by {
        let i = choose|i: int| 0 <= i < items.len() && items[i] == item;
        assert(all[i] == item);
    }
}

proof fn lemma_line_shown(items: Seq<MenuItemModel>, line: Seq<char>, i: int)
    requires
        0 <= i < items.len(),
        items[i] == MenuItemModel::Row(text_row(line)),
    ensures
        shows(items, line),
{
    a_label_is_drawn_as_it_was_meant(line);
}

proof fn lemma_menus(items: Seq<MenuItemModel>, mounts: Seq<MountView<Seq<char>>>, v: TrayView)
    ensures
        goes_on(mount_menus(items, mounts, v), items),
        mount_menus(items, mounts, v).len() == items.len() + mounts.len(),
        forall|k: int|
            0 <= k < mounts.len() ==> mount_menus(items, mounts, v)[items.len() + k] == mount_menu(
                #[trigger] mounts[k],
                row_at(v.transfers, mounts[k].name),
            ),
    decreases mounts.len(),
{
    if mounts.len() > 0 {
        lemma_menus(items, mounts.drop_last(), v);
        let before = mount_menus(items, mounts.drop_last(), v);
        let all = mount_menus(items, mounts, v);
        assert forall|k: int| 0 <= k < mounts.len() implies all[items.len() + k] == mount_menu(
            #[trigger] mounts[k],
            row_at(v.transfers, mounts[k].name),
        ) by {
            if k < mounts.len() - 1 {
                assert(mounts.drop_last()[k] == mounts[k]);
                assert(all[items.len() + k] == before[items.len() + k]);
            }
        }
    }
}

/// Whether a mount stands among the rows, as one that is managed or not.
pub open spec fn stands_among(rows: MountRows, managed: bool, m: MountView<Seq<char>>) -> bool {
    exists|k: int|
        0 <= k < rows.len() && (#[trigger] rows[k]).1 == m && rows[k].1.managed == managed
}

proof fn lemma_selected(rows: MountRows, managed: bool)
    ensures
        forall|k: int|
            0 <= k < rows.len() && (#[trigger] rows[k]).1.managed == managed ==> mounts_that(
                rows,
                managed,
            ).contains(rows[k].1),
        forall|j: int|
            0 <= j < mounts_that(rows, managed).len() ==> stands_among(
                rows,
                managed,
                #[trigger] mounts_that(rows, managed)[j],
            ),
    decreases rows.len(),
{
    if rows.len() > 0 {
        let rest = rows.drop_last();
        lemma_selected(rest, managed);
        let before = mounts_that(rest, managed);
        let all = mounts_that(rows, managed);
        assert forall|k: int|
            0 <= k < rows.len() && (#[trigger] rows[k]).1.managed == managed implies all.contains(
            rows[k].1,
        ) by {
            if k < rest.len() {
                assert(rest[k] == rows[k]);
                let j = choose|j: int| 0 <= j < before.len() && before[j] == rows[k].1;
                assert(all[j] == rows[k].1);
            } else {
                assert(all[before.len() as int] == rows[k].1);
            }
        }
        assert forall|j: int| 0 <= j < all.len() implies stands_among(
            rows,
            managed,
            #[trigger] all[j],
        ) by {
            if j < before.len() {
                assert(all[j] == before[j]);
                let k = choose|k: int|
                    0 <= k < rest.len() && (#[trigger] rest[k]).1 == before[j]
                        && rest[k].1.managed == managed;
                assert(rows[k] == rest[k]);
            } else {
                assert(rows[rows.len() - 1].1 == all[j]);
            }
        }
    }
}

/// Whether no item is a button for all mounts at once.
pub open spec fn nothing_for_all(items: Seq<MenuItemModel>) -> bool {
    forall|i: int|
        0 <= i < items.len() ==> !is_button(#[trigger] items[i], Click::MountAll) && !is_button(
            items[i],
            Click::UnmountAll,
        )
}

proof fn lemma_texts_go_on(items: Seq<MenuItemModel>, lines: Seq<Seq<char>>)
    ensures
        goes_on(text_items(items, lines), items),
        text_items(items, lines).len() == items.len() + lines.len(),
        forall|k: int|
            0 <= k < lines.len() ==> text_items(items, lines)[items.len() + k]
                == MenuItemModel::Row(text_row(#[trigger] lines[k])),
        nothing_for_all(items) ==> nothing_for_all(text_items(items, lines)),
    decreases lines.len(),
{
    if lines.len() > 0 {
        let rest = lines.drop_last();
        lemma_texts_go_on(items, rest);
        let before = text_items(items, rest);
        let all = text_items(items, lines);
        assert forall|k: int| 0 <= k < lines.len() implies all[items.len() + k]
            == MenuItemModel::Row(text_row(#[trigger] lines[k])) by {
            if k < rest.len() {
                assert(rest[k] == lines[k]);
                assert(all[items.len() + k] == before[items.len() + k]);
            }
        }
        if nothing_for_all(items) {
            assert forall|i: int| 0 <= i < all.len() implies !is_button(
                #[trigger] all[i],
                Click::MountAll,
            ) && !is_button(all[i], Click::UnmountAll) by {
                if i < before.len() {
                    assert(all[i] == before[i]);
                }
            }
        }
    }
}

/// What is said where a figure comes from the disk.
pub open spec fn only_on_disk() -> Seq<char> {
    "Some figures are unuploaded files on disk, not live upload progress."@
}

proof fn lemma_summary_goes_on(items: Seq<MenuItemModel>, s: Summary)
    ensures
        goes_on(summary_items(items, s), items),
        shows(summary_items(items, s), s.mounted_text()),
        s.pending_words() matches Some(t) ==> shows(summary_items(items, s), t),
        s.rate_words() matches Some(t) ==> shows(summary_items(items, s), t),
        s.dirty_on_disk_only ==> shows(summary_items(items, s), only_on_disk()),
        nothing_for_all(items) ==> nothing_for_all(summary_items(items, s)),
{
    let all = summary_items(items, s);
    let i0 = items.push(MenuItem::Row(text_row(s.mounted_text())));
    let i1 = opt_item(i0, s.pending_words());
    let n = items.len() as int;
    lemma_line_shown(all, s.mounted_text(), n);
    if let Some(t) = s.pending_words() {
        lemma_line_shown(all, t, n + 1);
    }
    if let Some(t) = s.rate_words() {
        lemma_line_shown(all, t, i1.len() as int);
    }
    if s.dirty_on_disk_only {
        lemma_line_shown(all, only_on_disk(), all.len() - 1);
    }
    if nothing_for_all(items) {
        assert forall|i: int| 0 <= i < all.len() implies !is_button(
            #[trigger] all[i],
            Click::MountAll,
        ) && !is_button(all[i], Click::UnmountAll) by {
            if i < items.len() {
                assert(all[i] == items[i]);
            } else {
                assert(all[i] is Row && all[i]->Row_0 is Text);
            }
        }
    }
}

proof fn lemma_mounts_go_on(items: Seq<MenuItemModel>, v: TrayView, k: int)
    requires
        nothing_for_all(items),
    ensures
        goes_on(all_mounts(items, v), items),
        0 <= k < v.mounts.len() ==> all_mounts(items, v).contains(
            mount_menu(v.mounts[k].1, row_at(v.transfers, v.mounts[k].1.name)),
        ),
        offers(all_mounts(items, v), Click::MountAll) <==> any_live(
            mounts_that(v.mounts, true),
            false,
        ),
        offers(all_mounts(items, v), Click::UnmountAll) <==> any_live(
            mounts_that(v.mounts, true),
            true,
        ),
{
    let managed = mounts_that(v.mounts, true);
    let foreign = mounts_that(v.mounts, false);
    let sep = MenuItemModel::Row(Row::Separator);
    let start = items.push(sep);
    let i0 = if managed.len() > 0 {
        mount_menus(start, managed, v)
    } else {
        items
    };
    let head = i0.push(sep).push(
        MenuItem::Row(text_row("Started outside this service"@)),
    );
    let i1 = if foreign.len() > 0 {
        mount_menus(head, foreign, v)
    } else {
        i0
    };
    let i2 = if managed.len() > 0 {
        i1.push(sep)
    } else {
        i1
    };
    let all = all_mounts(items, v);
    lemma_menus(start, managed, v);
    lemma_menus(head, foreign, v);
    assert(goes_on(i0, items)) by {
        if managed.len() > 0 {
            assert forall|i: int| 0 <= i < items.len() implies #[trigger] i0[i] == items[i] by {
                assert(start[i] == items[i]);
            }
        }
    }
    assert(goes_on(i1, i0)) by {
        if foreign.len() > 0 {
            assert forall|i: int| 0 <= i < i0.len() implies #[trigger] i1[i] == i0[i] by {
                assert(head[i] == i0[i]);
            }
        }
    }
    assert(goes_on(all, i2));
    assert(goes_on(all, i1)) by {
        assert forall|i: int| 0 <= i < i1.len() implies #[trigger] all[i] == i1[i] by {
            assert(i2[i] == i1[i]);
        }
    }
    assert(goes_on(all, items)) by {
        assert forall|i: int| 0 <= i < items.len() implies #[trigger] all[i] == items[i] by {
            assert(i1[i] == i0[i] && i0[i] == items[i]);
        }
    }
    lemma_selected(v.mounts, true);
    lemma_selected(v.mounts, false);
    if 0 <= k < v.mounts.len() {
        let m = v.mounts[k].1;
        let item = mount_menu(m, row_at(v.transfers, m.name));
        if m.managed {
            let j = choose|j: int| 0 <= j < managed.len() && managed[j] == m;
            assert(i0[start.len() + j] == mount_menu(
                managed[j],
                row_at(v.transfers, managed[j].name),
            ));
            assert(i1[start.len() + j] == item);
            assert(all[start.len() + j] == item);
        } else {
            let j = choose|j: int| 0 <= j < foreign.len() && foreign[j] == m;
            assert(i1[head.len() + j] == mount_menu(
                foreign[j],
                row_at(v.transfers, foreign[j].name),
            ));
            assert(all[head.len() + j] == item);
        }
    }
    assert(nothing_for_all(i0)) by {
        assert forall|i: int| 0 <= i < i0.len() implies !is_button(
            #[trigger] i0[i],
            Click::MountAll,
        ) && !is_button(i0[i], Click::UnmountAll) by {
            if managed.len() > 0 {
                if i < items.len() {
                    assert(start[i] == items[i]);
                } else if i < start.len() {
                    assert(start[i] == sep);
                } else {
                    let j = i - start.len();
                    assert(i0[start.len() + j] == mount_menu(
                        managed[j],
                        row_at(v.transfers, managed[j].name),
                    ));
                }
            }
        }
    }
    assert(nothing_for_all(i2)) by {
        assert forall|i: int| 0 <= i < i2.len() implies !is_button(
            #[trigger] i2[i],
            Click::MountAll,
        ) && !is_button(i2[i], Click::UnmountAll) by {
            if i < i0.len() {
                assert(i1[i] == i0[i]);
            } else if i < i1.len() {
                if i >= head.len() {
                    let j = i - head.len();
                    assert(i1[head.len() + j] == mount_menu(
                        foreign[j],
                        row_at(v.transfers, foreign[j].name),
                    ));
                } else {
                    assert(i1[i] == head[i]);
                }
            }
        }
    }
    let up = any_live(managed, false);
    let down = any_live(managed, true);
    if up {
        assert(is_button(all[i2.len() as int], Click::MountAll));
    }
    if down {
        assert(is_button(all[all.len() - 1], Click::UnmountAll));
    }
    assert forall|i: int| 0 <= i < all.len() && is_button(#[trigger] all[i], Click::MountAll) implies up by {
        if i < i2.len() {
            assert(all[i] == i2[i]);
        }
    }
    assert forall|i: int| 0 <= i < all.len() && is_button(#[trigger] all[i], Click::UnmountAll) implies down by {
        if i < i2.len() {
            assert(all[i] == i2[i]);
        }
    }
}

proof fn lemma_notice(notice: Option<Notice<Seq<char>>>, k: int)
    ensures
        nothing_for_all(notice_items(notice)),
        notice matches Some(n) ==> {
            let lines = rows(n.text, NOTICE_WIDTH as nat, NOTICE_LINES as nat);
            0 <= k < lines.len() ==> shows(notice_items(notice), lines[k])
        },
{
    if let Some(n) = notice {
        let lines = rows(n.text, NOTICE_WIDTH as nat, NOTICE_LINES as nat);
        let none = Seq::<MenuItemModel>::empty();
        lemma_texts_go_on(none, lines);
        let items = text_items(none, lines);
        let all = notice_items(notice);
        assert(nothing_for_all(items));
        assert forall|i: int| 0 <= i < all.len() implies !is_button(
            #[trigger] all[i],
            Click::MountAll,
        ) && !is_button(all[i], Click::UnmountAll) by {
            if i < items.len() {
                assert(all[i] == items[i]);
            }
        }
        if 0 <= k < lines.len() {
            assert(items[none.len() + k] == MenuItemModel::Row(text_row(lines[k])));
            assert(all[k] == items[k]);
            lemma_line_shown(all, lines[k], k);
        }
    }
}

/// A connected tray's menu says how the mounts are doing, has a menu for each of them with the
/// reading that is held for it, offers to act on all of them exactly where some managed one
/// needs it, and offers to read everything again.
pub proof fn every_mount_has_its_menu(v: TrayView, info: ServiceInfo<Seq<char>>, k: int)
    requires
        v.link == Link::Up(info),
    ensures
        shows(menu_of(v), v.sum().mounted_text()),
        v.sum().pending_words() matches Some(t) ==> shows(menu_of(v), t),
        v.sum().rate_words() matches Some(t) ==> shows(menu_of(v), t),
        v.sum().dirty_on_disk_only ==> shows(menu_of(v), only_on_disk()),
        0 <= k < v.mounts.len() ==> menu_of(v).contains(
            mount_menu(v.mounts[k].1, row_at(v.transfers, v.mounts[k].1.name)),
        ),
        offers(menu_of(v), Click::MountAll) <==> exists|j: int|
            0 <= j < v.mounts.len() && (#[trigger] v.mounts[j]).1.managed && !v.mounts[j].1.live,
        offers(menu_of(v), Click::UnmountAll) <==> exists|j: int|
            0 <= j < v.mounts.len() && (#[trigger] v.mounts[j]).1.managed && v.mounts[j].1.live,
        offers(menu_of(v), Click::Do(Action::Refresh)),
        offers(menu_of(v), Click::Do(Action::Quit)),
        menu_of(v).contains(about_menu(info)),
        menu_of(v).contains(stop_menu()),
{
    let top = notice_items(v.notice);
    let mid = summary_items(top, v.sum());
    let body = all_mounts(mid, v);
    let all = menu_of(v);
    lemma_notice(v.notice, 0);
    lemma_summary_goes_on(top, v.sum());
    lemma_mounts_go_on(mid, v, k);
    let n = body.len() as int;
    assert(all.len() == n + 5);
    assert(goes_on(all, body));
    let w = v.sum().mounted_text();
    lemma_kept(body, mid, w, Click::MountAll);
    lemma_kept(all, body, w, Click::MountAll);
    lemma_kept(all, body, w, Click::UnmountAll);
    if let Some(t) = v.sum().pending_words() {
        lemma_kept(body, mid, t, Click::MountAll);
        lemma_kept(all, body, t, Click::MountAll);
    }
    if let Some(t) = v.sum().rate_words() {
        lemma_kept(body, mid, t, Click::MountAll);
        lemma_kept(all, body, t, Click::MountAll);
    }
    lemma_kept(body, mid, only_on_disk(), Click::MountAll);
    lemma_kept(all, body, only_on_disk(), Click::MountAll);
    assert(all[n] == MenuItemModel::Row(Row::Separator));
    assert(is_button(all[n + 1], Click::Do(Action::Refresh)));
    assert(all[n + 2] == about_menu(info));
    assert(all[n + 3] == stop_menu());
    assert(is_button(all[n + 4], Click::Do(Action::Quit)));
    lemma_selected(v.mounts, true);
    let managed = mounts_that(v.mounts, true);
    lemma_for_all_come_from(all, body, n);
    lemma_any(v.mounts, true);
    lemma_any(v.mounts, false);
}

proof fn lemma_for_all_come_from(all: Seq<MenuItemModel>, body: Seq<MenuItemModel>, n: int)
    requires
        goes_on(all, body),
        n == body.len(),
        all.len() == n + 5,
        all[n] == MenuItemModel::Row(Row::Separator),
        is_button(all[n + 1], Click::Do(Action::Refresh)),
        all[n + 2] is SubMenu,
        all[n + 3] is SubMenu,
        is_button(all[n + 4], Click::Do(Action::Quit)),
    ensures
        offers(all, Click::MountAll) <==> offers(body, Click::MountAll),
        offers(all, Click::UnmountAll) <==> offers(body, Click::UnmountAll),
{
    let w = Seq::<char>::empty();
    lemma_kept(all, body, w, Click::MountAll);
    lemma_kept(all, body, w, Click::UnmountAll);
    if offers(all, Click::MountAll) {
        let i = choose|i: int| 0 <= i < all.len() && is_button(#[trigger] all[i], Click::MountAll);
        assert(i < n);
        assert(is_button(body[i], Click::MountAll));
    }
    if offers(all, Click::UnmountAll) {
        let i = choose|i: int|
            0 <= i < all.len() && is_button(#[trigger] all[i], Click::UnmountAll);
        assert(i < n);
        assert(is_button(body[i], Click::UnmountAll));
    }
}

proof fn lemma_any(rows: MountRows, live: bool)
    ensures
        any_live(mounts_that(rows, true), live) <==> exists|j: int|
            0 <= j < rows.len() && (#[trigger] rows[j]).1.managed && rows[j].1.live == live,
{
    let managed = mounts_that(rows, true);
    lemma_selected(rows, true);
    if any_live(managed, live) {
        let i = choose|i: int| 0 <= i < managed.len() && (#[trigger] managed[i]).live == live;
        assert(stands_among(rows, true, managed[i]));
        let k = choose|k: int|
            0 <= k < rows.len() && (#[trigger] rows[k]).1 == managed[i] && rows[k].1.managed
                == true;
        assert(rows[k].1.live == live);
    }
    if exists|j: int|
        0 <= j < rows.len() && (#[trigger] rows[j]).1.managed && rows[j].1.live == live {
        let j = choose|j: int|
            0 <= j < rows.len() && (#[trigger] rows[j]).1.managed && rows[j].1.live == live;
        assert(managed.contains(rows[j].1));
        let i = choose|i: int| 0 <= i < managed.len() && managed[i] == rows[j].1;
        assert(managed[i].live == live);
    }
}

/// The last thing that went wrong is shown, row by row, with the link up and with it down.
pub proof fn a_notice_is_shown(v: TrayView, n: Notice<Seq<char>>, k: int)
    requires
        v.notice == Some(n),
        !(v.link is Connecting),
        0 <= k < rows(n.text, NOTICE_WIDTH as nat, NOTICE_LINES as nat).len(),
    ensures
        shows(menu_of(v), rows(n.text, NOTICE_WIDTH as nat, NOTICE_LINES as nat)[k]),
{
    let top = notice_items(v.notice);
    let line = rows(n.text, NOTICE_WIDTH as nat, NOTICE_LINES as nat)[k];
    lemma_notice(v.notice, k);
    let all = menu_of(v);
    if v.link is Up {
        let mid = summary_items(top, v.sum());
        let body = all_mounts(mid, v);
        lemma_summary_goes_on(top, v.sum());
        lemma_mounts_go_on(mid, v, 0);
        assert(goes_on(all, body));
        lemma_kept(mid, top, line, Click::MountAll);
        lemma_kept(body, mid, line, Click::MountAll);
        lemma_kept(all, body, line, Click::MountAll);
    } else {
        assert(goes_on(all, top));
        lemma_kept(all, top, line, Click::MountAll);
    }
}

/// A tray that cannot see its service says why, offers to start it exactly where that is the
/// thing to do, and always offers to try again.
pub proof fn an_unreachable_service_is_told_of(v: TrayView, down: Down<Seq<char>>)
    requires
        v.link == Link::Down(down),
    ensures
        shows(menu_of(v), down.headline),
        offers(menu_of(v), Click::Do(Action::StartService)) <==> down.offer_start,
        offers(menu_of(v), Click::Do(Action::Refresh)),
        offers(menu_of(v), Click::Do(Action::Quit)),
{
    let top = notice_items(v.notice);
    let all = menu_of(v);
    let n = top.len() as int;
    lemma_line_shown(all, down.headline, n);
    let m = if down.offer_start {
        n + 4
    } else {
        n + 3
    };
    assert(is_button(all[m], Click::Do(Action::Refresh)));
    assert(is_button(all[m + 2], Click::Do(Action::Quit)));
    if down.offer_start {
        assert(is_button(all[n + 3], Click::Do(Action::StartService)));
    } else {
        lemma_notice_is_text(v.notice);
        assert forall|i: int| 0 <= i < all.len() implies !is_button(
            #[trigger] all[i],
            Click::Do(Action::StartService),
        ) by {
            if i < n {
                assert(all[i] == top[i]);
            }
        }
    }
}

proof fn lemma_notice_is_text(notice: Option<Notice<Seq<char>>>)
    ensures
        forall|i: int|
            0 <= i < notice_items(notice).len() ==> (#[trigger] notice_items(notice)[i]) is Row
                && !(notice_items(notice)[i]->Row_0 is Button),
{
    if let Some(n) = notice {
        let lines = rows(n.text, NOTICE_WIDTH as nat, NOTICE_LINES as nat);
        let none = Seq::<MenuItemModel>::empty();
        lemma_texts_go_on(none, lines);
        let items = text_items(none, lines);
        let all = notice_items(notice);
        assert forall|i: int| 0 <= i < all.len() implies (#[trigger] all[i]) is Row && !(
        all[i]->Row_0 is Button) by {
            if i < items.len() {
                assert(all[i] == items[i]);
                assert(items[none.len() + i] == MenuItemModel::Row(text_row(lines[i])));
            }
        }
    }
}

/// Whether a mount's menu has a line that is drawn as this.
pub open spec fn lists(rows: Seq<Row<Seq<char>>>, line: Seq<char>) -> bool {
    exists|i: int|
        0 <= i < rows.len() && (#[trigger] rows[i]) is Text && drawn(rows[i]->Text_0) == line
}

/// Whether a mount's menu has a button for this.
pub open spec fn lets(rows: Seq<Row<Seq<char>>>, a: Action<Seq<char>>) -> bool {
    exists|i: int|
        0 <= i < rows.len() && (#[trigger] rows[i]) is Button && rows[i]->Button_1 == Click::Do(a)
}

proof fn lemma_listed(rows: Seq<Row<Seq<char>>>, line: Seq<char>, i: int)
    requires
        0 <= i < rows.len(),
        rows[i] == text_row(line),
    ensures
        lists(rows, line),
{
    a_label_is_drawn_as_it_was_meant(line);
}

/// A mount's menu goes by its name and its state, shows its point, its remote and why it
/// failed, as far as they are known, lets a served one be opened and a managed one be taken
/// down or brought up, whichever it is not, and ends with what it still has to upload.
pub proof fn a_mounts_menu_says_what_it_is(
    v: MountView<Seq<char>>,
    reading: Option<TransferModel>,
    j: int,
)
    ensures
        mount_menu(v, reading) is SubMenu,
        ({
            let label = mount_menu(v, reading)->SubMenu_0;
            let rows = mount_menu(v, reading)->SubMenu_1;
            let told = reading_rows(reading);
            &&& drawn(label) == v.name + " — "@ + v.state
            &&& v.mount_point matches Some(p) ==> lists(rows, p)
            &&& v.remote matches Some(p) ==> lists(rows, p)
            &&& v.reason matches Some(p) ==> lists(rows, "Failed: "@ + p)
            &&& v.live ==> (v.mount_point matches Some(p) ==> lets(rows, Action::Open(p)))
            &&& v.managed && v.live ==> lets(rows, Action::Unmount(v.name))
            &&& v.managed && !v.live ==> lets(rows, Action::Mount(v.name))
            &&& told.len() <= rows.len()
            &&& 0 <= j < told.len() ==> rows[rows.len() - told.len() + j] == told[j]
        }),
{
    let rows = mount_menu(v, reading)->SubMenu_1;
    a_label_is_drawn_as_it_was_meant(v.name + " — "@ + v.state);
    if let Some(p) = v.mount_point {
        lemma_listed(rows, p, 0);
    }
    if let Some(p) = v.remote {
        lemma_listed(rows, p, 1);
    }
    let n = 1 + (if v.remote is Some {
        1int
    } else {
        0
    });
    if let Some(p) = v.reason {
        lemma_listed(rows, "Failed: "@ + p, n);
    }
    let m = n + (if v.reason is Some {
        1int
    } else {
        0
    });
    if v.live && v.mount_point is Some {
        assert(rows[m + 1] == button_row("Open"@, Action::Open(v.mount_point->0)));
    }
    assert(rows[m + 2] == act_row(v));
}

/// Acting on all mounts acts on every managed one that is not in the wanted state, and a click
/// on anything else asks for just what the button says.
pub proof fn a_click_asks_for_what_it_says(
    v: TrayView,
    a: Action<Seq<char>>,
    k: int,
)
    ensures
        click_actions(v, Click::Do(a)) == seq![a],
        0 <= k < v.mounts.len() && v.mounts[k].1.managed && !v.mounts[k].1.live ==> click_actions(
            v,
            Click::MountAll,
        ).contains(Action::Mount(v.mounts[k].1.name)),
        0 <= k < v.mounts.len() && v.mounts[k].1.managed && v.mounts[k].1.live ==> click_actions(
            v,
            Click::UnmountAll,
        ).contains(Action::Unmount(v.mounts[k].1.name)),
        forall|i: int|
            0 <= i < click_actions(v, Click::MountAll).len() ==> (#[trigger] click_actions(
                v,
                Click::MountAll,
            )[i]) is Mount,
        forall|i: int|
            0 <= i < click_actions(v, Click::UnmountAll).len() ==> (#[trigger] click_actions(
                v,
                Click::UnmountAll,
            )[i]) is Unmount,
{
    lemma_all_acted_on(v.mounts, true);
    lemma_all_acted_on(v.mounts, false);
}

proof fn lemma_all_acted_on(rows: MountRows, mount: bool)
    ensures
        forall|k: int|
            0 <= k < rows.len() && (#[trigger] rows[k]).1.managed && rows[k].1.live != mount
                ==> bulk_actions(rows, mount).contains(
                if mount {
                    Action::Mount(rows[k].1.name)
                } else {
                    Action::Unmount(rows[k].1.name)
                },
            ),
        forall|i: int|
            0 <= i < bulk_actions(rows, mount).len() ==> if mount {
                (#[trigger] bulk_actions(rows, mount)[i]) is Mount
            } else {
                bulk_actions(rows, mount)[i] is Unmount
            },
    decreases rows.len(),
{
    if rows.len() > 0 {
        let rest = rows.drop_last();
        lemma_all_acted_on(rest, mount);
        let before = bulk_actions(rest, mount);
        let all = bulk_actions(rows, mount);
        assert forall|k: int|
            0 <= k < rows.len() && (#[trigger] rows[k]).1.managed && rows[k].1.live
                != mount implies all.contains(
            if mount {
                Action::Mount(rows[k].1.name)
            } else {
                Action::Unmount(rows[k].1.name)
            },
        ) by {
            let want = if mount {
                Action::Mount(rows[k].1.name)
            } else {
                Action::Unmount(rows[k].1.name)
            };
            if k < rest.len() {
                assert(rest[k] == rows[k]);
                let j = choose|j: int| 0 <= j < before.len() && before[j] == want;
                assert(all[j] == want);
            } else {
                assert(all[before.len() as int] == want);
            }
        }
        assert forall|i: int| 0 <= i < all.len() implies if mount {
            (#[trigger] all[i]) is Mount
        } else {
            all[i] is Unmount
        } by {
            if i < before.len() {
                assert(all[i] == before[i]);
            }
        }
    }
}

/// A notice is set apart from what follows it, and an empty one takes no room.
pub proof fn a_notice_is_set_apart(n: Notice<Seq<char>>)
    ensures
        ({
            let lines = rows(n.text, NOTICE_WIDTH as nat, NOTICE_LINES as nat);
            let items = notice_items(Some(n));
            &&& lines.len() > 0 ==> items.len() == lines.len() + 1 && items.last()
                == MenuItemModel::Row(Row::Separator)
            &&& lines.len() == 0 ==> items.len() == 0
        }),
        notice_items(None).len() == 0,
{
    let lines = rows(n.text, NOTICE_WIDTH as nat, NOTICE_LINES as nat);
    lemma_texts_go_on(Seq::<MenuItemModel>::empty(), lines);
}

} // verus!
