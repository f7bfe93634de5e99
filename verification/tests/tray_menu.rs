//! What the menu says and what its items ask for.

use vfsmount_tray::ipc::{mount_view, state_from_name, MountView, TransferFileView, TransferView};
use vfsmount_tray::link::LinkError;
use vfsmount_tray::menu::{
    build, clicked, escape, MenuItem, Row, FILE_CAP, NOTICE_WIDTH, QUIT_LABEL,
};
use vfsmount_tray::model::{Action, ServiceInfo, TrayModel};
use vfsmount_tray::supervisor::state::DiscoveredMount;

fn service() -> ServiceInfo {
    ServiceInfo {
        service_version: "0.1.0".to_string(),
        interface_version: 1,
        rclone_version: "1.75.0".to_string(),
        capability_tier: "T2".to_string(),
    }
}

/// A row as the service would publish it.
fn mount(name: &str, state: &str) -> MountView {
    let parsed = state_from_name(
        state,
        &Some("rclone exited before the mount appeared".to_string()),
    )
    .expect("a state this build knows");
    let found = DiscoveredMount::new(name.to_string(), parsed).at(format!("/mnt/{name}"));
    mount_view(&found, Some(format!("{name}:")))
}

/// A clean reading of the queue with nothing outstanding.
fn idle_transfer(name: &str) -> TransferView {
    TransferView {
        mount: name.to_string(),
        fidelity: Some("T2".to_string()),
        outstanding_known: true,
        has_progress: false,
        pending_files: 0,
        pending_known_bytes: 0,
        pending_unknown_size_files: 0,
        uploading: Some(0),
        errored_files: Some(0),
        out_of_space: Some(false),
        rate_bytes_per_sec: None,
        files: Vec::new(),
        degraded_reason: None,
    }
}

fn pending(t: &mut TransferView, files: u64, bytes: u64, unsized_files: u64) {
    t.pending_files = files;
    t.pending_known_bytes = bytes;
    t.pending_unknown_size_files = unsized_files;
}

fn connected(mounts: Vec<MountView>, transfers: Vec<TransferView>) -> TrayModel {
    let mut m = TrayModel::new();
    m.go_up(service(), mounts);
    for t in &transfers {
        m.upsert_transfer(t);
    }
    m
}

/// Every row in the tree, submenus after their titles.
fn rows(items: &[MenuItem]) -> Vec<Row> {
    let mut out = Vec::new();
    for item in items {
        match item {
            MenuItem::Row(r) => out.push(r.clone()),
            MenuItem::SubMenu(title, sub) => {
                out.push(Row::Text(title.clone()));
                out.extend(sub.iter().cloned());
            }
        }
    }
    out
}

fn label(r: &Row) -> Option<String> {
    match r {
        Row::Separator => None,
        Row::Text(t) | Row::Disabled(t) | Row::Button(t, _) => Some(t.clone()),
    }
}

/// Every label in the tree. Separators have none.
fn labels(items: &[MenuItem]) -> Vec<String> {
    rows(items).iter().filter_map(label).collect()
}

fn says(items: &[MenuItem], needle: &str) -> bool {
    labels(items).iter().any(|l| l.contains(needle))
}

/// Click the item with this label, and return what was asked for.
fn click(m: &TrayModel, wanted: &str) -> Vec<Action> {
    click_in(&build(m), m, wanted)
}

/// Click an item of a menu that was drawn earlier.
fn click_in(items: &[MenuItem], m: &TrayModel, wanted: &str) -> Vec<Action> {
    for r in rows(items) {
        if let Row::Button(t, c) = r {
            if t == wanted {
                return clicked(m, c);
            }
        }
    }
    panic!("no item labelled {wanted:?} in {:?}", labels(items))
}

#[test]
fn a_stopped_service_says_so_and_never_claims_there_are_no_mounts() {
    let mut m = TrayModel::new();
    m.go_down(&LinkError::NotRunning);
    let items = build(&m);
    let l = labels(&items);

    assert!(says(&items, "not running"), "{l:?}");
    assert!(says(&items, "unaffected"), "{l:?}");
    assert!(l.contains(&"Start service".to_string()), "{l:?}");
    assert!(
        !l.iter()
            .any(|s| s.contains(" mounted") || s.contains("synced")),
        "the menu must not describe mount state it cannot see: {l:?}"
    );
}

#[test]
fn a_version_mismatch_is_named_and_offers_nothing_that_would_not_help() {
    let mut m = TrayModel::new();
    m.go_down(&LinkError::TooOld {
        needed: 2,
        found: 1,
    });
    let items = build(&m);
    assert!(says(&items, "too old"), "{:?}", labels(&items));
    assert!(
        !labels(&items).contains(&"Start service".to_string()),
        "starting a service that is already running fixes nothing"
    );
}

#[test]
fn a_failed_start_reports_where_the_button_that_failed_is() {
    let mut m = TrayModel::new();
    m.go_down(&LinkError::NotRunning);
    m.set_notice(
        None,
        "could not run systemctl: No such file or directory".to_string(),
    );
    assert!(says(&build(&m), "could not run systemctl"));
}

#[test]
fn a_refusal_is_broken_across_rows_rather_than_shown_as_one_long_one() {
    let mut m = connected(vec![mount("photos", "mounted")], vec![]);
    m.set_notice(
        Some("photos".to_string()),
        "photos: /mnt/photos could not be unmounted: Device or resource busy. \
         Usually a process is still using the mount — a file open under it, or a \
         shell whose working directory is inside it."
            .to_string(),
    );
    let items = build(&m);
    assert!(says(&items, "could not be unmounted"));
    assert!(
        labels(&items).iter().all(|l| l.len() <= NOTICE_WIDTH + 2),
        "a row wider than the panel: {:?}",
        labels(&items)
    );
}

#[test]
fn an_underscore_in_a_name_reaches_the_panel_intact() {
    let m = connected(vec![mount("my_files", "mounted")], vec![]);
    assert!(says(&build(&m), "my__files"), "{:?}", labels(&build(&m)));
    assert_eq!(escape("my_files"), "my__files");
}

#[test]
fn open_is_offered_only_for_a_mount_that_is_serving() {
    let up = connected(vec![mount("photos", "mounted")], vec![]);
    assert_eq!(
        click(&up, "Open"),
        [Action::Open("/mnt/photos".to_string())]
    );

    let down = connected(vec![mount("photos", "unmounted")], vec![]);
    assert!(rows(&build(&down))
        .iter()
        .any(|r| matches!(r, Row::Disabled(t) if t == "Open")));
    assert!(!rows(&build(&down))
        .iter()
        .any(|r| matches!(r, Row::Button(t, _) if t == "Open")));
}

#[test]
fn a_mount_this_service_did_not_start_is_set_apart_and_offers_no_actions() {
    let m = connected(
        vec![mount("photos", "mounted"), mount("elsewhere", "foreign")],
        vec![],
    );
    let items = build(&m);
    assert!(says(&items, "Started outside this service"));
    assert!(says(&items, "Not managed by this service"));
    // One Unmount, for the one mount the service owns.
    assert_eq!(labels(&items).iter().filter(|l| *l == "Unmount").count(), 1);
}

#[test]
fn a_failed_mount_says_why_rather_than_only_that_it_failed() {
    let mut failed = mount("photos", "failed");
    failed.reason = Some("rclone exited before the mount appeared".to_string());
    let m = connected(vec![failed], vec![]);
    assert!(says(&build(&m), "rclone exited before the mount appeared"));
}

#[test]
fn a_long_queue_is_capped_and_says_how_many_it_left_out() {
    let mut t = idle_transfer("photos");
    pending(&mut t, 25, 25_000, 0);
    t.files = (0..25)
        .map(|i| TransferFileView {
            name: format!("clip{i}.mp4"),
            size: Some(1000),
            in_flight: Some(i == 0),
            tries: Some(1),
            bytes_sent: None,
        })
        .collect();

    let m = connected(vec![mount("photos", "mounted")], vec![t]);
    let items = build(&m);
    let listed = labels(&items)
        .iter()
        .filter(|l| l.starts_with("clip"))
        .count();
    assert_eq!(listed, FILE_CAP);
    assert!(says(&items, &format!("and {} more", 25 - FILE_CAP)));
    assert!(says(&items, "clip0.mp4 — 1000 B (uploading)"));
}

#[test]
fn a_file_the_tier_cannot_place_is_not_claimed_to_be_uploading() {
    let mut t = idle_transfer("photos");
    t.fidelity = Some("T4".to_string());
    pending(&mut t, 1, 1024, 0);
    t.files = vec![TransferFileView {
        name: "clip.mp4".to_string(),
        size: Some(1024),
        in_flight: None,
        tries: None,
        bytes_sent: None,
    }];

    let m = connected(vec![mount("photos", "mounted")], vec![t]);
    let items = build(&m);
    assert!(says(&items, "clip.mp4 — 1 KiB"));
    assert!(!says(&items, "uploading"));
    assert!(!says(&items, "%"), "no percentage at a tier without one");
    assert!(says(&items, "not live upload progress"));
}

#[test]
fn progress_trouble_and_reasons_are_shown_where_they_are_known() {
    let mut t = idle_transfer("photos");
    pending(&mut t, 1, 4096, 0);
    t.has_progress = true;
    t.errored_files = Some(2);
    t.out_of_space = Some(true);
    t.degraded_reason = Some("no mode reported".to_string());
    t.files = vec![TransferFileView {
        name: "clip.mp4".to_string(),
        size: Some(4096),
        in_flight: Some(true),
        tries: Some(1),
        bytes_sent: Some(2048),
    }];
    let items = build(&connected(vec![mount("photos", "mounted")], vec![t]));
    assert!(says(&items, "clip.mp4 — 4 KiB (uploading) — 2 KiB sent"));
    assert!(says(&items, "2 file(s) failed to upload"));
    assert!(says(&items, "The cache is out of space"));
    assert!(says(&items, "no mode reported"));
}

#[test]
fn clicking_mount_asks_the_service_for_that_one_mount() {
    let m = connected(vec![mount("photos", "unmounted")], vec![]);
    assert_eq!(click(&m, "Mount"), [Action::Mount("photos".to_string())]);
}

#[test]
fn quit_asks_only_the_tray_to_stop_and_says_so_on_the_item() {
    let m = connected(vec![mount("photos", "mounted")], vec![]);
    assert!(QUIT_LABEL.contains("mounts stay up"));
    assert_eq!(click(&m, QUIT_LABEL), [Action::Quit]);
}

#[test]
fn stopping_the_service_takes_a_second_click_and_says_what_happens_to_mounts() {
    let m = connected(vec![mount("photos", "mounted")], vec![]);
    let items = build(&m);
    // The top-level item is a submenu, so it cannot be triggered on the way past.
    assert!(items
        .iter()
        .any(|i| matches!(i, MenuItem::SubMenu(title, _) if title == "Stop service")));
    assert!(says(&items, "Mounts stay up"));
    assert_eq!(
        click(&m, "Yes, stop the service"),
        [Action::StopService]
    );
}

#[test]
fn mount_all_acts_on_what_is_down_when_it_is_clicked_not_when_it_was_drawn() {
    let mut m = connected(
        vec![mount("photos", "unmounted"), mount("docs", "unmounted")],
        vec![],
    );
    let drawn = build(&m);
    m.upsert_mount(mount("docs", "mounted"));
    assert_eq!(
        click_in(&drawn, &m, "Mount all"),
        [Action::Mount("photos".to_string())]
    );
}

#[test]
fn unmount_all_leaves_the_mounts_of_others_alone() {
    let m = connected(
        vec![
            mount("photos", "mounted"),
            mount("docs", "unmounted"),
            mount("elsewhere", "foreign"),
        ],
        vec![],
    );
    assert_eq!(
        click(&m, "Unmount all"),
        [Action::Unmount("photos".to_string())]
    );
}

#[test]
fn a_bulk_item_appears_only_when_there_is_something_for_it_to_do() {
    let all_up = connected(vec![mount("photos", "mounted")], vec![]);
    let l = labels(&build(&all_up));
    assert!(l.contains(&"Unmount all".to_string()));
    assert!(!l.contains(&"Mount all".to_string()));
}

#[test]
fn the_per_mount_line_carries_the_same_qualifier_as_the_summary() {
    let mut t = idle_transfer("photos");
    pending(&mut t, 5, 100 * 1024 * 1024, 1);
    let m = connected(vec![mount("photos", "mounted")], vec![t]);

    let lines = labels(&build(&m));
    let pending_lines: Vec<&String> = lines.iter().filter(|l| l.contains("pending")).collect();
    assert_eq!(pending_lines.len(), 2, "{lines:?}");
    assert!(
        pending_lines
            .iter()
            .all(|l| l.contains("1 of unknown size")),
        "{pending_lines:?}"
    );
}

/// Whether every underscore in a label survives mnemonic stripping, which keeps one of each
/// pair and drops a lone one.
fn escaped(label: &str) -> bool {
    label
        .split(|c| c != '_')
        .filter(|run| !run.is_empty())
        .all(|run| run.len() % 2 == 0)
}

#[test]
fn every_label_reaches_the_panel_with_its_underscores() {
    let mut failed = mount("my_photos", "failed");
    failed.reason = Some("rclone_mount exited with code 1".to_string());
    failed.mount_point = Some("/mnt/my_photos".to_string());
    failed.remote = Some("my_remote:some_path".to_string());

    let mut t = idle_transfer("my_photos");
    pending(&mut t, 1, 1024, 0);
    t.degraded_reason = Some("no write_back queue on this mount".to_string());
    t.files = vec![TransferFileView {
        name: "holiday_2026.mp4".to_string(),
        size: Some(1024),
        in_flight: Some(true),
        tries: Some(1),
        bytes_sent: None,
    }];

    let mut m = connected(vec![failed], vec![t]);
    m.set_notice(
        Some("my_photos".to_string()),
        "my_photos: still_in_use".to_string(),
    );

    for label in labels(&build(&m)) {
        assert!(escaped(&label), "a lone underscore survives in {label:?}");
    }

    // And the same on the other menu, whose headline can carry a failure's own words.
    m.go_down(&LinkError::Transport("peer_disconnected".to_string()));
    m.set_notice(None, "could not run systemctl: no_such_unit".to_string());
    for label in labels(&build(&m)) {
        assert!(escaped(&label), "a lone underscore survives in {label:?}");
    }
}

#[test]
fn the_guard_on_escaping_can_tell_the_difference() {
    assert!(escaped("my__files"));
    assert!(!escaped("my_files"));
    assert!(!escaped("a___b"));
    assert!(escaped("no underscores here"));
}

#[test]
fn a_serving_mount_with_no_reading_says_so_in_the_summary_too() {
    let m = connected(vec![mount("elsewhere", "foreign")], vec![]);
    let items = build(&m);
    assert!(says(&items, "unknown"), "{:?}", labels(&items));
    assert!(!says(&items, "All synced"), "{:?}", labels(&items));
}

#[test]
fn a_tray_that_has_not_looked_yet_says_so() {
    assert!(says(&build(&TrayModel::new()), "Connecting to the service…"));
}

#[test]
fn the_service_describes_itself_under_about() {
    let items = build(&connected(vec![], vec![]));
    assert!(says(&items, "Service 0.1.0"));
    assert!(says(&items, "Interface 1 (this client speaks 1)"));
    assert!(says(&items, "rclone 1.75.0"));
    assert!(says(&items, "Capability tier T2"));
}
