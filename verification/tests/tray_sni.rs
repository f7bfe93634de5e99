//! What the panel is told of the tray.

use vfsmount_tray::ipc::{mount_view, state_from_name, MountView, TransferView};
use vfsmount_tray::link::LinkError;
use vfsmount_tray::model::{Action, ServiceInfo, TrayModel, TrayState};
use vfsmount_tray::sni::{Status, TRAY_ID, TRAY_TITLE};
use vfsmount_tray::supervisor::state::DiscoveredMount;

fn service() -> ServiceInfo {
    ServiceInfo {
        service_version: "0.1.0".to_string(),
        interface_version: 1,
        rclone_version: "1.75.0".to_string(),
        capability_tier: "T2".to_string(),
    }
}

/// A row as the service would publish it.
fn mount(name: &str, state: &str) -> MountView {
    let parsed = state_from_name(
        state,
        &Some("rclone exited before the mount appeared".to_string()),
    )
    .expect("a state this build knows");
    let found = DiscoveredMount::new(name.to_string(), parsed).at(format!("/mnt/{name}"));
    mount_view(&found, Some(format!("{name}:")))
}

/// A clean reading of the queue with nothing outstanding.
fn idle_transfer(name: &str) -> TransferView {
    TransferView {
        mount: name.to_string(),
        fidelity: Some("T2".to_string()),
        outstanding_known: true,
        has_progress: false,
        pending_files: 0,
        pending_known_bytes: 0,
        pending_unknown_size_files: 0,
        uploading: Some(0),
        errored_files: Some(0),
        out_of_space: Some(false),
        rate_bytes_per_sec: None,
        files: Vec::new(),
        degraded_reason: None,
    }
}

fn pending(t: &mut TransferView, files: u64, bytes: u64, unsized_files: u64) {
    t.pending_files = files;
    t.pending_known_bytes = bytes;
    t.pending_unknown_size_files = unsized_files;
}

fn connected(mounts: Vec<MountView>, transfers: Vec<TransferView>) -> TrayModel {
    let mut m = TrayModel::new();
    m.go_up(service(), mounts);
    for t in &transfers {
        m.upsert_transfer(t);
    }
    m
}

#[test]
fn the_icon_follows_the_state_and_the_attention_icon_does_not() {
    let up = connected(
        vec![mount("photos", "mounted")],
        vec![idle_transfer("photos")],
    );
    assert_eq!(up.icon_name(), TrayState::Idle.icon_name());
    assert_eq!(up.attention_icon_name(), TrayState::Attention.icon_name());

    let mut down = TrayModel::new();
    down.go_down(&LinkError::NotRunning);
    assert_eq!(down.icon_name(), TrayState::Disconnected.icon_name());
}

#[test]
fn the_panel_is_only_asked_to_emphasise_what_needs_acting_on() {
    let idle = connected(
        vec![mount("photos", "mounted")],
        vec![idle_transfer("photos")],
    );
    assert!(matches!(idle.status(), Status::Active));

    let mut busy = idle_transfer("photos");
    pending(&mut busy, 3, 3000, 0);
    let syncing = connected(vec![mount("photos", "mounted")], vec![busy]);
    assert!(
        matches!(syncing.status(), Status::Active),
        "uploads in progress are normal operation"
    );

    let mut failed = mount("photos", "failed");
    failed.reason = Some("rclone exited".to_string());
    let bad = connected(vec![failed], vec![]);
    assert!(matches!(bad.status(), Status::NeedsAttention));
}

#[test]
fn the_item_is_never_passive() {
    let mut m = connected(vec![mount("photos", "unmounted")], vec![]);
    assert!(matches!(m.status(), Status::Active | Status::NeedsAttention));
    m.go_down(&LinkError::NotRunning);
    assert!(matches!(m.status(), Status::Active | Status::NeedsAttention));
}

#[test]
fn a_disconnected_tooltip_describes_the_link_and_not_the_mounts() {
    let mut m = connected(vec![mount("photos", "mounted")], vec![]);
    m.go_down(&LinkError::NotRunning);
    let tip = m.tool_tip();
    assert!(
        tip.description.contains("cannot reach the service"),
        "{tip:?}"
    );
    assert!(tip.description.contains("unaffected"), "{tip:?}");
    assert!(
        !tip.description.contains("mounted"),
        "a count here would be a claim the tray cannot make: {tip:?}"
    );
}

#[test]
fn a_connected_tooltip_carries_the_summary() {
    let mut busy = idle_transfer("photos");
    pending(&mut busy, 3, 1_288_490_188, 0);
    busy.rate_bytes_per_sec = Some(4 * 1024 * 1024);
    let m = connected(
        vec![mount("photos", "mounted"), mount("docs", "unmounted")],
        vec![busy],
    );
    let tip = m.tool_tip();
    assert_eq!(
        tip.description,
        "1 of 2 mounted\n3 files, 1.2 GiB pending\n4 MiB/s · about 5m left"
    );
    assert_eq!(tip.icon_name, TrayState::Syncing.icon_name());
    assert!(tip.title.contains(TRAY_TITLE));
}

#[test]
fn the_item_keeps_one_identity_whatever_it_is_showing() {
    let mut m = connected(vec![mount("photos", "mounted")], vec![]);
    let id = m.id();
    m.go_down(&LinkError::NotRunning);
    assert_eq!(m.id(), id);
    assert_eq!(id, TRAY_ID);
    assert!(!m.title().is_empty());
}

#[test]
fn a_missing_panel_does_not_end_the_tray() {
    let m = TrayModel::new();
    assert!(m.watcher_offline());
}

#[test]
fn a_left_click_reads_everything_again() {
    assert_eq!(TrayModel::new().activate(), Action::Refresh);
}
