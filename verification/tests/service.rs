//! When the service sweeps and polls, and what it records.

use vfsmount_tray::config::Mount;
use vfsmount_tray::errors::SupervisorError;
use vfsmount_tray::poller::{Capabilities, MountPoller};
use vfsmount_tray::registry::{Change, Registry};
use vfsmount_tray::supervisor::state::{DiscoveredMount, MountState};
use vfsmount_tray::transfer::{Tier, TransferState};
use vfsmount_tray::watch::{record, sweep, Watcher, SWEEP_INTERVAL_MS};

fn config() -> Vec<Mount> {
    vec![Mount {
        name: "photos".to_string(),
        remote: "drive".to_string(),
        path: String::new(),
        mount_point: "/mnt/photos".to_string(),
    }]
}

fn found(state: MountState) -> Result<Vec<DiscoveredMount>, SupervisorError> {
    Ok(vec![
        DiscoveredMount::new("photos".to_string(), state).at("/mnt/photos".to_string())
    ])
}

#[test]
fn a_sweep_fills_the_registry_and_names_the_remote() {
    let mut r = Registry::default();
    let changes = sweep(&mut r, found(MountState::Unmounted), &config());
    assert_eq!(changes.len(), 1);
    let mounts = r.mounts();
    assert_eq!(mounts[0].remote.as_deref(), Some("drive:"));
    assert_eq!(mounts[0].mount_point.as_deref(), Some("/mnt/photos"));
    sweep(&mut r, found(MountState::Foreign), &vec![]);
    assert_eq!(r.mounts()[0].remote, None);
}

#[test]
fn a_second_sweep_with_nothing_new_says_nothing() {
    let mut r = Registry::default();
    sweep(&mut r, found(MountState::Unmounted), &config());
    assert!(sweep(&mut r, found(MountState::Unmounted), &config()).is_empty());
}

#[test]
fn a_failed_sweep_keeps_what_was_known() {
    let mut r = Registry::default();
    sweep(&mut r, found(MountState::Mounted), &config());
    let changes = sweep(
        &mut r,
        Err(SupervisorError::Supervision {
            context: "systemd is not answering".into(),
            source: None,
        }),
        &config(),
    );
    assert!(changes.is_empty(), "a failed sweep must announce nothing");
    assert_eq!(r.mounts().len(), 1);
}

#[test]
fn an_unreachable_rclone_is_reported_rather_than_left_blank() {
    let mut r = Registry::default();
    sweep(&mut r, found(MountState::Mounted), &config());
    let p = MountPoller::connect("photos", Err("no such socket".to_string()));
    let s = TransferState::unmonitored("photos", "no such socket".to_string());
    let changes = record(&mut r, &p, &s);
    assert!(
        changes.iter().any(|c| matches!(c, Change::Transfer(_))),
        "a mount that cannot be reached still has something to say"
    );
    let view = r.transfer("photos").cloned().unwrap();
    assert_eq!(view.fidelity, None);
    assert!(!view.outstanding_known);
    assert!(view.degraded_reason.is_some());
}

#[test]
fn nothing_that_is_not_serving_is_polled() {
    let mut r = Registry::default();
    sweep(&mut r, found(MountState::Unmounted), &config());
    assert!(r.pollable().is_empty());
    assert!(Watcher::new(0).poll_due(&r.pollable(), 0).is_empty());
}

#[test]
fn a_mount_that_goes_down_loses_its_poller() {
    let photos = vec!["photos".to_string()];
    let mut w = Watcher::new(0);
    assert_eq!(w.poll_due(&photos, 0), photos);
    w.polled("photos", 0, 600);
    assert!(w.poll_due(&photos, 1000).is_empty(), "not due yet");

    w.poll_due(&Vec::new(), 2000);
    assert_eq!(
        w.poll_due(&photos, 3000),
        photos,
        "what was known of its next poll went with it"
    );
}

#[test]
fn the_wait_never_outruns_the_next_sweep() {
    let photos = vec!["photos".to_string()];
    let mut w = Watcher::new(0);
    assert!(w.sweeps(0));
    w.swept(100);
    assert!(!w.sweeps(100 + SWEEP_INTERVAL_MS - 1));
    assert!(w.sweeps(100 + SWEEP_INTERVAL_MS));
    w.poll_due(&photos, 100);
    w.polled("photos", 200, 600);
    assert_eq!(w.wait(300), SWEEP_INTERVAL_MS - 200);

    // A poll that comes before the sweep is waited for instead.
    w.polled("photos", 300, 1);
    assert_eq!(w.wait(300), 1000);
    assert_eq!(w.wait(5000), 0);

    w.nudge(400);
    assert!(w.sweeps(400));
    assert_eq!(w.wait(400), 0);
}

#[test]
fn a_tier_is_not_claimed_from_a_probe_that_was_refused() {
    let mut r = Registry::default();
    sweep(&mut r, found(MountState::Mounted), &config());
    let refused = MountPoller::connect("photos", Err("no such socket".to_string()));
    let s = TransferState::unmonitored("photos", "no such socket".to_string());
    let changes = record(&mut r, &refused, &s);
    assert_eq!(r.tier(), None);
    assert!(!changes.iter().any(|c| matches!(c, Change::CapabilityTier)));

    let answered = MountPoller::connect(
        "photos",
        Ok(Capabilities {
            commands: vec!["vfs/stats".to_string()],
            refusal: None,
        }),
    );
    let changes = record(&mut r, &answered, &s);
    assert_eq!(changes, vec![Change::CapabilityTier]);
    assert_eq!(r.tier(), Some(Tier::T3));
}
