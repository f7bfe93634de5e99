//! What the service knows of its mounts, and what it tells its clients.

use vfsmount_tray::errors::SupervisorError;
use vfsmount_tray::ipc::{
    ipc_error, mount_view, state_from_name, state_name, transfer_state, transfer_view,
    unknown_mount, IpcError, MountView, TransferView, BUS_NAME, INTERFACE_NAME, INTERFACE_VERSION,
    OBJECT_PATH,
};
use vfsmount_tray::registry::{not_swept_yet, nothing_to_say, why_not_polled, Change, Registry};
use vfsmount_tray::supervisor::state::{DiscoveredMount, MountState};
use vfsmount_tray::transfer::{QueueItem, Tier, TransferState};

/// Built through the real conversion, so that `live` and `managed` are whatever the state
/// implies.
fn view(name: &str, state: &str) -> MountView {
    let found = DiscoveredMount::new(
        name.to_string(),
        state_from_name(state, &None).expect("a state this build knows"),
    );
    MountView {
        mount_point: Some(format!("/mnt/{name}")),
        ..mount_view(&found, Some(format!("drive:{name}")))
    }
}

fn transfer(mount: &str, files: u64) -> TransferView {
    TransferView {
        mount: mount.into(),
        fidelity: Some("T2".into()),
        outstanding_known: true,
        has_progress: false,
        pending_files: files,
        pending_known_bytes: files * 1024,
        pending_unknown_size_files: 0,
        uploading: None,
        errored_files: None,
        out_of_space: None,
        rate_bytes_per_sec: None,
        files: Vec::new(),
        degraded_reason: None,
    }
}

#[test]
fn a_first_sweep_is_all_new() {
    let mut r = Registry::default();
    let changes = r.observe_mounts(vec![view("photos", "mounted"), view("docs", "unmounted")]);
    assert_eq!(changes.len(), 2);
    assert_eq!(r.mounts().len(), 2);
}

#[test]
fn an_unchanged_sweep_says_nothing() {
    let mut r = Registry::default();
    r.observe_mounts(vec![view("photos", "mounted")]);
    assert!(r.observe_mounts(vec![view("photos", "mounted")]).is_empty());
}

#[test]
fn a_state_transition_is_reported_once() {
    let mut r = Registry::default();
    r.observe_mounts(vec![view("photos", "unmounted")]);

    let changes = r.observe_mounts(vec![view("photos", "mounted")]);
    assert_eq!(changes, vec![Change::Mount(view("photos", "mounted"))]);
    assert!(r.observe_mounts(vec![view("photos", "mounted")]).is_empty());
}

#[test]
fn a_row_that_vanishes_is_reported_as_removed() {
    // Configured mounts never vanish — a foreign mount somebody else unmounted does,
    // and a client left holding the row would show a mount that is not there.
    let mut r = Registry::default();
    r.observe_mounts(vec![
        view("photos", "mounted"),
        view("/mnt/theirs", "foreign"),
    ]);

    let changes = r.observe_mounts(vec![view("photos", "mounted")]);
    assert_eq!(changes, vec![Change::Removed("/mnt/theirs".into())]);
    assert!(r.mount("/mnt/theirs").is_none());
}

#[test]
fn the_tier_reported_is_the_richest_any_mount_reached() {
    let mut r = Registry::default();
    assert_eq!(
        r.tier(),
        None,
        "no tier may be named before one is resolved"
    );
    assert_eq!(r.capability_tier(), "unknown");

    assert_eq!(r.note_tier(Tier::T3), Some(Change::CapabilityTier));
    assert_eq!(r.note_tier(Tier::T2), Some(Change::CapabilityTier));
    assert_eq!(
        r.note_tier(Tier::T4),
        None,
        "a poorer tier does not change the answer, so nothing is published"
    );
    assert_eq!(r.note_tier(Tier::T2), None, "nor does repeating the best");
    assert_eq!(r.tier(), Some(Tier::T2));
    assert_eq!(r.capability_tier(), "T2");
}

#[test]
fn dropping_a_reading_is_published_rather_than_done_quietly() {
    // A client builds its model from these changes, so a reading it is never told to
    // forget is one it goes on showing: "3 files, 1.2 GB still to upload" against a
    // mount that is down.
    let mut r = Registry::default();
    r.observe_mounts(vec![view("photos", "mounted")]);
    r.observe_transfer(transfer("photos", 3));

    let changes = r.observe_mounts(vec![view("photos", "unmounted")]);
    let emptied = changes
        .iter()
        .find_map(|c| match c {
            Change::Transfer(v) => Some(v),
            _ => None,
        })
        .expect("the dropped reading has to be announced");

    assert_eq!(emptied.pending_files, 0);
    assert!(
        !emptied.outstanding_known,
        "an empty reading that claims to be exact reads as safe to unmount"
    );
    assert!(emptied.degraded_reason.is_some());
}

#[test]
fn a_reading_does_not_outlive_the_mount_it_describes() {
    let mut r = Registry::default();
    r.observe_mounts(vec![view("photos", "mounted")]);
    r.observe_transfer(transfer("photos", 3));
    assert!(r.transfer("photos").is_some());

    r.observe_mounts(vec![view("photos", "unmounted")]);
    assert_eq!(
        r.transfer("photos"),
        None,
        "figures from before an unmount describe a mount that is no longer serving"
    );
}

#[test]
fn a_mount_that_goes_on_serving_keeps_its_reading() {
    let mut r = Registry::default();
    r.observe_mounts(vec![view("photos", "mounted"), view("docs", "mounted")]);
    r.observe_transfer(transfer("photos", 3));
    r.observe_transfer(transfer("docs", 1));
    r.observe_mounts(vec![view("docs", "failed"), view("photos", "mounted")]);
    assert_eq!(r.transfer("photos"), Some(&transfer("photos", 3)));
    assert_eq!(r.transfer("docs"), None);
}

#[test]
fn an_unchanged_reading_is_not_re_announced() {
    let mut r = Registry::default();
    r.observe_mounts(vec![view("photos", "mounted")]);

    assert!(r.observe_transfer(transfer("photos", 3)).is_some());
    assert!(r.observe_transfer(transfer("photos", 3)).is_none());
    assert!(r.observe_transfer(transfer("photos", 2)).is_some());
}

#[test]
fn only_mounts_with_a_socket_of_ours_are_polled() {
    let mut r = Registry::default();
    r.observe_mounts(vec![
        view("photos", "mounted"),
        view("docs", "unmounted"),
        view("stale", "orphaned"),
        view("/mnt/theirs", "foreign"),
        view("broken", "failed"),
    ]);
    assert_eq!(r.pollable(), vec!["photos".to_string()]);
}

#[test]
fn a_client_sees_the_mounts_the_registry_holds() {
    let mut r = Registry::default();
    r.observe_mounts(vec![view("photos", "mounted"), view("docs", "unmounted")]);
    assert_eq!(
        r.mounts(),
        vec![view("docs", "unmounted"), view("photos", "mounted")],
        "in the order of their names"
    );
}

#[test]
fn a_client_that_follows_every_change_ends_with_the_same_rows() {
    let sweeps = [
        vec![view("b", "mounted"), view("a", "unmounted")],
        vec![view("c", "mounted"), view("b", "unmounted")],
        vec![],
        vec![view("a", "failed"), view("c", "orphaned")],
    ];
    let mut r = Registry::default();
    let mut client: std::collections::BTreeMap<String, MountView> =
        std::collections::BTreeMap::new();
    for sweep in sweeps {
        for change in r.observe_mounts(sweep) {
            match change {
                Change::Mount(v) => {
                    client.insert(v.name.clone(), v);
                }
                Change::Removed(name) => {
                    client.remove(&name);
                }
                _ => {}
            }
        }
        assert_eq!(client.values().cloned().collect::<Vec<_>>(), r.mounts());
    }
}

#[test]
fn a_refusal_arrives_as_its_own_error_rather_than_as_prose() {
    match ipc_error(SupervisorError::Busy {
        detail: "/mnt/photos is still in use".into(),
    }) {
        IpcError::Busy(detail) => assert!(detail.contains("still in use"), "{detail}"),
        other => panic!("expected a Busy refusal, got {other:?}"),
    }
    assert!(matches!(
        ipc_error(SupervisorError::NotManaged("theirs".into())),
        IpcError::NotManaged(_)
    ));
    assert!(matches!(
        ipc_error(SupervisorError::UnknownMount("nope".into())),
        IpcError::UnknownMount(_)
    ));
}

#[test]
fn asking_about_a_mount_that_does_not_exist_is_an_error_a_client_can_branch_on() {
    assert_eq!(
        Registry::default().get_transfer_state("nope"),
        Err(IpcError::UnknownMount("no mount named \"nope\"".into()))
    );
    assert_eq!(
        unknown_mount("a\"b\n"),
        IpcError::UnknownMount("no mount named \"a\\\"b\\n\"".into())
    );
}

#[test]
fn a_mount_with_no_reading_yet_says_so_rather_than_reporting_nothing_outstanding() {
    let mut r = Registry::default();
    r.observe_mounts(vec![view("photos", "mounted")]);
    let view = r.get_transfer_state("photos").unwrap();
    assert_eq!(view.fidelity, None);
    assert!(!view.outstanding_known);
    assert_eq!(view.degraded_reason.as_deref(), Some("not polled yet"));
    assert!(!transfer_state(&view).safe_to_unmount());

    r.observe_transfer(transfer("photos", 3));
    assert_eq!(r.get_transfer_state("photos"), Ok(transfer("photos", 3)));
}

#[test]
fn every_state_says_why_it_is_not_polled() {
    for (state, why) in [
        (
            "foreign",
            "started outside this service, so its rc socket is unknown",
        ),
        (
            "orphaned",
            "no configuration describes this mount any more",
        ),
        ("mounted", "not polled yet"),
        ("unmounted", "the mount is not serving"),
        ("failed", "the mount is not serving"),
    ] {
        assert_eq!(why_not_polled(&view("m", state)), why);
        assert_eq!(
            nothing_to_say(&view("m", state)).degraded_reason.as_deref(),
            Some(why)
        );
    }
    let unswept = not_swept_yet("m");
    assert!(!unswept.outstanding_known);
    assert!(unswept.degraded_reason.is_some());
}

#[test]
fn a_state_survives_the_wire() {
    for state in [
        MountState::Mounted,
        MountState::Unmounted,
        MountState::Mounting,
        MountState::Unmounting,
        MountState::Failed {
            reason: "it broke".to_string(),
        },
        MountState::Foreign,
        MountState::Orphaned,
    ] {
        let reason = match &state {
            MountState::Failed { reason } => Some(reason.clone()),
            _ => None,
        };
        assert_eq!(state_from_name(&state_name(&state), &reason), Some(state));
    }
    assert_eq!(state_from_name("asleep", &None), None);

    let theirs = view("/mnt/theirs", "foreign");
    assert!(theirs.live && !theirs.managed);
    let left = view("old", "orphaned");
    assert!(left.live && left.managed);
}

#[test]
fn a_reading_survives_the_wire() {
    let queue = vec![
        QueueItem {
            name: "a".into(),
            size: Some(10),
            tries: 1,
            uploading: true,
        },
        QueueItem {
            name: "b".into(),
            size: None,
            tries: 0,
            uploading: false,
        },
    ];
    let s = TransferState::from_queue("photos", &Some(queue)).with_rate(Some(3));
    let v = transfer_view(&s);
    assert_eq!(v.fidelity.as_deref(), Some("T2"));
    assert_eq!(
        (
            v.pending_files,
            v.pending_known_bytes,
            v.pending_unknown_size_files
        ),
        (2, 10, 1)
    );
    assert_eq!(v.uploading, Some(1));
    assert_eq!(transfer_state(&v), s);
    assert!(v.same(&v.copy()));
    assert!(!v.same(&transfer("photos", 2)));
}

#[test]
fn the_interface_has_one_name() {
    assert_eq!(INTERFACE_NAME, "io.github.stuckj.RcloneVfsmountTray1");
    assert_eq!(BUS_NAME, INTERFACE_NAME);
    assert_eq!(OBJECT_PATH, "/".to_string() + &BUS_NAME.replace('.', "/"));
    assert_eq!(INTERFACE_VERSION, 1);
}
