//! What the subcommands print.

use serde_json::Value;
use vfsmount_tray::client::{
    disconnected_json, execute, name_width, pending_summary, render_list, render_status_human,
    status_json, CliError, Command, MountEntry, Output, Reply, StatusSnapshot,
};
use vfsmount_tray::ipc::{self, IpcError, MountView, TransferFileView, TransferView};
use vfsmount_tray::link::{classify_error_name, from_ipc, handshake, Wire, START_HINT};

fn a_mount(name: &str, state: &str) -> MountView {
    MountView {
        name: name.into(),
        state: state.into(),
        live: state == "mounted",
        managed: true,
        reason: None,
        mount_point: Some(format!("/mnt/{name}")),
        remote: Some(format!("remote:{name}")),
    }
}

fn a_transfer(mount: &str) -> TransferView {
    TransferView {
        mount: mount.into(),
        fidelity: Some("T2".into()),
        outstanding_known: true,
        has_progress: false,
        pending_files: 3,
        pending_known_bytes: 1_288_490_188,
        pending_unknown_size_files: 1,
        uploading: Some(1),
        errored_files: Some(0),
        out_of_space: Some(false),
        rate_bytes_per_sec: Some(4_194_304),
        files: vec![],
        degraded_reason: None,
    }
}

fn snapshot(mounts: Vec<MountView>) -> StatusSnapshot {
    StatusSnapshot {
        interface_version: 1,
        service_version: "9.9.9".into(),
        rclone_version: "1.75.0".into(),
        capability_tier: "T2".into(),
        mounts: mounts
            .into_iter()
            .map(|view| MountEntry {
                transfer: Some(a_transfer(&view.name)),
                view,
            })
            .collect(),
    }
}

#[test]
fn list_prints_the_mounts_the_service_returns() {
    let out = execute(
        &Command::List,
        Reply::Mounts(vec![
            a_mount("photos", "mounted"),
            a_mount("docs", "unmounted"),
        ]),
    );
    assert!(out.error.is_none());
    let text = out.text;
    assert!(text.contains("photos"), "{text}");
    assert!(text.contains("docs"), "{text}");
    assert!(text.contains("/mnt/photos"), "{text}");
    assert_eq!(
        text,
        "NAME    STATE       LIVE     MOUNT POINT\n\
         photos  mounted     live     /mnt/photos\n\
         docs    unmounted   -        /mnt/docs\n"
    );
}

#[test]
fn a_refused_call_keeps_the_services_sentence_and_exits_one() {
    let out = execute(
        &Command::Mount {
            name: "nope".into(),
        },
        Reply::Failed(from_ipc(IpcError::UnknownMount(format!(
            "no mount named {:?}",
            "nope"
        )))),
    );
    let err = out.error.expect("mounting an unknown name must be refused");
    assert_eq!(err.exit_code(), 1);
    assert!(
        err.message().contains("no mount named \"nope\""),
        "the message must be the service's own: {}",
        err.message()
    );
    assert_eq!(out.text, "");
}

#[test]
fn a_service_one_version_ahead_is_still_usable() {
    // A newer service is forward-compatible by design: the client one release behind
    // must keep working, not refuse to talk.
    handshake(2).expect("a newer service must still answer");
}

#[test]
fn a_service_too_old_for_the_command_is_named_not_left_to_fail_late() {
    let err = handshake(0).expect_err("version 0 is below what the commands need");
    assert!(matches!(
        err,
        CliError::TooOld {
            needed: 1,
            found: 0
        }
    ));
    assert_eq!(err.exit_code(), 4);
}

#[test]
fn status_json_carries_the_stable_keys() {
    let out = execute(
        &Command::Status { json: true },
        Reply::Status(snapshot(vec![a_mount("photos", "mounted")])),
    );
    let doc: Value = serde_json::from_str(&out.text).unwrap();
    assert_eq!(doc["connected"], Value::from(true));
    assert_eq!(doc["service"]["interface_version"], Value::from(1));
    assert_eq!(
        doc["service"]["client_interface_version"],
        Value::from(ipc::INTERFACE_VERSION)
    );
    assert_eq!(doc["mounts"][0]["name"], Value::from("photos"));
    assert_eq!(doc["mounts"][0]["state"], Value::from("mounted"));
    assert_eq!(
        doc["mounts"][0]["transfer"]["pending_files"],
        Value::from(3)
    );
}

#[test]
fn disconnected_status_is_null_mounts_not_empty() {
    // A stopped service must never be reported as a service with no mounts. `null` and `[]`
    // are different answers and a script keys on the difference.
    let doc: Value = serde_json::from_str(&disconnected_json(&CliError::NotRunning)).unwrap();
    assert_eq!(doc["connected"], Value::from(false));
    assert_eq!(doc["mounts"], Value::Null);
    assert_eq!(doc["reason"], Value::from("service not running"));
    assert_eq!(doc["start_hint"], Value::from(START_HINT));
}

#[test]
fn client_the_not_running_message_offers_the_start_command_and_denies_the_inference() {
    let m = CliError::<String>::NotRunning.message();
    assert!(m.contains(START_HINT), "{m}");
    assert!(
        m.contains("still up"),
        "the message must refuse the disconnected-means-unmounted reading: {m}"
    );
    assert_eq!(CliError::<String>::NotRunning.exit_code(), 3);
}

#[test]
fn client_error_names_sort_into_the_right_bucket() {
    assert!(matches!(
        classify_error_name("org.freedesktop.DBus.Error.ServiceUnknown"),
        Wire::NotRunning
    ));
    assert!(matches!(
        classify_error_name("org.freedesktop.DBus.Error.UnknownInterface"),
        Wire::Incompatible
    ));
    assert!(matches!(
        classify_error_name("org.freedesktop.DBus.Error.AccessDenied"),
        Wire::Transport
    ));
}

#[test]
fn the_whole_status_document_is_written() {
    let mut snap = snapshot(vec![a_mount("pho\"tos", "failed"), a_mount("docs", "mounted")]);
    snap.mounts[0].view.reason = Some("line\nbreak".into());
    snap.mounts[0].view.mount_point = None;
    snap.mounts[0].transfer.as_mut().unwrap().files = vec![TransferFileView {
        name: "clip.mp4".into(),
        size: Some(5),
        in_flight: None,
        tries: Some(2),
        bytes_sent: Some(u64::MAX),
    }];
    snap.mounts[1].transfer = None;
    let doc: Value = serde_json::from_str(&status_json(&snap)).unwrap();
    let want: Value = serde_json::from_str(
        r#"{
        "connected": true,
        "service": {
            "service_version": "9.9.9",
            "interface_version": 1,
            "client_interface_version": 1,
            "rclone_version": "1.75.0",
            "capability_tier": "T2"
        },
        "mounts": [
            {
                "name": "pho\"tos", "state": "failed", "live": false, "managed": true,
                "reason": "line\nbreak", "mount_point": null, "remote": "remote:pho\"tos",
                "transfer": {
                    "fidelity": "T2", "outstanding_known": true, "has_progress": false,
                    "pending_files": 3, "pending_known_bytes": 1288490188,
                    "pending_unknown_size_files": 1, "uploading": 1, "errored_files": 0,
                    "out_of_space": false, "rate_bytes_per_sec": 4194304,
                    "degraded_reason": null,
                    "files": [{
                        "name": "clip.mp4", "size": 5, "in_flight": null, "tries": 2,
                        "bytes_sent": 18446744073709551615
                    }]
                }
            },
            {
                "name": "docs", "state": "mounted", "live": true, "managed": true,
                "reason": null, "mount_point": "/mnt/docs", "remote": "remote:docs",
                "transfer": null
            }
        ]
    }"#,
    )
    .unwrap();
    assert_eq!(doc, want);
}

#[test]
fn every_disconnection_has_its_reason() {
    for (e, reason) in [
        (CliError::NoSessionBus("x".to_string()), "no session bus"),
        (CliError::Incompatible, "interface incompatible"),
        (
            CliError::TooOld {
                needed: 1,
                found: 0,
            },
            "service too old",
        ),
        (CliError::Transport("x".to_string()), "service unreachable"),
        (CliError::Refused(None), "request refused"),
    ] {
        let doc: Value = serde_json::from_str(&disconnected_json(&e)).unwrap();
        assert_eq!(doc["reason"], Value::from(reason));
        assert_eq!(doc["detail"], Value::from(e.message()));
        assert_eq!(doc["mounts"], Value::Null);
        assert!(doc.as_object().unwrap().contains_key("mounts"));
        assert!(doc.get("start_hint").is_none());
    }
}

#[test]
fn a_failed_status_still_writes_a_document_and_a_failed_list_writes_nothing() {
    let out = execute(
        &Command::Status { json: true },
        Reply::Failed(CliError::NotRunning),
    );
    assert_eq!(out.text, disconnected_json(&CliError::NotRunning) + "\n");
    assert_eq!(out.error, Some(CliError::NotRunning));
    for quiet in [Command::Status { json: false }, Command::List] {
        let Output { text, error } = execute(&quiet, Reply::Failed(CliError::NotRunning));
        assert_eq!(text, "");
        assert_eq!(error, Some(CliError::NotRunning));
    }
}

#[test]
fn what_was_done_is_named() {
    let name = || "photos".to_string();
    assert_eq!(
        execute(&Command::Mount { name: name() }, Reply::Done).text,
        "mounted photos\n"
    );
    assert_eq!(
        execute(
            &Command::Unmount {
                name: name(),
                force: true
            },
            Reply::Done
        )
        .text,
        "unmounted photos\n"
    );
}

#[test]
fn status_is_printed_for_people() {
    let mut snap = snapshot(vec![
        a_mount("photos", "mounted"),
        a_mount("b", "mounted"),
        a_mount("c", "mounted"),
        a_mount("d", "unmounted"),
    ]);
    snap.mounts[1].transfer.as_mut().unwrap().outstanding_known = false;
    snap.mounts[2].transfer.as_mut().unwrap().pending_files = 0;
    snap.mounts[3].transfer = None;
    assert_eq!(
        pending_summary(&snap.mounts[0]),
        "3 file(s), 1288490188 bytes"
    );
    let text = "service 9.9.9  (interface 1, client 1)\n\
         rclone  1.75.0\n\
         capability tier: T2\n\
         \n\
         NAME    STATE       PENDING\n\
         photos  mounted     3 file(s), 1288490188 bytes\n\
         b       mounted     unknown\n\
         c       mounted     up to date\n\
         d       unmounted   -\n";
    assert_eq!(render_status_human(&snap), text);
    assert_eq!(
        execute(&Command::Status { json: false }, Reply::Status(snap)).text,
        text
    );
    assert!(render_status_human(&snapshot(vec![])).ends_with("\n\nNo mounts configured.\n"));
}

#[test]
fn the_name_column_is_never_narrower_than_its_header() {
    assert_eq!(name_width(&vec![]), 4);
    assert_eq!(name_width(&vec![2, 9, 3]), 9);
    assert_eq!(render_list(&vec![]), "No mounts configured.\n");
    // The width is measured in bytes and the padding in characters.
    let mut m = a_mount("éé", "mounted");
    m.mount_point = None;
    assert_eq!(
        render_list(&vec![a_mount("ééé", "a state longer than its column"), m]),
        format!(
            "{:<6}  {:<10}  {:<7}  MOUNT POINT\n{:<6}  {:<10}  {:<7}  {}\n{:<6}  {:<10}  {:<7}  {}\n",
            "NAME",
            "STATE",
            "LIVE",
            "ééé",
            "a state longer than its column",
            "-",
            "/mnt/ééé",
            "éé",
            "mounted",
            "live",
            "-"
        )
    );
}
